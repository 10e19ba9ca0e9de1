//! Resolvables in a row.

use vstd::prelude::*;
use crate::resolvables::plan::{
    first_live, is_live, lemma_exhausted_is_done, lemma_list_exhausted, Plan,
};
use crate::resolvables::{plans_of, Answer, ResolvableExt, ResolvableState, Step};
use crate::search::lemma_first_index_at;

verus! {

/// Resolvables that are drained one after the other: the second is not
/// touched before the first has reported its end.
#[derive(Debug, PartialEq, Eq)]
pub struct ResolvableVec<T> {
    items: Option<Vec<T>>,
}

/// The first of `items` that is not exhausted, if there is one.
pub fn live_index<T: ResolvableExt>(items: &Vec<T>) -> (r: Option<usize>)
    ensures
        match r {
            Some(k) => k < items.len() && k == first_live(plans_of(items@), 0),
            None => first_live(plans_of(items@), 0) == items.len(),
        },
{
    let ghost plans = plans_of(items@);
    let mut i: usize = 0;
    while i < items.len()
        invariant
            i <= items.len(),
            plans == plans_of(items@),
            forall|j: int| 0 <= j < i ==> (#[trigger] plans[j]).exhausted(),
        decreases items.len() - i,
    {
        proof {
            lemma_exhausted_is_done(plans[i as int]);
        }
        match items[i].state() {
            ResolvableState::Empty => {},
            _ => {
                proof {
                    lemma_first_index_at(plans, is_live(), 0, i as int);
                }
                return Some(i);
            },
        }
        i += 1;
    }
    proof {
        lemma_first_index_at(plans, is_live(), 0, i as int);
    }
    None
}

/// Drives the first of `items` that has something left.
pub fn drive<T: ResolvableExt>(items: &mut Vec<T>) -> (r: Step)
    ensures
        r@ == Plan::List(plans_of(old(items)@)).next(),
        Plan::List(plans_of(final(items)@)) == Plan::List(plans_of(old(items)@)).advance(),
{
    let ghost plans = plans_of(items@);
    match live_index(items) {
        Some(k) => {
            let step = items[k].resolve_next();
            assert(plans_of(items@) =~= plans.update(k as int, plans[k as int].advance()));
            step
        },
        None => Step::Done,
    }
}

/// Hands `answer` to the first of `items` that has something left.
pub fn route<T: ResolvableExt>(items: &mut Vec<T>, answer: Answer)
    ensures
        Plan::List(plans_of(final(items)@)) == Plan::List(plans_of(old(items)@)).deliver(answer@),
{
    let ghost plans = plans_of(items@);
    match live_index(items) {
        Some(k) => {
            items[k].deliver(answer);
            assert(plans_of(items@) =~= plans.update(k as int, plans[k as int].deliver(answer@)));
        },
        None => {},
    }
}

impl<T: ResolvableExt + Clone> Clone for ResolvableVec<T> {
    /// A row of clones. It holds what this row holds, where a clone of an
    /// item has the plan of the item.
    fn clone(&self) -> (r: Self)
        ensures
            (forall|a: T, b: T| #[trigger] cloned(a, b) ==> a.plan() == b.plan()) ==> r.plans()
                == self.plans(),
    {
        match &self.items {
            Some(items) => {
                let copies = items.clone();
                proof {
                    if forall|a: T, b: T| #[trigger] cloned(a, b) ==> a.plan() == b.plan() {
                        assert forall|i: int| 0 <= i < items@.len() implies copies@[i].plan()
                            == items@[i].plan() by {
                            assert(cloned(items@[i], copies@[i]));
                        }
                        assert(plans_of(copies@) =~= plans_of(items@));
                    }
                }
                ResolvableVec { items: Some(copies) }
            },
            None => ResolvableVec { items: None },
        }
    }
}

impl<T: ResolvableExt> ResolvableVec<T> {
    /// What the row holds; `None` before it has been filled.
    pub closed spec fn plans(&self) -> Option<Seq<Plan>> {
        match self.items {
            Some(items) => Some(plans_of(items@)),
            None => None,
        }
    }

    /// A row that has not been filled yet.
    pub fn unset() -> (r: Self)
        ensures
            r.plans() is None,
    {
        ResolvableVec { items: None }
    }

    /// A row that holds nothing.
    pub fn empty() -> (r: Self)
        ensures
            r.plans() == Some(Seq::<Plan>::empty()),
    {
        let items: Vec<T> = Vec::new();
        assert(plans_of(items@) =~= Seq::<Plan>::empty());
        ResolvableVec { items: Some(items) }
    }

    /// A row of `items`, the first of which is drained first.
    pub fn non_empty(items: Vec<T>) -> (r: Self)
        ensures
            r.plans() == Some(plans_of(items@)),
    {
        ResolvableVec { items: Some(items) }
    }

    pub fn is_unset(&self) -> (r: bool)
        ensures
            r == self.plans() is None,
    {
        self.items.is_none()
    }

    /// `Unset` before the row has been filled; then `NonEmpty` while one of
    /// its resolvables has something left, and `Empty` after that.
    pub fn state(&self) -> (r: ResolvableState)
        ensures
            r == match self.plans() {
                Some(plans) => Plan::List(plans).state(),
                None => ResolvableState::Unset,
            },
    {
        match &self.items {
            None => ResolvableState::Unset,
            Some(items) => {
                let ghost plans = plans_of(items@);
                proof {
                    lemma_list_exhausted(plans);
                }
                match live_index(items) {
                    Some(_) => ResolvableState::NonEmpty,
                    None => ResolvableState::Empty,
                }
            },
        }
    }

    /// The next step of the first resolvable that has something left; the
    /// end where none has, or where the row has not been filled.
    pub fn resolve_next(&mut self) -> (r: Step)
        ensures
            match old(self).plans() {
                Some(plans) => r@ == Plan::List(plans).next() && final(self).plans() is Some
                    && Plan::List(final(self).plans()->Some_0) == Plan::List(plans).advance(),
                None => r@ is Done && final(self).plans() is None,
            },
    {
        match self.items.take() {
            None => Step::Done,
            Some(mut items) => {
                let step = drive(&mut items);
                self.items = Some(items);
                step
            },
        }
    }

    /// Hands `answer` to the first resolvable that has something left.
    pub fn deliver(&mut self, answer: Answer)
        ensures
            match old(self).plans() {
                Some(plans) => final(self).plans() is Some && Plan::List(
                    final(self).plans()->Some_0,
                ) == Plan::List(plans).deliver(answer@),
                None => final(self).plans() is None,
            },
    {
        match self.items.take() {
            None => {},
            Some(mut items) => {
                route(&mut items, answer);
                self.items = Some(items);
            },
        }
    }
}

} // verus!
