//! Resumable producers of targets.
//!
//! A resolvable is driven by `resolve_next`. It answers with the next
//! target, with the end, or with the lookup that it needs before it can go
//! on; the answer to that lookup is handed in with `deliver`.

pub mod plan;
pub mod resolvable_addr_record;
pub mod resolvable_ip_addr;
pub mod resolvable_naptr_record;
pub mod resolvable_srv_record;
pub mod resolvable_vec;

use vstd::prelude::*;
use crate::records::naptr_record::{NaptrRecord, NaptrRecordView};
use crate::records::srv_record::{SrvRecord, SrvRecordView};
use crate::records::{view_of, AddrRecord, AddrRecordView, SrvDomain, SrvDomainView};
use crate::resolvables::plan::Plan;
use crate::target::Target;

verus! {

/// What a resolvable says of itself without being driven.
#[derive(Debug, Clone, Copy, PartialEq, Eq, Structural)]
pub enum ResolvableState {
    /// No lookup has been answered yet.
    Unset,
    /// Nothing is left.
    Empty,
    /// A target may still come.
    NonEmpty,
}

/// A lookup that a resolvable needs.
#[derive(Debug, PartialEq, Eq)]
pub enum Query {
    Naptr(String),
    Srv(SrvDomain),
    Addr(String),
}

pub enum QueryView {
    Naptr(Seq<char>),
    Srv(SrvDomainView),
    Addr(Seq<char>),
}

impl View for Query {
    type V = QueryView;

    open spec fn view(&self) -> QueryView {
        match self {
            Query::Naptr(domain) => QueryView::Naptr(domain@),
            Query::Srv(domain) => QueryView::Srv(domain@),
            Query::Addr(domain) => QueryView::Addr(domain@),
        }
    }
}

impl Clone for Query {
    fn clone(&self) -> (r: Self)
        ensures
            r@ == self@,
    {
        match self {
            Query::Naptr(domain) => Query::Naptr(domain.clone()),
            Query::Srv(domain) => Query::Srv(domain.clone()),
            Query::Addr(domain) => Query::Addr(domain.clone()),
        }
    }
}

/// What one call of `resolve_next` comes to.
#[derive(Debug, PartialEq, Eq)]
pub enum Step {
    /// The next target.
    Target(Target),
    /// Nothing can come before this lookup is answered.
    Lookup(Query),
    /// No target is left.
    Done,
}

pub enum StepView {
    Target(Target),
    Lookup(QueryView),
    Done,
}

impl View for Step {
    type V = StepView;

    open spec fn view(&self) -> StepView {
        match self {
            Step::Target(target) => StepView::Target(*target),
            Step::Lookup(query) => StepView::Lookup(query@),
            Step::Done => StepView::Done,
        }
    }
}

/// The answer to a lookup. A NAPTR or SRV lookup that failed and one that
/// found nothing are both `None`; so is an address lookup that gave no
/// address.
#[derive(Debug, PartialEq, Eq)]
pub enum Answer {
    Naptr(Option<NaptrRecord>),
    Srv(Option<SrvRecord>),
    Addr(Option<AddrRecord>),
}

pub enum AnswerView {
    Naptr(Option<NaptrRecordView>),
    Srv(Option<SrvRecordView>),
    Addr(Option<AddrRecordView>),
}

impl View for Answer {
    type V = AnswerView;

    open spec fn view(&self) -> AnswerView {
        match self {
            Answer::Naptr(record) => AnswerView::Naptr(view_of(*record)),
            Answer::Srv(record) => AnswerView::Srv(view_of(*record)),
            Answer::Addr(record) => AnswerView::Addr(view_of(*record)),
        }
    }
}

/// What every resolvable offers.
pub trait ResolvableExt: Sized {
    /// What is left to do.
    spec fn plan(&self) -> Plan;

    fn state(&self) -> (r: ResolvableState)
        ensures
            r == self.plan().state(),
    ;

    /// The next step. A target that is handed out is gone afterwards; a
    /// lookup is reported again until its answer has been delivered.
    fn resolve_next(&mut self) -> (r: Step)
        ensures
            r@ == old(self).plan().next(),
            final(self).plan() == old(self).plan().advance(),
    ;

    /// Hands in the answer to the lookup that was last reported.
    fn deliver(&mut self, answer: Answer)
        ensures
            final(self).plan() == old(self).plan().deliver(answer@),
    ;
}

/// The plans of resolvables, in their order.
pub open spec fn plans_of<T: ResolvableExt>(items: Seq<T>) -> Seq<Plan> {
    Seq::new(items.len(), |i: int| items[i].plan())
}

} // verus!
