//! Stable sorting by an integer key, as a function on sequences.

use vstd::prelude::*;
use crate::records::views;
use crate::search::{first_index, lemma_first_index};

verus! {

/// What tells the items of a key above `k` from the others.
pub open spec fn is_above<E>(key: spec_fn(E) -> int, k: int) -> spec_fn(E) -> bool {
    |e: E| key(e) > k
}

/// Where an item of key `k` goes into `s`, looking from `from` on: before
/// the first item whose key is greater, so behind every item of its own key.
pub open spec fn insert_point<E>(s: Seq<E>, key: spec_fn(E) -> int, k: int, from: int) -> int {
    first_index(s, is_above(key, k), from)
}

/// `s` with `e` put in at its place.
pub open spec fn insert_sorted<E>(s: Seq<E>, key: spec_fn(E) -> int, e: E) -> Seq<E> {
    s.insert(insert_point(s, key, key(e), 0), e)
}

/// The items of `s` by ascending key; items of one key keep the order
/// that they have in `s`.
pub open spec fn stable_sort<E>(s: Seq<E>, key: spec_fn(E) -> int) -> Seq<E>
    decreases s.len(),
{
    if s.len() == 0 {
        s
    } else {
        insert_sorted(stable_sort(s.drop_last(), key), key, s.last())
    }
}

/// An item that is sorted by an integer key.
pub trait Keyed: View + Sized {
    /// The key of an item: items of a smaller key come first.
    spec fn key(view: Self::V) -> int;

    fn sort_key(&self) -> (k: i64)
        ensures
            k == Self::key(self@),
    ;

    fn duplicate(&self) -> (r: Self)
        ensures
            r@ == self@,
    ;
}

/// The key by which items of one type are sorted.
pub open spec fn key_of<T: Keyed>() -> spec_fn(T::V) -> int {
    |view: T::V| T::key(view)
}

/// The items by ascending key; items of one key keep their order.
pub fn sort_by_key<T: Keyed>(items: &Vec<T>) -> (r: Vec<T>)
    ensures
        views(r@) == stable_sort(views(items@), key_of::<T>()),
{
    let ghost key = key_of::<T>();
    let ghost all = views(items@);
    let mut out: Vec<T> = Vec::new();
    let mut i: usize = 0;
    assert(all.take(0) =~= Seq::<T::V>::empty());
    while i < items.len()
        invariant
            i <= items.len(),
            key == key_of::<T>(),
            all == views(items@),
            views(out@) =~= stable_sort(all.take(i as int), key),
            out@.len() == i,
        decreases items.len() - i,
    {
        let item = items[i].duplicate();
        let k = item.sort_key();
        let ghost sorted = views(out@);
        let mut p: usize = 0;
        while p < out.len() && out[p].sort_key() <= k
            invariant
                p <= out.len(),
                sorted == views(out@),
                key == key_of::<T>(),
                k == T::key(item@),
                insert_point(sorted, key, key(item@), 0) == insert_point(
                    sorted,
                    key,
                    key(item@),
                    p as int,
                ),
            decreases out.len() - p,
        {
            assert(key(sorted[p as int]) == T::key(out@[p as int]@));
            p += 1;
        }
        proof {
            if p < out.len() {
                assert(key(sorted[p as int]) == T::key(out@[p as int]@));
            }
            assert(insert_point(sorted, key, key(item@), 0) == p);
            let next = all.take(i + 1);
            assert(next.drop_last() =~= all.take(i as int));
            assert(next.last() == item@);
            assert(stable_sort(next, key) == insert_sorted(sorted, key, item@));
        }
        out.insert(p, item);
        assert(views(out@) =~= sorted.insert(p as int, item@));
        i += 1;
    }
    assert(all.take(i as int) =~= all);
    out
}

/// No item of `s` comes before one of a smaller key.
pub open spec fn ascending<E>(s: Seq<E>, key: spec_fn(E) -> int) -> bool {
    forall|i: int, j: int| 0 <= i < j < s.len() ==> key(s[i]) <= key(s[j])
}

/// The items of `s` whose key is `k`, in their order.
pub open spec fn of_key<E>(s: Seq<E>, key: spec_fn(E) -> int, k: int) -> Seq<E>
    decreases s.len(),
{
    if s.len() == 0 {
        s
    } else if key(s.last()) == k {
        of_key(s.drop_last(), key, k).push(s.last())
    } else {
        of_key(s.drop_last(), key, k)
    }
}

/// Sorting neither adds nor drops an item.
pub proof fn lemma_sort_len<E>(s: Seq<E>, key: spec_fn(E) -> int)
    ensures
        stable_sort(s, key).len() == s.len(),
    decreases s.len(),
{
    if s.len() > 0 {
        lemma_sort_len(s.drop_last(), key);
        let t = stable_sort(s.drop_last(), key);
        lemma_first_index(t, is_above(key, key(s.last())), 0);
    }
}

/// What comes out of sorting is in ascending order of key.
pub proof fn lemma_sort_ascending<E>(s: Seq<E>, key: spec_fn(E) -> int)
    ensures
        ascending(stable_sort(s, key), key),
    decreases s.len(),
{
    if s.len() > 0 {
        lemma_sort_ascending(s.drop_last(), key);
        let t = stable_sort(s.drop_last(), key);
        let e = s.last();
        let p = insert_point(t, key, key(e), 0);
        lemma_first_index(t, is_above(key, key(e)), 0);
        let out = t.insert(p, e);
        assert forall|i: int, j: int| 0 <= i < j < out.len() implies key(out[i]) <= key(
            out[j],
        ) by {
            if j < p {
                assert(out[i] == t[i] && out[j] == t[j]);
            } else if j == p {
                assert(out[i] == t[i]);
            } else if i < p {
                assert(out[i] == t[i] && out[j] == t[j - 1]);
                if p < j - 1 {
                    assert(key(t[p]) <= key(t[j - 1]));
                }
            } else if i == p {
                assert(out[j] == t[j - 1]);
                if p < j - 1 {
                    assert(key(t[p]) <= key(t[j - 1]));
                }
            } else {
                assert(out[i] == t[i - 1] && out[j] == t[j - 1]);
            }
        }
    }
}

proof fn lemma_of_key_none<E>(s: Seq<E>, key: spec_fn(E) -> int, k: int)
    requires
        forall|i: int| 0 <= i < s.len() ==> key(s[i]) != k,
    ensures
        of_key(s, key, k) =~= Seq::<E>::empty(),
    decreases s.len(),
{
    if s.len() > 0 {
        lemma_of_key_none(s.drop_last(), key, k);
    }
}

proof fn lemma_of_key_concat<E>(a: Seq<E>, b: Seq<E>, key: spec_fn(E) -> int, k: int)
    ensures
        of_key(a + b, key, k) =~= of_key(a, key, k) + of_key(b, key, k),
    decreases b.len(),
{
    if b.len() == 0 {
        assert(a + b =~= a);
    } else {
        assert((a + b).drop_last() =~= a + b.drop_last());
        lemma_of_key_concat(a, b.drop_last(), key, k);
    }
}

proof fn lemma_of_key_insert<E>(t: Seq<E>, key: spec_fn(E) -> int, e: E, k: int)
    requires
        ascending(t, key),
    ensures
        of_key(insert_sorted(t, key, e), key, k) =~= of_key(t.push(e), key, k),
{
    let p = insert_point(t, key, key(e), 0);
    lemma_first_index(t, is_above(key, key(e)), 0);
    let head = t.take(p);
    let tail = t.skip(p);
    let one = seq![e];
    assert(t.insert(p, e) =~= head + one + tail);
    assert(t =~= head + tail);
    assert(t.push(e) =~= t + one);
    lemma_of_key_concat(head + one, tail, key, k);
    lemma_of_key_concat(head, one, key, k);
    lemma_of_key_concat(head, tail, key, k);
    lemma_of_key_concat(t, one, key, k);
    assert(one.last() == e);
    assert(one.drop_last() =~= Seq::<E>::empty());
    assert(of_key(one.drop_last(), key, k) =~= Seq::<E>::empty());
    if k == key(e) {
        assert(of_key(one, key, k) =~= one);
        assert forall|i: int| 0 <= i < tail.len() implies key(tail[i]) != k by {
            assert(tail[i] == t[p + i]);
            if i > 0 {
                assert(key(t[p]) <= key(t[p + i]));
            }
        }
        lemma_of_key_none(tail, key, k);
    } else {
        assert(of_key(one, key, k) =~= Seq::<E>::empty());
    }
}

/// Sorting is stable: the items of any one key come out in the order in
/// which they went in. (So what comes out holds each item as often as what
/// went in.)
pub proof fn lemma_sort_stable<E>(s: Seq<E>, key: spec_fn(E) -> int, k: int)
    ensures
        of_key(stable_sort(s, key), key, k) == of_key(s, key, k),
    decreases s.len(),
{
    if s.len() > 0 {
        let t = stable_sort(s.drop_last(), key);
        lemma_sort_stable(s.drop_last(), key, k);
        lemma_sort_ascending(s.drop_last(), key);
        lemma_of_key_insert(t, key, s.last(), k);
        assert(t.push(s.last()).drop_last() =~= t);
    }
}

/// A sequence in ascending order is its own sorting.
pub proof fn lemma_sort_of_ascending<E>(s: Seq<E>, key: spec_fn(E) -> int)
    requires
        ascending(s, key),
    ensures
        stable_sort(s, key) == s,
    decreases s.len(),
{
    if s.len() > 0 {
        let init = s.drop_last();
        assert(ascending(init, key)) by {
            assert forall|i: int, j: int| 0 <= i < j < init.len() implies key(init[i]) <= key(
                init[j],
            ) by {
                assert(init[i] == s[i] && init[j] == s[j]);
            }
        }
        lemma_sort_of_ascending(init, key);
        lemma_first_index(init, is_above(key, key(s.last())), 0);
        let p = insert_point(init, key, key(s.last()), 0);
        if p < init.len() {
            assert(init[p] == s[p]);
            assert(key(s[p]) <= key(s[s.len() - 1]));
        }
        assert(init.insert(p, s.last()) =~= s);
    }
}


/// Sorting hands out exactly the items that went in: each item of what
/// comes out is one of `s`, and each item of `s` comes out.
pub proof fn lemma_sort_keeps_items<E>(s: Seq<E>, key: spec_fn(E) -> int)
    ensures
        forall|i: int|
            0 <= i < stable_sort(s, key).len() ==> s.contains(#[trigger] stable_sort(s, key)[i]),
        forall|i: int| 0 <= i < s.len() ==> stable_sort(s, key).contains(#[trigger] s[i]),
    decreases s.len(),
{
    if s.len() > 0 {
        let init = s.drop_last();
        lemma_sort_keeps_items(init, key);
        let t = stable_sort(init, key);
        let e = s.last();
        let p = insert_point(t, key, key(e), 0);
        lemma_first_index(t, is_above(key, key(e)), 0);
        let out = t.insert(p, e);
        assert forall|i: int| 0 <= i < out.len() implies s.contains(#[trigger] out[i]) by {
            if i == p {
                assert(s[s.len() - 1] == e);
            } else {
                let k = if i < p {
                    i
                } else {
                    i - 1
                };
                assert(out[i] == t[k]);
                assert(init.contains(t[k]));
                let j = choose|j: int| 0 <= j < init.len() && init[j] == t[k];
                assert(s[j] == t[k]);
            }
        }
        assert forall|i: int| 0 <= i < s.len() implies out.contains(#[trigger] s[i]) by {
            if i == s.len() - 1 {
                assert(out[p] == e);
            } else {
                assert(init[i] == s[i]);
                assert(t.contains(init[i]));
                let j = choose|j: int| 0 <= j < t.len() && t[j] == init[i];
                if j < p {
                    assert(out[j] == t[j]);
                } else {
                    assert(out[j + 1] == t[j]);
                }
            }
        }
    }
}

} // verus!
