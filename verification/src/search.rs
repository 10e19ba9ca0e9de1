//! Finding the first item of a sequence that is wanted.

use vstd::prelude::*;

verus! {

/// The place of the first item of `s` that is wanted, looking from `from`
/// on; the length of `s` where none is.
pub open spec fn first_index<E>(s: Seq<E>, wanted: spec_fn(E) -> bool, from: int) -> int
    decreases s.len() - from,
{
    if from < 0 || from >= s.len() {
        s.len() as int
    } else if wanted(s[from]) {
        from
    } else {
        first_index(s, wanted, from + 1)
    }
}

/// What is found is the first: no item before it is wanted, and it is,
/// unless the search has come to the end.
pub proof fn lemma_first_index<E>(s: Seq<E>, wanted: spec_fn(E) -> bool, from: int)
    requires
        0 <= from <= s.len(),
    ensures
        from <= first_index(s, wanted, from) <= s.len(),
        forall|i: int| from <= i < first_index(s, wanted, from) ==> !wanted(#[trigger] s[i]),
        first_index(s, wanted, from) < s.len() ==> wanted(s[first_index(s, wanted, from)]),
    decreases s.len() - from,
{
    if from < s.len() && !wanted(s[from]) {
        lemma_first_index(s, wanted, from + 1);
    }
}

/// Where no item from `from` up to `k` is wanted, and the one at `k` is,
/// or `k` is the end, the search from `from` arrives at `k`.
pub proof fn lemma_first_index_at<E>(s: Seq<E>, wanted: spec_fn(E) -> bool, from: int, k: int)
    requires
        0 <= from <= k <= s.len(),
        forall|i: int| from <= i < k ==> !wanted(#[trigger] s[i]),
        k < s.len() ==> wanted(s[k]),
    ensures
        first_index(s, wanted, from) == k,
    decreases k - from,
{
    if from < k {
        lemma_first_index_at(s, wanted, from + 1, k);
    }
}

} // verus!
