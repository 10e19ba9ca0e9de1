//! Gathering what the resource records of an answer say, name by name.

use vstd::prelude::*;
use crate::records::views;
use crate::search::{first_index, lemma_first_index, lemma_first_index_at};

verus! {

/// The smaller of two TTLs.
pub open spec fn min_u32(a: u32, b: u32) -> u32 {
    if a <= b {
        a
    } else {
        b
    }
}

/// A record that gathers what the resource records under one name say:
/// their items in their order, and the smallest of their TTLs.
pub trait Gathers<Name: View, Item: View>: View + Sized {
    /// The name that the record stands under.
    spec fn name(view: Self::V) -> Name::V;

    /// What has been gathered.
    spec fn items(view: Self::V) -> Seq<Item::V>;

    spec fn ttl(view: Self::V) -> u32;

    /// The record of a name that has one item.
    spec fn fresh(name: Name::V, item: Item::V, ttl: u32) -> Self::V;

    /// The record with one more item.
    spec fn grown(view: Self::V, item: Item::V, ttl: u32) -> Self::V;

    proof fn lemma_fresh(name: Name::V, item: Item::V, ttl: u32)
        ensures
            Self::name(Self::fresh(name, item, ttl)) == name,
            Self::items(Self::fresh(name, item, ttl)) == seq![item],
            Self::ttl(Self::fresh(name, item, ttl)) == ttl,
    ;

    proof fn lemma_grown(view: Self::V, item: Item::V, ttl: u32)
        ensures
            Self::name(Self::grown(view, item, ttl)) == Self::name(view),
            Self::items(Self::grown(view, item, ttl)) == Self::items(view).push(item),
            Self::ttl(Self::grown(view, item, ttl)) == min_u32(Self::ttl(view), ttl),
    ;

    fn is_under(&self, name: &Name) -> (r: bool)
        ensures
            r == (Self::name(self@) == name@),
    ;

    fn start(name: Name, item: Item, ttl: u32) -> (r: Self)
        ensures
            r@ == Self::fresh(name@, item@, ttl),
    ;

    fn grow(&mut self, item: Item, ttl: u32)
        ensures
            final(self)@ == Self::grown(old(self)@, item@, ttl),
    ;
}

/// What tells the records under `name` from the others.
pub open spec fn under<G: Gathers<Name, Item>, Name: View, Item: View>(name: Name::V) -> spec_fn(
    G::V,
) -> bool {
    |view: G::V| G::name(view) == name
}

/// The record under `name` among `records`: the first one, if there is
/// one.
pub open spec fn found<G: Gathers<Name, Item>, Name: View, Item: View>(
    records: Seq<G::V>,
    name: Name::V,
) -> Option<G::V> {
    let i = first_index(records, under::<G, Name, Item>(name), 0);
    if 0 <= i < records.len() {
        Some(records[i])
    } else {
        None
    }
}

/// No two of `records` stand under the same name: they can be searched by
/// name as a map can.
pub open spec fn distinct<G: Gathers<Name, Item>, Name: View, Item: View>(
    records: Seq<G::V>,
) -> bool {
    forall|i: int, j: int|
        0 <= i < j < records.len() ==> G::name(#[trigger] records[i]) != G::name(
            #[trigger] records[j],
        )
}

/// `records` with one more item under `name`: with the record of `name`
/// longer by that item and its TTL no more than `ttl`, or with a new
/// record behind the others for a name that had none.
pub open spec fn gathered<G: Gathers<Name, Item>, Name: View, Item: View>(
    records: Seq<G::V>,
    name: Name::V,
    item: Item::V,
    ttl: u32,
) -> Seq<G::V> {
    let i = first_index(records, under::<G, Name, Item>(name), 0);
    if 0 <= i < records.len() {
        records.update(i, G::grown(records[i], item, ttl))
    } else {
        records.push(G::fresh(name, item, ttl))
    }
}

/// The place of the first of `records` under `name`; their number where
/// there is none.
pub fn find<G: Gathers<Name, Item>, Name: View, Item: View>(records: &Vec<G>, name: &Name) -> (r:
    usize)
    ensures
        r == first_index(views(records@), under::<G, Name, Item>(name@), 0),
        r <= records.len(),
        r < records.len() ==> G::name(records@[r as int]@) == name@,
{
    let ghost all = views(records@);
    let ghost wanted = under::<G, Name, Item>(name@);
    let mut i: usize = 0;
    while i < records.len()
        invariant
            i <= records.len(),
            all == views(records@),
            wanted == under::<G, Name, Item>(name@),
            first_index(all, wanted, 0) == first_index(all, wanted, i as int),
        decreases records.len() - i,
    {
        assert(all[i as int] == records@[i as int]@);
        if records[i].is_under(name) {
            return i;
        }
        i += 1;
    }
    i
}

/// Puts one more item under `name`.
pub fn gather<G: Gathers<Name, Item>, Name: View, Item: View>(
    records: &mut Vec<G>,
    name: Name,
    item: Item,
    ttl: u32,
)
    ensures
        views(final(records)@) == gathered::<G, Name, Item>(views(old(records)@), name@, item@, ttl),
{
    let ghost before = views(records@);
    let i = find::<G, Name, Item>(records, &name);
    if i < records.len() {
        records[i].grow(item, ttl);
        assert(views(records@) =~= before.update(i as int, G::grown(before[i as int], item@, ttl)));
    } else {
        let record = G::start(name, item, ttl);
        records.push(record);
        assert(views(records@) =~= before.push(G::fresh(name@, item@, ttl)));
    }
}

/// Gathering keeps each name under one record.
pub proof fn lemma_gathered_distinct<G: Gathers<Name, Item>, Name: View, Item: View>(
    records: Seq<G::V>,
    name: Name::V,
    item: Item::V,
    ttl: u32,
)
    requires
        distinct::<G, Name, Item>(records),
    ensures
        distinct::<G, Name, Item>(gathered::<G, Name, Item>(records, name, item, ttl)),
{
    let wanted = under::<G, Name, Item>(name);
    lemma_first_index(records, wanted, 0);
    let i = first_index(records, wanted, 0);
    let now = gathered::<G, Name, Item>(records, name, item, ttl);
    if i < records.len() {
        G::lemma_grown(records[i], item, ttl);
        assert forall|a: int, b: int| 0 <= a < b < now.len() implies G::name(#[trigger] now[a])
            != G::name(#[trigger] now[b]) by {
            assert(G::name(now[a]) == G::name(records[a]));
            assert(G::name(now[b]) == G::name(records[b]));
        }
    } else {
        G::lemma_fresh(name, item, ttl);
        assert forall|a: int, b: int| 0 <= a < b < now.len() implies G::name(#[trigger] now[a])
            != G::name(#[trigger] now[b]) by {
            assert(now[a] == records[a]);
            assert(!wanted(records[a]));
            if b < records.len() {
                assert(now[b] == records[b]);
            }
        }
    }
}

/// What stands under a name after one more item has been gathered: under
/// the name of the item, what stood there before and the item, with the
/// smaller TTL; under any other name, what stood there before.
pub proof fn lemma_gathered_found<G: Gathers<Name, Item>, Name: View, Item: View>(
    records: Seq<G::V>,
    name: Name::V,
    item: Item::V,
    ttl: u32,
    other: Name::V,
)
    ensures
        other != name ==> found::<G, Name, Item>(
            gathered::<G, Name, Item>(records, name, item, ttl),
            other,
        ) == found::<G, Name, Item>(records, other),
        match found::<G, Name, Item>(gathered::<G, Name, Item>(records, name, item, ttl), name) {
            Some(now) => {
                &&& G::name(now) == name
                &&& match found::<G, Name, Item>(records, name) {
                    Some(before) => G::items(now) == G::items(before).push(item) && G::ttl(now)
                        == min_u32(G::ttl(before), ttl),
                    None => G::items(now) == seq![item] && G::ttl(now) == ttl,
                }
            },
            None => false,
        },
{
    let wanted = under::<G, Name, Item>(name);
    let sought = under::<G, Name, Item>(other);
    lemma_first_index(records, wanted, 0);
    lemma_first_index(records, sought, 0);
    let i = first_index(records, wanted, 0);
    let k = first_index(records, sought, 0);
    let now = gathered::<G, Name, Item>(records, name, item, ttl);
    if i < records.len() {
        G::lemma_grown(records[i], item, ttl);
        assert forall|j: int| 0 <= j < now.len() implies G::name(#[trigger] now[j]) == G::name(
            records[j],
        ) by {}
        lemma_first_index_at(now, wanted, 0, i);
        if other != name {
            assert forall|j: int| 0 <= j < k implies !sought(#[trigger] now[j]) by {
                assert(!sought(records[j]));
            }
            if k < records.len() {
                assert(sought(now[k]));
                assert(now[k] == records[k]);
            }
            lemma_first_index_at(now, sought, 0, k);
        }
    } else {
        G::lemma_fresh(name, item, ttl);
        assert forall|j: int| 0 <= j < records.len() implies !wanted(#[trigger] now[j]) by {
            assert(now[j] == records[j]);
            assert(!wanted(records[j]));
        }
        lemma_first_index_at(now, wanted, 0, records.len() as int);
        if other != name {
            assert forall|j: int| 0 <= j < k implies !sought(#[trigger] now[j]) by {
                assert(now[j] == records[j]);
                assert(!sought(records[j]));
            }
            if k < records.len() {
                assert(now[k] == records[k]);
                lemma_first_index_at(now, sought, 0, k);
            } else {
                lemma_first_index_at(now, sought, 0, now.len() as int);
            }
        }
    }
}

/// What one resource record adds to what is gathered: an item under a
/// name, with the TTL of the record.
pub struct Picked<N, I> {
    pub name: N,
    pub item: I,
    pub ttl: u32,
}

/// What the first `n` of `records` come to, gathered name by name: one
/// record for each name under which something is picked, in the order in
/// which the names first occur.
pub open spec fn gathered_all<G: Gathers<Name, Item>, Name: View, Item: View, R>(
    records: Seq<R>,
    pick: spec_fn(R) -> Option<Picked<Name::V, Item::V>>,
    n: int,
) -> Seq<G::V>
    decreases n,
{
    if n <= 0 || n > records.len() {
        Seq::empty()
    } else {
        let before = gathered_all::<G, Name, Item, R>(records, pick, n - 1);
        match pick(records[n - 1]) {
            Some(picked) => gathered::<G, Name, Item>(
                before,
                picked.name,
                picked.item,
                picked.ttl,
            ),
            None => before,
        }
    }
}

/// What is picked under `name` from the first `n` of `records`, in their
/// order.
pub open spec fn picked_under<Name: View, Item: View, R>(
    records: Seq<R>,
    pick: spec_fn(R) -> Option<Picked<Name::V, Item::V>>,
    name: Name::V,
    n: int,
) -> Seq<Picked<Name::V, Item::V>>
    decreases n,
{
    if n <= 0 || n > records.len() {
        Seq::empty()
    } else {
        let before = picked_under::<Name, Item, R>(records, pick, name, n - 1);
        match pick(records[n - 1]) {
            Some(picked) => if picked.name == name {
                before.push(picked)
            } else {
                before
            },
            None => before,
        }
    }
}

/// The items of what is picked, in their order.
pub open spec fn items_of<N, I>(picked: Seq<Picked<N, I>>) -> Seq<I> {
    Seq::new(picked.len(), |i: int| picked[i].item)
}

/// The smallest TTL of what is picked.
pub open spec fn least_ttl<N, I>(picked: Seq<Picked<N, I>>) -> u32
    decreases picked.len(),
{
    if picked.len() == 0 {
        u32::MAX
    } else {
        min_u32(least_ttl(picked.drop_last()), picked.last().ttl)
    }
}

/// What is gathered holds each name once.
pub proof fn lemma_gathered_all_distinct<G: Gathers<Name, Item>, Name: View, Item: View, R>(
    records: Seq<R>,
    pick: spec_fn(R) -> Option<Picked<Name::V, Item::V>>,
    n: int,
)
    ensures
        distinct::<G, Name, Item>(gathered_all::<G, Name, Item, R>(records, pick, n)),
    decreases n,
{
    if 0 < n <= records.len() {
        lemma_gathered_all_distinct::<G, Name, Item, R>(records, pick, n - 1);
        let before = gathered_all::<G, Name, Item, R>(records, pick, n - 1);
        match pick(records[n - 1]) {
            Some(picked) => {
                lemma_gathered_distinct::<G, Name, Item>(
                    before,
                    picked.name,
                    picked.item,
                    picked.ttl,
                );
            },
            None => {},
        }
    }
}

/// What is gathered is a map from names to records: under a name stands
/// what is picked under that name, the items in their order and the
/// smallest of the TTLs; a name under which nothing is picked has no
/// record.
pub proof fn lemma_gathered_all_by_name<G: Gathers<Name, Item>, Name: View, Item: View, R>(
    records: Seq<R>,
    pick: spec_fn(R) -> Option<Picked<Name::V, Item::V>>,
    name: Name::V,
    n: int,
)
    requires
        0 <= n <= records.len(),
    ensures
        match found::<G, Name, Item>(gathered_all::<G, Name, Item, R>(records, pick, n), name) {
            Some(record) => {
                let picked = picked_under::<Name, Item, R>(records, pick, name, n);
                &&& picked.len() > 0
                &&& G::name(record) == name
                &&& G::items(record) == items_of(picked)
                &&& G::ttl(record) == least_ttl(picked)
            },
            None => picked_under::<Name, Item, R>(records, pick, name, n).len() == 0,
        },
    decreases n,
{
    if n > 0 {
        lemma_gathered_all_by_name::<G, Name, Item, R>(records, pick, name, n - 1);
        let before = gathered_all::<G, Name, Item, R>(records, pick, n - 1);
        let under_name = picked_under::<Name, Item, R>(records, pick, name, n - 1);
        match pick(records[n - 1]) {
            Some(picked) => {
                lemma_gathered_found::<G, Name, Item>(
                    before,
                    picked.name,
                    picked.item,
                    picked.ttl,
                    name,
                );
                if picked.name == name {
                    let longer = under_name.push(picked);
                    assert(longer.last() == picked);
                    assert(longer.drop_last() =~= under_name);
                    assert(least_ttl(longer) == min_u32(least_ttl(under_name), picked.ttl));
                    assert(items_of(longer) =~= items_of(under_name).push(picked.item));
                    if under_name.len() == 0 {
                        assert(items_of(under_name) =~= Seq::<Item::V>::empty());
                        assert(seq![picked.item] =~= Seq::<Item::V>::empty().push(picked.item));
                    }
                }
            },
            None => {},
        }
    } else {
        lemma_first_index(Seq::<G::V>::empty(), under::<G, Name, Item>(name), 0);
    }
}

} // verus!
