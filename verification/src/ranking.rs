//! Ordering bodies by their distance from a point.

use crate::entity::KinematicData;
use crate::vector::Vec2;
use vstd::prelude::*;

verus! {

/// `item` put into `sorted` behind every entry that is no farther from
/// `from` than it is.
pub open spec fn inserted(sorted: Seq<KinematicData>, item: KinematicData, from: Vec2) -> Seq<
    KinematicData,
>
    decreases sorted.len(),
{
    if sorted.len() == 0 {
        seq![item]
    } else if sorted.last().location.distance_key(from) <= item.location.distance_key(from) {
        sorted.push(item)
    } else {
        inserted(sorted.drop_last(), item, from).push(sorted.last())
    }
}

/// The first `upto` entries of `list` in ascending distance from `from`.
/// Entries at the same distance keep the order they have in `list`.
pub open spec fn ranked(list: Seq<KinematicData>, from: Vec2, upto: int) -> Seq<KinematicData>
    decreases upto,
{
    if upto <= 0 {
        Seq::empty()
    } else {
        inserted(ranked(list, from, upto - 1), list[upto - 1], from)
    }
}

/// Whether the entries of `list` stand in ascending distance from `from`.
pub open spec fn ascending(list: Seq<KinematicData>, from: Vec2) -> bool {
    forall|a: int, b: int|
        0 <= a <= b < list.len() ==> list[a].location.distance_key(from)
            <= list[b].location.distance_key(from)
}

/// Inserting keeps the order and adds exactly the item.
pub proof fn lemma_inserted(sorted: Seq<KinematicData>, item: KinematicData, from: Vec2)
    requires
        ascending(sorted, from),
    ensures
        ascending(inserted(sorted, item, from), from),
        inserted(sorted, item, from).len() == sorted.len() + 1,
        inserted(sorted, item, from).to_multiset() == sorted.to_multiset().insert(item),
    decreases sorted.len(),
{
    broadcast use vstd::seq_lib::group_to_multiset_ensures;

    let result = inserted(sorted, item, from);
    if sorted.len() == 0 {
        assert(sorted =~= Seq::empty());
        assert(result =~= Seq::<KinematicData>::empty().push(item));
    } else if sorted.last().location.distance_key(from) <= item.location.distance_key(from) {
    } else {
        let front = sorted.drop_last();
        let partial = inserted(front, item, from);
        lemma_inserted(front, item, from);
        assert(sorted =~= front.push(sorted.last()));
        assert(result.to_multiset() =~= sorted.to_multiset().insert(item));
        assert forall|a: int, b: int|
            0 <= a <= b < result.len() implies result[a].location.distance_key(from)
            <= result[b].location.distance_key(from) by {
            if b < partial.len() {
                assert(partial[a].location.distance_key(from) <= partial[b].location.distance_key(
                    from,
                ));
            } else if a < partial.len() {
                lemma_entry_of_inserted(front, item, from, a);
            }
        }
    }
}

/// Every entry of the result of an insertion is the item or an entry of
/// the sequence it was inserted into.
proof fn lemma_entry_of_inserted(
    sorted: Seq<KinematicData>,
    item: KinematicData,
    from: Vec2,
    at: int,
)
    requires
        0 <= at < inserted(sorted, item, from).len(),
    ensures
        inserted(sorted, item, from)[at] == item || exists|k: int|
            0 <= k < sorted.len() && sorted[k] == inserted(sorted, item, from)[at],
    decreases sorted.len(),
{
    if sorted.len() == 0 {
    } else if sorted.last().location.distance_key(from) <= item.location.distance_key(from) {
        if at < sorted.len() {
            assert(sorted[at] == inserted(sorted, item, from)[at]);
        }
    } else {
        let front = sorted.drop_last();
        let partial = inserted(front, item, from);
        if at < partial.len() {
            lemma_entry_of_inserted(front, item, from, at);
            if partial[at] != item {
                let k = choose|k: int| 0 <= k < front.len() && front[k] == partial[at];
                assert(sorted[k] == inserted(sorted, item, from)[at]);
            }
        } else {
            assert(sorted[sorted.len() - 1] == inserted(sorted, item, from)[at]);
        }
    }
}

/// Ranking sorts: the result stands in ascending distance and holds
/// exactly the entries that were ranked.
pub proof fn lemma_ranked(list: Seq<KinematicData>, from: Vec2, upto: int)
    requires
        0 <= upto <= list.len(),
    ensures
        ascending(ranked(list, from, upto), from),
        ranked(list, from, upto).len() == upto,
        ranked(list, from, upto).to_multiset() == list.take(upto).to_multiset(),
    decreases upto,
{
    broadcast use vstd::seq_lib::group_to_multiset_ensures;

    if upto <= 0 {
        assert(list.take(upto) =~= Seq::empty());
    } else {
        lemma_ranked(list, from, upto - 1);
        lemma_inserted(ranked(list, from, upto - 1), list[upto - 1], from);
        assert(list.take(upto) =~= list.take(upto - 1).push(list[upto - 1]));
    }
}

/// Puts `item` into `sorted` behind every entry that is no farther from
/// `from` than it is.
fn insert(sorted: &mut Vec<KinematicData>, item: KinematicData, from: Vec2)
    ensures
        final(sorted)@ == inserted(old(sorted)@, item, from),
{
    let key: u128 = item.location.distance_key(from);
    let mut at: usize = sorted.len();
    proof {
        assert(sorted@.take(at as int) =~= sorted@);
        assert(inserted(sorted@, item, from) + sorted@.skip(at as int) =~= inserted(
            sorted@,
            item,
            from,
        ));
    }
    while at > 0 && sorted[at - 1].location.distance_key(from) > key
        invariant
            at <= sorted@.len(),
            sorted@ == old(sorted)@,
            key == item.location.distance_key(from),
            inserted(sorted@, item, from) == inserted(sorted@.take(at as int), item, from)
                + sorted@.skip(at as int),
        decreases at,
    {
        proof {
            let front = sorted@.take(at as int);
            assert(front.drop_last() =~= sorted@.take(at - 1));
            assert(front.last() == sorted@[at - 1]);
            assert(inserted(front, item, from) == inserted(sorted@.take(at - 1), item, from).push(
                sorted@[at - 1],
            ));
            assert(inserted(sorted@.take(at - 1), item, from).push(sorted@[at - 1]) + sorted@.skip(
                at as int,
            ) =~= inserted(sorted@.take(at - 1), item, from) + sorted@.skip(at - 1));
        }
        at -= 1;
    }
    proof {
        let front = sorted@.take(at as int);
        if at > 0 {
            assert(front.last() == sorted@[at - 1]);
        }
        assert(inserted(front, item, from) =~= front.push(item));
        assert(front.push(item) + sorted@.skip(at as int) =~= sorted@.insert(at as int, item));
    }
    sorted.insert(at, item);
}

/// The entries of `list` in ascending distance from `from`; entries at
/// the same distance keep the order they have in `list`.
pub fn rank(list: &Vec<KinematicData>, from: Vec2) -> (r: Vec<KinematicData>)
    ensures
        r@ == ranked(list@, from, list@.len() as int),
{
    let mut sorted: Vec<KinematicData> = Vec::new();
    let mut k: usize = 0;
    while k < list.len()
        invariant
            k <= list@.len(),
            sorted@ == ranked(list@, from, k as int),
        decreases list@.len() - k,
    {
        insert(&mut sorted, list[k], from);
        k += 1;
    }
    sorted
}

} // verus!
