//! The pools of numbers still to be drawn: fixed rows of slots, each holding a
//! number until it is drawn and empty afterwards.

use vstd::multiset::Multiset;
use vstd::prelude::*;

verus! {

broadcast use vstd::multiset::group_multiset_axioms;

/// The number of slots that still hold a number.
pub open spec fn occupied(slots: Seq<Option<u32>>) -> nat
    decreases slots.len(),
{
    if slots.len() == 0 {
        0
    } else {
        occupied(slots.drop_last()) + if slots.last() is Some {
            1nat
        } else {
            0nat
        }
    }
}

/// The numbers that the slots still hold, as a multiset.
pub open spec fn remaining(slots: Seq<Option<u32>>) -> Multiset<u32>
    decreases slots.len(),
{
    if slots.len() == 0 {
        Multiset::empty()
    } else {
        match slots.last() {
            Some(v) => remaining(slots.drop_last()).insert(v),
            None => remaining(slots.drop_last()),
        }
    }
}

/// Some slot still holds a number.
pub open spec fn any_occupied(slots: Seq<Option<u32>>) -> bool {
    exists|i: int| 0 <= i < slots.len() && (#[trigger] slots[i]) is Some
}

/// The slots filled with the given numbers, in order.
pub open spec fn filled_with(values: Seq<u32>) -> Seq<Option<u32>> {
    values.map_values(|v: u32| Some(v))
}

/// Counting one slot more adds one exactly when that slot is occupied.
pub proof fn lemma_occupied_step(slots: Seq<Option<u32>>, i: int)
    requires
        0 <= i < slots.len(),
    ensures
        occupied(slots.take(i + 1)) == occupied(slots.take(i)) + if slots[i] is Some {
            1nat
        } else {
            0nat
        },
{
    assert(slots.take(i + 1).drop_last() =~= slots.take(i));
}

/// There are never more occupied slots than slots, and some slot is occupied
/// exactly when the count is positive.
pub proof fn lemma_occupied_bounds(slots: Seq<Option<u32>>)
    ensures
        occupied(slots) <= slots.len(),
        occupied(slots) > 0 <==> any_occupied(slots),
        occupied(slots) == slots.len() <==> (forall|i: int|
            0 <= i < slots.len() ==> (#[trigger] slots[i]) is Some),
        occupied(slots) == remaining(slots).len(),
    decreases slots.len(),
{
    if slots.len() > 0 {
        let rest = slots.drop_last();
        lemma_occupied_bounds(rest);
        if any_occupied(slots) && !(slots.last() is Some) {
            let i = choose|i: int| 0 <= i < slots.len() && (#[trigger] slots[i]) is Some;
            assert(rest[i] is Some);
        }
        if occupied(slots) == slots.len() {
            assert forall|i: int| 0 <= i < slots.len() implies (#[trigger] slots[i]) is Some by {
                if i < rest.len() {
                    assert(rest[i] is Some);
                }
            }
        }
        if forall|i: int| 0 <= i < slots.len() ==> (#[trigger] slots[i]) is Some {
            assert forall|i: int| 0 <= i < rest.len() implies (#[trigger] rest[i]) is Some by {
                assert(slots[i] is Some);
            }
            assert(slots[slots.len() - 1] is Some);
        }
        if occupied(rest) > 0 {
            let i = choose|i: int| 0 <= i < rest.len() && (#[trigger] rest[i]) is Some;
            assert(slots[i] is Some);
        }
    }
}

/// Emptying an occupied slot takes its number out of what remains, and one from
/// the count.
pub proof fn lemma_empty_slot(slots: Seq<Option<u32>>, i: int)
    requires
        0 <= i < slots.len(),
        slots[i] is Some,
    ensures
        occupied(slots.update(i, None)) + 1 == occupied(slots),
        remaining(slots.update(i, None)).insert(slots[i]->0) == remaining(slots),
    decreases slots.len(),
{
    let after = slots.update(i, None);
    if i == slots.len() - 1 {
        assert(after.drop_last() =~= slots.drop_last());
    } else {
        assert(after.drop_last() =~= slots.drop_last().update(i, None));
        lemma_empty_slot(slots.drop_last(), i);
        assert(after.last() == slots.last());
    }
}

/// Slots filled with `values` hold exactly those values.
pub proof fn lemma_filled_with(values: Seq<u32>)
    ensures
        remaining(filled_with(values)) == values.to_multiset(),
        occupied(filled_with(values)) == values.len(),
    decreases values.len(),
{
    broadcast use vstd::seq_lib::group_to_multiset_ensures;

    if values.len() > 0 {
        let rest = values.drop_last();
        lemma_filled_with(rest);
        assert(filled_with(values).drop_last() =~= filled_with(rest));
        assert(rest.push(values.last()) =~= values);
    } else {
        assert(values.to_multiset() =~= Multiset::empty());
    }
}

/// Whether any slot still holds a number.
pub fn has_any(slots: &[Option<u32>]) -> (found: bool)
    ensures
        found == any_occupied(slots@),
        found == (occupied(slots@) > 0),
{
    proof {
        lemma_occupied_bounds(slots@);
    }
    let mut i: usize = 0;
    while i < slots.len()
        invariant
            i <= slots.len(),
            forall|j: int| 0 <= j < i ==> (#[trigger] slots@[j]) is None,
        decreases slots.len() - i,
    {
        if slots[i].is_some() {
            proof {
                lemma_occupied_bounds(slots@);
            }
            return true;
        }
        i = i + 1;
    }
    false
}

/// The number of slots that still hold a number.
pub fn count_occupied(slots: &[Option<u32>]) -> (count: usize)
    ensures
        count == occupied(slots@),
{
    let mut count: usize = 0;
    let mut i: usize = 0;
    while i < slots.len()
        invariant
            i <= slots.len(),
            count == occupied(slots@.take(i as int)),
            count <= i,
        decreases slots.len() - i,
    {
        proof {
            lemma_occupied_step(slots@, i as int);
        }
        if slots[i].is_some() {
            count = count + 1;
        }
        i = i + 1;
    }
    assert(slots@.take(slots.len() as int) =~= slots@);
    count
}

/// The slot of the occupied slot of rank `rank` (counting from zero, left to
/// right), if there are that many.
pub fn nth_occupied_slot(slots: &[Option<u32>], rank: usize) -> (slot: Option<usize>)
    ensures
        slot is Some <==> rank < occupied(slots@),
        slot matches Some(i) ==> i < slots.len() && slots@[i as int] is Some && occupied(
            slots@.take(i as int),
        ) == rank,
{
    let mut seen: usize = 0;
    let mut i: usize = 0;
    while i < slots.len()
        invariant
            i <= slots.len(),
            seen == occupied(slots@.take(i as int)),
            seen <= rank,
            seen <= i,
        decreases slots.len() - i,
    {
        proof {
            lemma_occupied_step(slots@, i as int);
        }
        if slots[i].is_some() {
            if seen == rank {
                proof {
                    occupied_monotone(slots@, i + 1);
                }
                return Some(i);
            }
            seen = seen + 1;
        }
        i = i + 1;
    }
    assert(slots@.take(slots.len() as int) =~= slots@);
    None
}

/// A prefix has no more occupied slots than the whole row.
proof fn occupied_monotone(slots: Seq<Option<u32>>, i: int)
    requires
        0 <= i <= slots.len(),
    ensures
        occupied(slots.take(i)) <= occupied(slots),
    decreases slots.len() - i,
{
    if i < slots.len() {
        lemma_occupied_step(slots, i);
        occupied_monotone(slots, i + 1);
    } else {
        assert(slots.take(i) =~= slots);
    }
}

} // verus!
