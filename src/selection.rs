//! The six slots of the numbers a player has picked.

use vstd::prelude::*;

verus! {

/// The index of the first empty slot, if any.
pub open spec fn first_empty(slots: Seq<Option<u32>>, i: int) -> bool {
    0 <= i < slots.len() && slots[i] is None && forall|j: int|
        0 <= j < i ==> (#[trigger] slots[j]) is Some
}

/// No slot is empty.
pub open spec fn complete(slots: Seq<Option<u32>>) -> bool {
    forall|i: int| 0 <= i < slots.len() ==> (#[trigger] slots[i]) is Some
}

/// The slots after a push of `value`: it goes to the first empty slot, and a full
/// selection stays as it is.
pub open spec fn pushed(slots: Seq<Option<u32>>, value: u32) -> Seq<Option<u32>> {
    if complete(slots) {
        slots
    } else {
        let i = choose|i: int| first_empty(slots, i);
        slots.update(i, Some(value))
    }
}

/// The first empty slot, if any.
pub fn first_empty_slot(slots: &[Option<u32>]) -> (slot: Option<usize>)
    ensures
        slot is None <==> complete(slots@),
        slot matches Some(i) ==> first_empty(slots@, i as int),
{
    let mut i: usize = 0;
    while i < slots.len()
        invariant
            i <= slots.len(),
            forall|j: int| 0 <= j < i ==> (#[trigger] slots@[j]) is Some,
        decreases slots.len() - i,
    {
        if slots[i].is_none() {
            return Some(i);
        }
        i = i + 1;
    }
    None
}

/// Whether every slot holds a number.
pub fn is_complete(slots: &[Option<u32>]) -> (done: bool)
    ensures
        done == complete(slots@),
{
    first_empty_slot(slots).is_none()
}

/// Puts `value` in the first empty slot and says whether there was one; a full
/// selection is left as it is.
pub fn push_number(slots: &mut [Option<u32>; 6], value: u32) -> (placed: bool)
    ensures
        placed == !complete(old(slots)@),
        final(slots)@ == pushed(old(slots)@, value),
{
    match first_empty_slot(slots) {
        Some(i) => {
            proof {
                let j = choose|j: int| first_empty(old(slots)@, j);
                assert(j == i) by {
                    if j < i {
                        assert(old(slots)@[j] is Some);
                    }
                    if i < j {
                        assert(old(slots)@[i as int] is Some);
                    }
                }
            }
            slots[i] = Some(value);
            true
        },
        None => false,
    }
}

} // verus!
