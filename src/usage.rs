//! Checking that a solution uses only the numbers that were dealt, each at most
//! as many times as it was dealt.

use std::collections::HashMap;
use vstd::multiset::Multiset;
use vstd::prelude::*;

use crate::selection::complete;

verus! {

broadcast use {
    vstd::std_specs::hash::group_hash_axioms,
    vstd::multiset::group_multiset_axioms,
    vstd::seq_lib::group_to_multiset_ensures,
};

/// The numbers held by a filled selection, slot by slot.
pub open spec fn slot_values(slots: Seq<Option<u32>>) -> Seq<u32> {
    slots.map_values(|o: Option<u32>| o->0)
}

/// `used` takes each number no more often than `dealt` holds it.
pub open spec fn uses_only(used: Seq<u32>, dealt: Seq<u32>) -> bool {
    used.to_multiset().subset_of(dealt.to_multiset())
}

/// The counts of a frequency table: the entries are the positive counts.
spec fn counts_match(table: Map<u32, u32>, counts: Multiset<u32>) -> bool {
    forall|v: u32|
        #![trigger table.contains_key(v)]
        #![trigger counts.count(v)]
        (table.contains_key(v) ==> table[v] > 0 && table[v] as nat == counts.count(v)) && (
        !table.contains_key(v) ==> counts.count(v) == 0)
}

/// The count of a value in a prefix is at most its count in the whole sequence.
proof fn lemma_prefix_count(s: Seq<u32>, i: int, v: u32)
    requires
        0 <= i <= s.len(),
    ensures
        s.take(i).to_multiset().count(v) <= s.to_multiset().count(v),
    decreases s.len() - i,
{
    if i < s.len() {
        lemma_prefix_count(s, i + 1, v);
        assert(s.take(i + 1) =~= s.take(i).push(s[i]));
    } else {
        assert(s.take(i) =~= s);
    }
}

/// Whether the literals of a solution can be taken from the dealt numbers: a
/// frequency table of the six selected values is built, and each literal in turn
/// takes one of its value away; a literal whose value is no longer in the table
/// fails the check.
pub fn check_solution_numbers(solution_numbers: &[u32], selected_numbers: &[Option<u32>; 6]) -> (valid: bool)
    requires
        complete(selected_numbers@),
    ensures
        valid == uses_only(solution_numbers@, slot_values(selected_numbers@)),
{
    let ghost dealt = slot_values(selected_numbers@);
    let mut unused_numbers: HashMap<u32, u32> = HashMap::new();
    let mut k: usize = 0;
    while k < 6
        invariant
            k <= 6,
            dealt == slot_values(selected_numbers@),
            complete(selected_numbers@),
            counts_match(unused_numbers@, dealt.take(k as int).to_multiset()),
            forall|v: u32| #[trigger] unused_numbers@.contains_key(v) ==> unused_numbers@[v] <= k,
        decreases 6 - k,
    {
        let value = match selected_numbers[k] {
            Some(v) => v,
            None => 0,
        };
        assert(selected_numbers@[k as int] is Some);
        assert(dealt.take(k + 1) =~= dealt.take(k as int).push(value));
        let freq = match unused_numbers.get(&value) {
            Some(f) => *f,
            None => 0,
        };
        unused_numbers.insert(value, freq + 1);
        k = k + 1;
    }
    assert(dealt.take(6) =~= dealt);
    let ghost used = solution_numbers@;
    let mut i: usize = 0;
    while i < solution_numbers.len()
        invariant
            i <= solution_numbers.len(),
            used == solution_numbers@,
            dealt == slot_values(selected_numbers@),
            used.take(i as int).to_multiset().subset_of(dealt.to_multiset()),
            counts_match(
                unused_numbers@,
                dealt.to_multiset().sub(used.take(i as int).to_multiset()),
            ),
        decreases solution_numbers.len() - i,
    {
        let number = solution_numbers[i];
        assert(used.take(i + 1) =~= used.take(i as int).push(number));
        match unused_numbers.get(&number) {
            None => {
                proof {
                    let before = used.take(i as int).to_multiset();
                    assert(!unused_numbers@.contains_key(number));
                    assert(dealt.to_multiset().sub(before).count(number) == 0);
                    assert(before.count(number) <= dealt.to_multiset().count(number));
                    assert(used.take(i + 1).to_multiset().count(number) == before.count(number) + 1);
                    lemma_prefix_count(used, i + 1, number);
                    assert(used.to_multiset().count(number) > dealt.to_multiset().count(number));
                }
                return false;
            },
            Some(f) => {
                let freq = *f;
                if freq == 1 {
                    unused_numbers.remove(&number);
                } else {
                    unused_numbers.insert(number, freq - 1);
                }
            },
        }
        i = i + 1;
    }
    assert(used.take(used.len() as int) =~= used);
    true
}

} // verus!
