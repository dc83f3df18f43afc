//! Properties of whole runs of draws and picks, and of scoring.

use vstd::multiset::Multiset;
use vstd::prelude::*;

use crate::game::{drawn, passes_checks};
use crate::pool::{any_occupied, lemma_empty_slot, lemma_occupied_bounds, occupied, remaining};
use crate::scanner::{
    decimal_text, decimal_value, digit_char, digit_runs, digit_value, is_digit, run_values,
    solution_literals,
};
use crate::scoring::{distance, is_white_space, trim_start, trimmed, value_score};
use crate::selection::{complete, first_empty, pushed};

verus! {

broadcast use vstd::multiset::group_multiset_axioms;

/// A run of draws from one pool: `states[k + 1]` is what the draw that gave
/// `values[k]` left of `states[k]`.
pub open spec fn draw_run(states: Seq<Seq<Option<u32>>>, values: Seq<Option<u32>>) -> bool {
    &&& states.len() == values.len() + 1
    &&& forall|k: int|
        0 <= k < values.len() ==> drawn(states[k], states[k + 1], #[trigger] values[k])
}

/// The slots after pushing `values` in turn.
pub open spec fn pushed_all(slots: Seq<Option<u32>>, values: Seq<u32>) -> Seq<Option<u32>>
    decreases values.len(),
{
    if values.len() == 0 {
        slots
    } else {
        pushed(pushed_all(slots, values.drop_last()), values.last())
    }
}

/// What a single slot holds.
proof fn lemma_remaining_single(slot: Option<u32>)
    ensures
        remaining(seq![slot]) == match slot {
            Some(v) => Multiset::empty().insert(v),
            None => Multiset::<u32>::empty(),
        },
{
    let one = seq![slot];
    assert(one.drop_last() =~= Seq::<Option<u32>>::empty());
    assert(one.last() == slot);
    assert(remaining(Seq::<Option<u32>>::empty()) == Multiset::<u32>::empty());
}

/// A draw keeps the number of slots, and a draw that gives a number takes it out
/// of what remains.
proof fn lemma_draw_step(before: Seq<Option<u32>>, after: Seq<Option<u32>>, value: Option<u32>)
    requires
        drawn(before, after, value),
    ensures
        after.len() == before.len(),
        value is Some ==> occupied(after) + 1 == occupied(before),
        value is None ==> occupied(before) == 0,
        remaining(after).add(remaining(seq![value])) == remaining(before),
{
    lemma_occupied_bounds(before);
    lemma_remaining_single(value);
    match value {
        Some(v) => {
            let i = choose|i: int|
                0 <= i < before.len() && before[i] == Some(v) && after == before.update(i, None);
            lemma_empty_slot(before, i);
            assert(remaining(after).add(Multiset::empty().insert(v)) =~= remaining(after).insert(
                v,
            ));
        },
        None => {
            assert(remaining(after).add(Multiset::empty()) =~= remaining(after));
        },
    }
}

/// From the `k`-th state on, a run of draws from a pool with one occupied slot for
/// each draw left gives a number each time and leaves nothing.
proof fn lemma_exhaust_from(states: Seq<Seq<Option<u32>>>, values: Seq<Option<u32>>, k: int)
    requires
        draw_run(states, values),
        0 <= k <= values.len(),
        occupied(states[k]) == values.len() - k,
    ensures
        forall|j: int| k <= j < values.len() ==> (#[trigger] values[j]) is Some,
        occupied(states.last()) == 0,
    decreases values.len() - k,
{
    if k < values.len() {
        lemma_draw_step(states[k], states[k + 1], values[k]);
        lemma_exhaust_from(states, values, k + 1);
    }
}

/// Drawing from a full pool as many times as it has slots gives a number every
/// time and empties it; a draw after that gives nothing.
pub proof fn lemma_draws_exhaust_pool(states: Seq<Seq<Option<u32>>>, values: Seq<Option<u32>>)
    requires
        draw_run(states, values),
        occupied(states[0]) == states[0].len(),
        values.len() == states[0].len(),
    ensures
        forall|k: int| 0 <= k < values.len() ==> (#[trigger] values[k]) is Some,
        !any_occupied(states.last()),
        forall|after: Seq<Option<u32>>, value: Option<u32>|
            #[trigger] drawn(states.last(), after, value) ==> value is None,
{
    lemma_exhaust_from(states, values, 0);
    lemma_occupied_bounds(states.last());
}

/// What the first `k` draws gave, together with what they left, is what the pool
/// held at first.
proof fn lemma_give_upto(states: Seq<Seq<Option<u32>>>, values: Seq<Option<u32>>, k: int)
    requires
        draw_run(states, values),
        0 <= k <= values.len(),
    ensures
        remaining(states[k]).add(remaining(values.take(k))) == remaining(states[0]),
    decreases k,
{
    if k == 0 {
        assert(values.take(0) =~= Seq::<Option<u32>>::empty());
        assert(remaining(states[0]).add(Multiset::empty()) =~= remaining(states[0]));
    } else {
        let j = k - 1;
        lemma_give_upto(states, values, j);
        lemma_draw_step(states[j], states[k], values[j]);
        let one = seq![values[j]];
        lemma_remaining_single(values[j]);
        assert(values.take(k).drop_last() =~= values.take(j));
        assert(values.take(k).last() == values[j]);
        assert(remaining(values.take(k)) =~= remaining(values.take(j)).add(remaining(one)));
        assert(remaining(states[k]).add(remaining(values.take(k))) =~= remaining(states[j]).add(
            remaining(values.take(j)),
        ));
    }
}

/// Drawing from a pool until nothing is left gives each of its numbers exactly as
/// often as it held it.
pub proof fn lemma_draws_give_pool(states: Seq<Seq<Option<u32>>>, values: Seq<Option<u32>>)
    requires
        draw_run(states, values),
        !any_occupied(states.last()),
    ensures
        remaining(values) == remaining(states[0]),
{
    let n = values.len() as int;
    lemma_give_upto(states, values, n);
    assert(values.take(n) =~= values);
    lemma_occupied_bounds(states.last());
    assert(remaining(states.last()) =~= Multiset::empty());
    assert(remaining(states[n]).add(remaining(values)) =~= remaining(values));
}

/// A selection with an empty slot has a first empty slot.
proof fn lemma_first_empty_exists(slots: Seq<Option<u32>>, j: int)
    requires
        0 <= j < slots.len(),
        slots[j] is None,
    ensures
        exists|i: int| first_empty(slots, i),
    decreases j,
{
    if exists|m: int| 0 <= m < j && (#[trigger] slots[m]) is None {
        let m = choose|m: int| 0 <= m < j && (#[trigger] slots[m]) is None;
        lemma_first_empty_exists(slots, m);
    } else {
        assert(first_empty(slots, j));
    }
}

/// A selection is complete exactly when all its slots are filled, and a push
/// fills one slot more unless it is complete.
pub proof fn lemma_push_fills_one(slots: Seq<Option<u32>>, value: u32)
    ensures
        complete(slots) <==> occupied(slots) == slots.len(),
        occupied(slots) <= slots.len(),
        pushed(slots, value).len() == slots.len(),
        occupied(pushed(slots, value)) == if complete(slots) {
            occupied(slots)
        } else {
            occupied(slots) + 1
        },
{
    lemma_occupied_bounds(slots);
    if !complete(slots) {
        let j = choose|j: int| 0 <= j < slots.len() && !(#[trigger] slots[j] is Some);
        lemma_first_empty_exists(slots, j);
        let k = choose|k: int| first_empty(slots, k);
        let filled = slots.update(k, Some(value));
        lemma_empty_slot(filled, k);
        assert(filled.update(k, None) =~= slots);
    }
}

/// Pushing any number of values into an empty selection of six slots fills as
/// many slots as there were values, up to six and never more; it is complete
/// exactly when six or more were pushed.
pub proof fn lemma_selection_capacity(slots: Seq<Option<u32>>, values: Seq<u32>)
    requires
        slots.len() == 6,
        forall|i: int| 0 <= i < 6 ==> (#[trigger] slots[i]) is None,
    ensures
        occupied(pushed_all(slots, values)) == if values.len() < 6 {
            values.len()
        } else {
            6
        },
        complete(pushed_all(slots, values)) <==> values.len() >= 6,
        pushed_all(slots, values).len() == 6,
    decreases values.len(),
{
    if values.len() == 0 {
        lemma_occupied_bounds(slots);
        if occupied(slots) > 0 {
            let i = choose|i: int| 0 <= i < slots.len() && (#[trigger] slots[i]) is Some;
        }
        if complete(slots) {
            assert(slots[0] is Some);
        }
    } else {
        lemma_selection_capacity(slots, values.drop_last());
        let before = pushed_all(slots, values.drop_last());
        lemma_push_fills_one(before, values.last());
        lemma_push_fills_one(pushed(before, values.last()), values.last());
    }
}

/// Scoring measures the distance between the value and the target: never
/// negative, the same with the two exchanged, and given for every value that
/// fits in a `u32`.
pub proof fn lemma_score_is_distance(value: i64, target: u32)
    ensures
        distance(value as int, target as int) >= 0,
        distance(value as int, target as int) == distance(target as int, value as int),
        value >= target ==> distance(value as int, target as int) == value - target,
        value < target ==> distance(value as int, target as int) == target - value,
        0 <= value <= u32::MAX ==> value_score(value, target) == Some(
            distance(value as int, target as int) as u32,
        ),
{
}

/// Text made only of white space trims to nothing.
proof fn lemma_blank_trims_away(s: Seq<char>)
    requires
        forall|i: int| 0 <= i < s.len() ==> is_white_space(#[trigger] s[i]),
    ensures
        trim_start(s).len() == 0,
    decreases s.len(),
{
    if s.len() > 0 {
        assert(is_white_space(s[0]));
        let rest = s.drop_first();
        assert forall|i: int| 0 <= i < rest.len() implies is_white_space(#[trigger] rest[i]) by {
            assert(rest[i] == s[i + 1]);
        }
        lemma_blank_trims_away(rest);
    }
}

/// A solution that is empty or only white space fails the checks, whatever was
/// picked, so it has no score whatever the target.
pub proof fn lemma_blank_solution_has_no_score(input: Seq<char>, selected: Seq<Option<u32>>)
    requires
        forall|i: int| 0 <= i < input.len() ==> is_white_space(#[trigger] input[i]),
    ensures
        !passes_checks(input, selected),
{
    lemma_blank_trims_away(input);
    assert(trimmed(input).len() == 0);
}

/// Numbers written out in decimal, one space between each two.
pub open spec fn rendered(numbers: Seq<u32>) -> Seq<char>
    decreases numbers.len(),
{
    if numbers.len() == 0 {
        Seq::empty()
    } else if numbers.len() == 1 {
        decimal_text(numbers[0] as nat)
    } else {
        rendered(numbers.drop_last()) + seq![' '] + decimal_text(numbers.last() as nat)
    }
}

/// The decimal text of `n` is a non-empty run of digits whose value is `n`.
proof fn lemma_decimal_text(n: nat)
    ensures
        decimal_text(n).len() > 0,
        forall|i: int| 0 <= i < decimal_text(n).len() ==> is_digit(#[trigger] decimal_text(n)[i]),
        decimal_value(decimal_text(n)) == n,
    decreases n,
{
    let d = n % 10;
    assert(is_digit(digit_char(d)) && digit_value(digit_char(d)) == d) by {
        assert(d < 10);
        if d == 0 {
        } else if d == 1 {
        } else if d == 2 {
        } else if d == 3 {
        } else if d == 4 {
        } else if d == 5 {
        } else if d == 6 {
        } else if d == 7 {
        } else if d == 8 {
        } else {
        }
    }
    if n < 10 {
        assert(seq![digit_char(d)].drop_last() =~= Seq::<char>::empty());
        assert(decimal_value(Seq::<char>::empty()) == 0);
        assert(d == n);
    } else {
        lemma_decimal_text(n / 10);
        let t = decimal_text(n / 10);
        assert(decimal_text(n).drop_last() =~= t);
        assert(decimal_text(n).last() == digit_char(d));
        assert((n / 10) * 10 + n % 10 == n) by (nonlinear_arith);
    }
}

/// A space ends no run of digits.
proof fn lemma_runs_after_space(t: Seq<char>)
    ensures
        digit_runs(t.push(' ')) == digit_runs(t),
{
    assert(t.push(' ').drop_last() =~= t);
}

/// Digits written after text that does not end in a digit make one run more.
proof fn lemma_runs_append_digits(t: Seq<char>, d: Seq<char>)
    requires
        t.len() == 0 || !is_digit(t.last()),
        d.len() > 0,
        forall|i: int| 0 <= i < d.len() ==> is_digit(#[trigger] d[i]),
    ensures
        digit_runs(t + d) == digit_runs(t).push(d),
    decreases d.len(),
{
    let s = t + d;
    assert(s.last() == d.last());
    assert(is_digit(d[d.len() - 1]));
    if d.len() == 1 {
        assert(s.drop_last() =~= t);
        assert(seq![s.last()] =~= d);
    } else {
        let front = d.drop_last();
        assert forall|i: int| 0 <= i < front.len() implies is_digit(#[trigger] front[i]) by {
            assert(front[i] == d[i]);
        }
        lemma_runs_append_digits(t, front);
        assert(s.drop_last() =~= t + front);
        assert((t + front).last() == front.last());
        assert(is_digit(front[front.len() - 1]));
        assert(digit_runs(t).push(front).drop_last() =~= digit_runs(t));
        assert(front.push(s.last()) =~= d);
    }
}

/// The runs of digits of rendered numbers are their decimal texts.
proof fn lemma_rendered_runs(numbers: Seq<u32>)
    ensures
        digit_runs(rendered(numbers)) == numbers.map_values(|x: u32| decimal_text(x as nat)),
    decreases numbers.len(),
{
    let texts = numbers.map_values(|x: u32| decimal_text(x as nat));
    if numbers.len() == 0 {
        assert(texts =~= Seq::<Seq<char>>::empty());
    } else {
        let last = decimal_text(numbers.last() as nat);
        lemma_decimal_text(numbers.last() as nat);
        if numbers.len() == 1 {
            lemma_runs_append_digits(Seq::empty(), last);
            assert(Seq::<char>::empty() + last =~= last);
            assert(texts =~= seq![last]);
        } else {
            let before = rendered(numbers.drop_last());
            lemma_rendered_runs(numbers.drop_last());
            lemma_runs_after_space(before);
            assert(before + seq![' '] =~= before.push(' '));
            lemma_runs_append_digits(before.push(' '), last);
            assert(texts =~= numbers.drop_last().map_values(|x: u32| decimal_text(x as nat)).push(
                last,
            ));
        }
    }
}

/// The values of the decimal texts of numbers are those numbers.
proof fn lemma_values_of_texts(numbers: Seq<u32>)
    ensures
        run_values(numbers.map_values(|x: u32| decimal_text(x as nat))) == numbers,
    decreases numbers.len(),
{
    let texts = numbers.map_values(|x: u32| decimal_text(x as nat));
    if numbers.len() == 0 {
        assert(numbers =~= Seq::<u32>::empty());
    } else {
        lemma_values_of_texts(numbers.drop_last());
        lemma_decimal_text(numbers.last() as nat);
        assert(texts.drop_last() =~= numbers.drop_last().map_values(
            |x: u32| decimal_text(x as nat),
        ));
        assert(numbers.drop_last().push(numbers.last()) =~= numbers);
    }
}

/// Scanning numbers written out in decimal with spaces between them gives the
/// same numbers back, in the same order.
pub proof fn lemma_rescan_rendered(numbers: Seq<u32>)
    ensures
        solution_literals(rendered(numbers)) == numbers,
{
    lemma_rendered_runs(numbers);
    lemma_values_of_texts(numbers);
}

} // verus!
