//! The state of one game: the pools, the numbers picked, the target, the typed
//! solution and the screen being shown.

use rand::rngs::ThreadRng;
use vstd::prelude::*;

use crate::pool::{
    any_occupied, count_occupied, filled_with, has_any, lemma_filled_with,
    lemma_occupied_bounds, nth_occupied_slot, occupied, remaining,
};
use crate::random::{random_in_range, shuffle_values};
use crate::scanner::{get_solution_numbers, solution_literals};
use crate::scoring::{
    check_solution_calculation, solution_calculation, trim_white_space, trimmed,
};
use crate::selection::{complete, is_complete, push_number, pushed};
use crate::usage::{check_solution_numbers, slot_values, uses_only};

verus! {

broadcast use vstd::array::group_array_axioms;

/// The number of large numbers in a game.
pub const LARGE_NUMBER_COUNT: usize = 4;

/// The number of small numbers in a game.
pub const SMALL_NUMBER_COUNT: usize = 20;

/// The screen a game is on.
#[derive(Debug, Clone, Copy, PartialEq, Eq, Structural)]
pub enum CurrentScreen {
    Introduction,
    PickingNumbers,
    Playing,
    DisplayingResult,
}

impl Default for CurrentScreen {
    fn default() -> (screen: CurrentScreen)
        ensures
            screen == CurrentScreen::Introduction,
    {
        CurrentScreen::Introduction
    }
}

/// One of the two pools of numbers.
#[derive(Debug, Clone, Copy, PartialEq, Eq, Structural)]
pub enum PoolKind {
    Large,
    Small,
}

/// The large numbers a game starts with.
pub open spec fn large_seed() -> Seq<u32> {
    seq![25, 50, 75, 100]
}

/// The small numbers a game starts with: two of each of one to ten.
pub open spec fn small_seed() -> Seq<u32> {
    seq![1, 1, 2, 2, 3, 3, 4, 4, 5, 5, 6, 6, 7, 7, 8, 8, 9, 9, 10, 10]
}

/// One draw from a pool: `value` is what it gave and `after` what is left. A
/// draw gives nothing only from a pool with nothing left, which it leaves as it
/// is; otherwise it gives the number of one occupied slot and empties that slot.
pub open spec fn drawn(before: Seq<Option<u32>>, after: Seq<Option<u32>>, value: Option<u32>) -> bool {
    match value {
        None => !any_occupied(before) && after == before,
        Some(v) => exists|i: int|
            0 <= i < before.len() && before[i] == Some(v) && after == before.update(i, None),
    }
}

/// A solution that reaches the check of the numbers it uses: there is something
/// besides white space, and no more than six literals.
pub open spec fn checks_usage(input: Seq<char>) -> bool {
    trimmed(input).len() > 0 && solution_literals(trimmed(input)).len() <= 6
}

/// A solution that passes every check before its arithmetic: something typed, no
/// more than six literals, and only numbers of the selection, each at most as
/// often as it was picked.
pub open spec fn passes_checks(input: Seq<char>, selected: Seq<Option<u32>>) -> bool {
    checks_usage(input) && uses_only(solution_literals(trimmed(input)), slot_values(selected))
}

/// The score of a solution: its distance from the target where it passes the
/// checks and its trimmed text is short arithmetic that evaluates.
pub open spec fn solution_score(input: Seq<char>, selected: Seq<Option<u32>>, target: u32) -> Option<u32> {
    if passes_checks(input, selected) {
        solution_calculation(trimmed(input), target)
    } else {
        None
    }
}

/// The state of a game.
#[derive(Debug)]
pub struct App {
    /// The screen being shown.
    pub current_screen: CurrentScreen,
    /// The small pool; a drawn slot is empty.
    pub available_small_numbers: [Option<u32>; SMALL_NUMBER_COUNT],
    /// The large pool; a drawn slot is empty.
    pub available_large_numbers: [Option<u32>; LARGE_NUMBER_COUNT],
    /// The numbers picked so far, filled from the left.
    pub selected_numbers: [Option<u32>; 6],
    /// The number to reach.
    pub target: u32,
    /// The solution typed so far.
    pub value_input: String,
    /// The text shown beside the solution: its distance from the target, or a
    /// tick for a hit.
    pub feedback: String,
    /// The generator behind the draws.
    pub rng: ThreadRng,
}

/// Slots holding the given numbers, in order.
fn filled_slots<const N: usize>(values: &[u32; N]) -> (slots: [Option<u32>; N])
    ensures
        slots@ == filled_with(values@),
{
    let mut slots: [Option<u32>; N] = [None; N];
    let mut i: usize = 0;
    while i < N
        invariant
            i <= N,
            slots@.len() == N,
            values@.len() == N,
            forall|j: int| 0 <= j < i ==> slots@[j] == Some(values@[j]),
        decreases N - i,
    {
        slots[i] = Some(values[i]);
        i = i + 1;
    }
    assert(slots@ =~= filled_with(values@));
    slots
}

impl App {
    /// The slots of the pool of the given kind.
    pub open spec fn slots(&self, kind: PoolKind) -> Seq<Option<u32>> {
        match kind {
            PoolKind::Large => self.available_large_numbers@,
            PoolKind::Small => self.available_small_numbers@,
        }
    }

    /// `self` and `other` agree on everything the player sees but the pool of the
    /// given kind and the picked numbers.
    pub open spec fn same_but_pool_and_selection(&self, other: &App, kind: PoolKind) -> bool {
        &&& self.current_screen == other.current_screen
        &&& self.target == other.target
        &&& self.value_input@ == other.value_input@
        &&& self.feedback@ == other.feedback@
        &&& kind == PoolKind::Large ==> self.available_small_numbers@
            == other.available_small_numbers@
        &&& kind == PoolKind::Small ==> self.available_large_numbers@
            == other.available_large_numbers@
    }

    /// A game as it starts: both pools full, nothing picked, a target from 100 to
    /// 998 and nothing typed.
    pub open spec fn is_fresh(&self) -> bool {
        &&& remaining(self.available_large_numbers@) == large_seed().to_multiset()
        &&& remaining(self.available_small_numbers@) == small_seed().to_multiset()
        &&& occupied(self.available_large_numbers@) == LARGE_NUMBER_COUNT
        &&& occupied(self.available_small_numbers@) == SMALL_NUMBER_COUNT
        &&& forall|i: int| 0 <= i < 6 ==> (#[trigger] self.selected_numbers@[i]) is None
        &&& 100 <= self.target < 999
        &&& self.value_input@.len() == 0
        &&& self.feedback@.len() == 0
    }

    /// `self` and `other` agree on everything but the feedback text.
    pub open spec fn same_but_feedback(&self, other: &App) -> bool {
        &&& self.current_screen == other.current_screen
        &&& self.target == other.target
        &&& self.value_input@ == other.value_input@
        &&& self.available_large_numbers@ == other.available_large_numbers@
        &&& self.available_small_numbers@ == other.available_small_numbers@
        &&& self.selected_numbers@ == other.selected_numbers@
    }

    /// `self` is what a pick from the pool of the given kind makes of `before`:
    /// nothing changes where the selection is full or the pool empty; otherwise a
    /// number is drawn from the pool and pushed into the selection.
    pub open spec fn picked_from(&self, before: &App, kind: PoolKind) -> bool {
        &&& complete(before.selected_numbers@) || !any_occupied(before.slots(kind))
            ==> self.same_game(before)
        &&& !complete(before.selected_numbers@) && any_occupied(before.slots(kind)) ==> exists|
            v: u32,
        |
            drawn(before.slots(kind), self.slots(kind), Some(v)) && self.selected_numbers@
                == pushed(before.selected_numbers@, v)
        &&& self.same_but_pool_and_selection(before, kind)
    }

    /// `self` and `other` agree on everything the player sees.
    pub open spec fn same_game(&self, other: &App) -> bool {
        &&& self.same_but_pool_and_selection(other, PoolKind::Large)
        &&& self.available_large_numbers@ == other.available_large_numbers@
        &&& self.selected_numbers@ == other.selected_numbers@
    }

    /// A fresh game: both pools full, in a random order; nothing picked; a random
    /// target from 100 to 998; nothing typed.
    pub fn new() -> (app: App)
        ensures
            app.current_screen == CurrentScreen::Introduction,
            app.is_fresh(),
    {
        let mut rng = rand::thread_rng();

        let mut large_numbers: [u32; LARGE_NUMBER_COUNT] = [25, 50, 75, 100];
        assert(large_numbers@ =~= large_seed());
        shuffle_values(&mut large_numbers, &mut rng);
        let available_large_numbers = filled_slots(&large_numbers);

        let mut small_numbers: [u32; SMALL_NUMBER_COUNT] = [
            1, 1, 2, 2, 3, 3, 4, 4, 5, 5, 6, 6, 7, 7, 8, 8, 9, 9, 10, 10,
        ];
        assert(small_numbers@ =~= small_seed());
        shuffle_values(&mut small_numbers, &mut rng);
        let available_small_numbers = filled_slots(&small_numbers);

        proof {
            lemma_filled_with(large_numbers@);
            lemma_filled_with(small_numbers@);
        }
        let target = random_in_range(&mut rng, 100, 999);
        App {
            current_screen: CurrentScreen::Introduction,
            available_small_numbers,
            available_large_numbers,
            selected_numbers: [None; 6],
            target,
            value_input: String::new(),
            feedback: String::new(),
            rng,
        }
    }

    /// The slots of the pool of the given kind.
    fn pool(&self, kind: PoolKind) -> (slots: &[Option<u32>])
        ensures
            slots@ == self.slots(kind),
    {
        match kind {
            PoolKind::Large => self.available_large_numbers.as_slice(),
            PoolKind::Small => self.available_small_numbers.as_slice(),
        }
    }

    /// Whether the pool of the given kind still holds a number.
    pub fn has_any(&self, kind: PoolKind) -> (found: bool)
        ensures
            found == any_occupied(self.slots(kind)),
    {
        has_any(self.pool(kind))
    }

    /// Empties a slot of the pool of the given kind and gives what it held.
    pub fn remove_at(&mut self, kind: PoolKind, slot: usize) -> (value: Option<u32>)
        requires
            slot < old(self).slots(kind).len(),
        ensures
            value == old(self).slots(kind)[slot as int],
            final(self).slots(kind) == old(self).slots(kind).update(slot as int, None),
            final(self).same_but_pool_and_selection(old(self), kind),
            final(self).selected_numbers@ == old(self).selected_numbers@,
    {
        match kind {
            PoolKind::Large => {
                let value = self.available_large_numbers[slot];
                self.available_large_numbers[slot] = None;
                value
            },
            PoolKind::Small => {
                let value = self.available_small_numbers[slot];
                self.available_small_numbers[slot] = None;
                value
            },
        }
    }

    /// A random occupied slot of the pool of the given kind, each equally likely,
    /// or nothing where the pool is empty. The slot is found by drawing its rank
    /// among the occupied slots, so one random number is drawn however few slots
    /// are left. Only the generator moves on.
    fn random_available_index(&mut self, kind: PoolKind) -> (slot: Option<usize>)
        ensures
            slot is None <==> !any_occupied(old(self).slots(kind)),
            slot matches Some(i) ==> i < old(self).slots(kind).len() && old(self).slots(
                kind,
            )[i as int] is Some,
            final(self).same_game(old(self)),
    {
        let count = count_occupied(self.pool(kind));
        proof {
            lemma_occupied_bounds(self.slots(kind));
        }
        if count == 0 {
            return None;
        }
        let rank = random_in_range(&mut self.rng, 0, count as u32) as usize;
        nth_occupied_slot(self.pool(kind), rank)
    }

    /// A random occupied slot of the large pool, or nothing where it is empty.
    pub fn random_available_large_number_index(&mut self) -> (slot: Option<usize>)
        ensures
            slot is None <==> !any_occupied(old(self).available_large_numbers@),
            slot matches Some(i) ==> i < LARGE_NUMBER_COUNT
                && old(self).available_large_numbers@[i as int] is Some,
            final(self).same_game(old(self)),
    {
        self.random_available_index(PoolKind::Large)
    }

    /// A random occupied slot of the small pool, or nothing where it is empty.
    pub fn random_available_small_number_index(&mut self) -> (slot: Option<usize>)
        ensures
            slot is None <==> !any_occupied(old(self).available_small_numbers@),
            slot matches Some(i) ==> i < SMALL_NUMBER_COUNT
                && old(self).available_small_numbers@[i as int] is Some,
            final(self).same_game(old(self)),
    {
        self.random_available_index(PoolKind::Small)
    }

    /// Draws a random number from the pool of the given kind and empties its
    /// slot; nothing where the pool is empty.
    pub fn draw_random(&mut self, kind: PoolKind) -> (value: Option<u32>)
        ensures
            drawn(old(self).slots(kind), final(self).slots(kind), value),
            final(self).same_but_pool_and_selection(old(self), kind),
            final(self).selected_numbers@ == old(self).selected_numbers@,
    {
        match self.random_available_index(kind) {
            Some(slot) => {
                let ghost before = self.slots(kind);
                let value = self.remove_at(kind, slot);
                assert(before[slot as int] == Some(value->0));
                value
            },
            None => None,
        }
    }

    /// Whether all six numbers have been picked.
    pub fn is_number_selection_complete(&self) -> (done: bool)
        ensures
            done == complete(self.selected_numbers@),
    {
        is_complete(&self.selected_numbers)
    }

    /// Picks a random number of the given pool into the first free slot of the
    /// selection; nothing happens where the selection is full or the pool empty.
    fn pick_random_number(&mut self, kind: PoolKind)
        ensures
            final(self).picked_from(old(self), kind),
    {
        if self.is_number_selection_complete() {
            return;
        }
        if let Some(value) = self.draw_random(kind) {
            push_number(&mut self.selected_numbers, value);
        }
    }

    /// Picks a random large number into the first free slot of the selection.
    pub fn pick_random_large_number(&mut self)
        ensures
            final(self).picked_from(old(self), PoolKind::Large),
    {
        self.pick_random_number(PoolKind::Large)
    }

    /// Picks a random small number into the first free slot of the selection.
    pub fn pick_random_small_number(&mut self)
        ensures
            final(self).picked_from(old(self), PoolKind::Small),
    {
        self.pick_random_number(PoolKind::Small)
    }

    /// The distance of the typed solution from the target, or nothing: where the
    /// input is blank, holds more than six literals, uses a number that was not
    /// picked or more often than it was picked, holds other characters than those
    /// of arithmetic or more than `MAX_EXPRESSION_LEN`, or does not evaluate.
    pub fn check_solution(&self) -> (score: Option<u32>)
        requires
            checks_usage(self.value_input@) ==> complete(self.selected_numbers@),
        ensures
            score == solution_score(self.value_input@, self.selected_numbers@, self.target),
            !passes_checks(self.value_input@, self.selected_numbers@) ==> score is None,
    {
        let input = trim_white_space(self.value_input.as_str());
        if input.unicode_len() == 0 {
            return None;
        }
        let solution_numbers = get_solution_numbers(input);
        if solution_numbers.len() > 6 {
            return None;
        }
        if !check_solution_numbers(solution_numbers.as_slice(), &self.selected_numbers) {
            return None;
        }
        check_solution_calculation(input, self.target)
    }
}

} // verus!
