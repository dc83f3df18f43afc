//! What each key does on each screen, and the feedback a typed solution gets.

use vstd::prelude::*;

use crate::game::{checks_usage, solution_score, App, CurrentScreen, PoolKind};
use crate::scanner::decimal_text;
use crate::selection::complete;

verus! {

/// A key the player pressed.
#[derive(Debug, Clone, Copy, PartialEq, Eq, Structural)]
pub enum Key {
    Enter,
    Backspace,
    Esc,
    Char(char),
    Other,
}

/// A sound the game asks to be played.
#[derive(Debug, Clone, Copy, PartialEq, Eq, Structural)]
pub enum SoundEffect {
    Start,
    Perfect,
    Valid,
    Firework,
}

/// What the surrounding program is to do after a key.
#[derive(Debug, Clone, Copy, PartialEq, Eq, Structural)]
pub struct KeyResponse {
    /// The session ends.
    pub quit: bool,
    /// A sound to play.
    pub sound: Option<SoundEffect>,
    /// A new game has replaced the old one.
    pub new_game: bool,
}

/// A character that may be typed into a solution.
pub open spec fn is_solution_char(c: char) -> bool {
    ('0' <= c && c <= '9') || c == '(' || c == ')' || c == '+' || c == '-' || c == '*' || c
        == '/' || c == ' '
}

/// ASCII white space: space, tab, line feed, form feed and carriage return.
pub open spec fn is_ascii_white_space(c: char) -> bool {
    c == ' ' || c == '\t' || c == '\n' || c == '\u{c}' || c == '\r'
}

/// The sound for a score: a hit, or a near miss of ten or less.
pub open spec fn sound_for(score: Option<u32>) -> Option<SoundEffect> {
    match score {
        Some(0) => Some(SoundEffect::Perfect),
        Some(d) => if d < 11 {
            Some(SoundEffect::Valid)
        } else {
            None
        },
        None => None,
    }
}

/// The feedback shown beside a solution that hits the target.
pub open spec fn hit_text() -> Seq<char> {
    seq![' ', '\u{2705}']
}

/// The feedback shown beside a solution at distance `d` from the target.
pub open spec fn distance_text(d: u32) -> Seq<char> {
    seq![' ', '\u{1f4cf}', ' '] + decimal_text(d as nat)
}

/// The feedback for a score.
pub open spec fn feedback_for(score: Option<u32>) -> Seq<char> {
    match score {
        Some(0) => hit_text(),
        Some(d) => distance_text(d),
        None => Seq::empty(),
    }
}

/// The playing screens have a full selection.
pub open spec fn well_formed(app: &App) -> bool {
    app.current_screen == CurrentScreen::Playing || app.current_screen
        == CurrentScreen::DisplayingResult ==> complete(app.selected_numbers@)
}

/// `after` and `before` agree on the pools, the selection and the target.
pub open spec fn same_deal(after: &App, before: &App) -> bool {
    &&& after.target == before.target
    &&& after.available_large_numbers@ == before.available_large_numbers@
    &&& after.available_small_numbers@ == before.available_small_numbers@
    &&& after.selected_numbers@ == before.selected_numbers@
}

/// `after` and `before` agree on everything but the screen.
pub open spec fn same_but_screen(after: &App, before: &App) -> bool {
    &&& same_deal(after, before)
    &&& after.value_input@ == before.value_input@
    &&& after.feedback@ == before.feedback@
}

/// The feedback and sound after an edit: those of the score of the edited
/// solution; `sounds` says whether the edit asks for a sound at all.
pub open spec fn rescored(after: &App, sound: Option<SoundEffect>, sounds: bool) -> bool {
    let score = solution_score(after.value_input@, after.selected_numbers@, after.target);
    &&& after.feedback@ == feedback_for(score)
    &&& sound == if sounds {
        sound_for(score)
    } else {
        None
    }
}

/// What a key does while numbers are being picked: Enter starts the challenge
/// once six are picked, `]` picks a large number and `[` a small one.
pub open spec fn picking_step(before: &App, after: &App, key: Key, sound: Option<SoundEffect>) -> bool {
    if key == Key::Enter && complete(before.selected_numbers@) {
        &&& after.current_screen == CurrentScreen::Playing
        &&& same_but_screen(after, before)
        &&& sound == Some(SoundEffect::Start)
    } else if key == Key::Char(']') {
        after.picked_from(before, PoolKind::Large) && sound is None
    } else if key == Key::Char('[') {
        after.picked_from(before, PoolKind::Small) && sound is None
    } else {
        after.same_game(before) && sound is None
    }
}

/// What a key does while a solution is typed: Enter submits it, Backspace takes
/// its last character off, and the characters of a solution are appended; each
/// edit rescores the solution, and one that is not white space sounds.
pub open spec fn playing_step(before: &App, after: &App, key: Key, sound: Option<SoundEffect>) -> bool {
    let input = before.value_input@;
    match key {
        Key::Enter => {
            &&& after.current_screen == CurrentScreen::DisplayingResult
            &&& same_but_screen(after, before)
            &&& sound is None
        },
        Key::Backspace => if input.len() == 0 {
            after.same_game(before) && sound is None
        } else {
            &&& after.current_screen == before.current_screen
            &&& same_deal(after, before)
            &&& after.value_input@ == input.drop_last()
            &&& if is_ascii_white_space(input.last()) {
                after.feedback@ == before.feedback@ && sound is None
            } else {
                rescored(after, sound, true)
            }
        },
        Key::Char(c) => if is_solution_char(c) {
            &&& after.current_screen == before.current_screen
            &&& same_deal(after, before)
            &&& after.value_input@ == input.push(c)
            &&& rescored(after, sound, !is_ascii_white_space(c))
        } else {
            after.same_game(before) && sound is None
        },
        _ => after.same_game(before) && sound is None,
    }
}

/// Relies on String::push: the character is appended.
#[verifier::external_body]
fn push_char(s: &mut String, c: char)
    ensures
        final(s)@ == old(s)@.push(c),
{
    s.push(c)
}

/// Relies on String::pop: the last character is taken off and returned.
#[verifier::external_body]
fn pop_char(s: &mut String) -> (c: Option<char>)
    ensures
        old(s)@.len() == 0 ==> c is None && final(s)@ == old(s)@,
        old(s)@.len() > 0 ==> c == Some(old(s)@.last()) && final(s)@ == old(s)@.drop_last(),
{
    s.pop()
}

/// Appends the decimal digits of `n`.
fn push_decimal(s: &mut String, n: u32)
    ensures
        final(s)@ == old(s)@ + decimal_text(n as nat),
    decreases n,
{
    if n >= 10 {
        push_decimal(s, n / 10);
    }
    let digit = ((n % 10) as u8 + 48) as char;
    push_char(s, digit);
    assert(s@ =~= old(s)@ + decimal_text(n as nat));
}

/// The feedback for a solution at distance `d` from the target.
fn distance_feedback(d: u32) -> (text: String)
    ensures
        text@ == distance_text(d),
{
    let mut text = String::from_str(" \u{1f4cf} ");
    proof {
        reveal_strlit(" \u{1f4cf} ");
    }
    push_decimal(&mut text, d);
    assert(text@ =~= distance_text(d));
    text
}

/// The sound for a score: a hit, or a near miss of ten or less; none otherwise.
pub fn feedback_sound(score: Option<u32>) -> (sound: Option<SoundEffect>)
    ensures
        sound == sound_for(score),
{
    match score {
        Some(0) => Some(SoundEffect::Perfect),
        Some(d) => if d < 11 {
            Some(SoundEffect::Valid)
        } else {
            None
        },
        None => None,
    }
}

/// Whether `c` may be typed into a solution.
fn solution_char(c: char) -> (r: bool)
    ensures
        r == is_solution_char(c),
{
    ('0' <= c && c <= '9') || c == '(' || c == ')' || c == '+' || c == '-' || c == '*' || c
        == '/' || c == ' '
}

/// Whether `c` is ASCII white space.
fn ascii_white_space(c: char) -> (r: bool)
    ensures
        r == is_ascii_white_space(c),
{
    c == ' ' || c == '\t' || c == '\n' || c == '\u{c}' || c == '\r'
}

impl App {
    /// Scores the typed solution and sets the feedback shown beside it.
    pub fn update_feedback(&mut self) -> (score: Option<u32>)
        requires
            checks_usage(old(self).value_input@) ==> complete(old(self).selected_numbers@),
        ensures
            final(self).feedback@ == feedback_for(score),
            final(self).same_but_feedback(old(self)),
            score == solution_score(
                old(self).value_input@,
                old(self).selected_numbers@,
                old(self).target,
            ),
    {
        let score = self.check_solution();
        match score {
            Some(0) => {
                self.feedback = String::from_str(" \u{2705}");
                proof {
                    reveal_strlit(" \u{2705}");
                    assert(self.feedback@ =~= hit_text());
                }
            },
            Some(d) => {
                self.feedback = distance_feedback(d);
            },
            None => {
                self.feedback = String::new();
            },
        }
        score
    }

    /// Handles a key while numbers are being picked, and says which sound to play.
    pub fn handle_picking_numbers(&mut self, key: Key) -> (sound: Option<SoundEffect>)
        requires
            well_formed(old(self)),
            old(self).current_screen == CurrentScreen::PickingNumbers,
        ensures
            well_formed(final(self)),
            picking_step(old(self), final(self), key, sound),
    {
        match key {
            Key::Enter => {
                if self.is_number_selection_complete() {
                    self.current_screen = CurrentScreen::Playing;
                    return Some(SoundEffect::Start);
                }
                None
            },
            Key::Char(']') => {
                self.pick_random_large_number();
                None
            },
            Key::Char('[') => {
                self.pick_random_small_number();
                None
            },
            _ => None,
        }
    }

    /// Handles a key while a solution is typed, and says which sound to play.
    pub fn handle_playing(&mut self, key: Key) -> (sound: Option<SoundEffect>)
        requires
            well_formed(old(self)),
            old(self).current_screen == CurrentScreen::Playing,
        ensures
            well_formed(final(self)),
            playing_step(old(self), final(self), key, sound),
    {
        match key {
            Key::Backspace => {
                if let Some(c) = pop_char(&mut self.value_input) {
                    if !ascii_white_space(c) {
                        let score = self.update_feedback();
                        return feedback_sound(score);
                    }
                }
                None
            },
            Key::Char(c) => {
                if solution_char(c) {
                    push_char(&mut self.value_input, c);
                    let score = self.update_feedback();
                    if !ascii_white_space(c) {
                        return feedback_sound(score);
                    }
                }
                None
            },
            Key::Enter => {
                self.current_screen = CurrentScreen::DisplayingResult;
                None
            },
            _ => None,
        }
    }

    /// Handles a key on whatever screen is shown: Esc and `q` end the session
    /// anywhere; Enter moves on from the introduction, and after a result starts
    /// a new game on the picking screen.
    pub fn handle_key(&mut self, key: Key) -> (response: KeyResponse)
        requires
            well_formed(old(self)),
        ensures
            well_formed(final(self)),
            response.quit == (key == Key::Esc || key == Key::Char('q')),
            response.quit ==> final(self).same_game(old(self)) && response.sound is None
                && !response.new_game,
            !response.quit ==> match old(self).current_screen {
                CurrentScreen::Introduction => {
                    &&& key == Key::Enter ==> final(self).current_screen
                        == CurrentScreen::PickingNumbers && same_but_screen(final(self), old(self))
                    &&& key != Key::Enter ==> final(self).same_game(old(self))
                    &&& response.sound is None && !response.new_game
                },
                CurrentScreen::PickingNumbers => picking_step(
                    old(self),
                    final(self),
                    key,
                    response.sound,
                ) && !response.new_game,
                CurrentScreen::Playing => playing_step(old(self), final(self), key, response.sound)
                    && !response.new_game,
                CurrentScreen::DisplayingResult => {
                    &&& key == Key::Enter ==> final(self).current_screen
                        == CurrentScreen::PickingNumbers && final(self).is_fresh()
                        && response.new_game
                    &&& key != Key::Enter ==> final(self).same_game(old(self)) && !response.new_game
                    &&& response.sound is None
                },
            },
    {
        if key == Key::Esc || key == Key::Char('q') {
            return KeyResponse { quit: true, sound: None, new_game: false };
        }
        match self.current_screen {
            CurrentScreen::Introduction => {
                if key == Key::Enter {
                    self.current_screen = CurrentScreen::PickingNumbers;
                }
                KeyResponse { quit: false, sound: None, new_game: false }
            },
            CurrentScreen::PickingNumbers => {
                let sound = self.handle_picking_numbers(key);
                KeyResponse { quit: false, sound, new_game: false }
            },
            CurrentScreen::Playing => {
                let sound = self.handle_playing(key);
                KeyResponse { quit: false, sound, new_game: false }
            },
            CurrentScreen::DisplayingResult => {
                if key == Key::Enter {
                    *self = App::new();
                    self.current_screen = CurrentScreen::PickingNumbers;
                    return KeyResponse { quit: false, sound: None, new_game: true };
                }
                KeyResponse { quit: false, sound: None, new_game: false }
            },
        }
    }
}

} // verus!
