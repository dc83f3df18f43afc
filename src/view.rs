//! What the screens show of a game: the texts chosen by its state, the grade of
//! a result, and when fireworks go up after a hit.

use vstd::prelude::*;

use crate::game::{App, CurrentScreen};
use crate::selection::complete;

verus! {

/// The title of the screen.
pub fn title_text(app: &App) -> (text: &'static str)
    ensures
        text@ == match app.current_screen {
            CurrentScreen::Introduction => "Numbers Game"@,
            CurrentScreen::PickingNumbers => if complete(app.selected_numbers@) {
                "Hit (Enter) to start the challenge"@
            } else {
                "Pick some numbers"@
            },
            CurrentScreen::Playing => "Solve the challenge"@,
            CurrentScreen::DisplayingResult => "How did you do?"@,
        },
{
    match app.current_screen {
        CurrentScreen::Introduction => "Numbers Game",
        CurrentScreen::PickingNumbers => {
            if app.is_number_selection_complete() {
                "Hit (Enter) to start the challenge"
            } else {
                "Pick some numbers"
            }
        },
        CurrentScreen::Playing => "Solve the challenge",
        CurrentScreen::DisplayingResult => "How did you do?",
    }
}

/// The hint at the foot of the screen.
pub fn hint_text(app: &App) -> (text: &'static str)
    ensures
        text@ == match app.current_screen {
            CurrentScreen::Introduction => "Press (Enter) to skip"@,
            CurrentScreen::PickingNumbers => if complete(app.selected_numbers@) {
                "Press (Enter) to start"@
            } else {
                "Pick 6 numbers [: small, ]: large"@
            },
            CurrentScreen::Playing => "Use ( + - / * ) to hit the target"@,
            CurrentScreen::DisplayingResult => ""@,
        },
{
    match app.current_screen {
        CurrentScreen::Introduction => "Press (Enter) to skip",
        CurrentScreen::PickingNumbers => {
            if app.is_number_selection_complete() {
                "Press (Enter) to start"
            } else {
                "Pick 6 numbers [: small, ]: large"
            }
        },
        CurrentScreen::Playing => "Use ( + - / * ) to hit the target",
        CurrentScreen::DisplayingResult => "",
    }
}

/// The keys that work on a screen.
pub fn key_notes_text(screen: CurrentScreen) -> (text: &'static str)
    ensures
        text@ == match screen {
            CurrentScreen::Introduction | CurrentScreen::PickingNumbers => "(q) to quit, (Enter) to start"@,
            CurrentScreen::Playing => "(q) to quit, (Enter) to submit"@,
            CurrentScreen::DisplayingResult => "(q) to quit, (Enter) to play again"@,
        },
{
    match screen {
        CurrentScreen::Introduction | CurrentScreen::PickingNumbers => "(q) to quit, (Enter) to start",
        CurrentScreen::Playing => "(q) to quit, (Enter) to submit",
        CurrentScreen::DisplayingResult => "(q) to quit, (Enter) to play again",
    }
}

/// How well a submitted solution did.
#[derive(Debug, Clone, Copy, PartialEq, Eq, Structural)]
pub enum ResultGrade {
    /// It hit the target.
    Hit,
    /// One to five from the target.
    Awesome,
    /// Six from the target.
    Great,
    /// Seven to ten from the target.
    Nice,
    /// Further off.
    Within,
    /// No score.
    Unlucky,
}

/// The grade of a score.
pub open spec fn grade_of(score: Option<u32>) -> ResultGrade {
    match score {
        Some(d) => if d == 0 {
            ResultGrade::Hit
        } else if d <= 5 {
            ResultGrade::Awesome
        } else if d == 6 {
            ResultGrade::Great
        } else if d <= 10 {
            ResultGrade::Nice
        } else {
            ResultGrade::Within
        },
        None => ResultGrade::Unlucky,
    }
}

/// The grade of a score.
pub fn result_grade(score: Option<u32>) -> (grade: ResultGrade)
    ensures
        grade == grade_of(score),
{
    match score {
        Some(0) => ResultGrade::Hit,
        Some(d) => if d <= 5 {
            ResultGrade::Awesome
        } else if d == 6 {
            ResultGrade::Great
        } else if d <= 10 {
            ResultGrade::Nice
        } else {
            ResultGrade::Within
        },
        None => ResultGrade::Unlucky,
    }
}

/// Where a firework goes up.
#[derive(Debug, Clone, Copy, PartialEq, Eq, Structural)]
pub enum LaunchPosition {
    Left,
    Centre,
    Right,
}

/// The number of ticks between two fireworks.
pub const FIREWORK_INTERVAL: u64 = 180;

/// The tick from which no more fireworks go up.
pub const FIREWORK_END: u64 = 3600;

/// Where a firework goes up at a tick of the celebration, if one does: every
/// interval until the end, centre, right and left in turn.
pub fn firework_launch(tick: u64) -> (position: Option<LaunchPosition>)
    ensures
        position is Some <==> tick % FIREWORK_INTERVAL == 0 && tick < FIREWORK_END,
        position is Some ==> position == Some(
            match (tick / FIREWORK_INTERVAL) % 3 {
                0 => LaunchPosition::Centre,
                1 => LaunchPosition::Right,
                _ => LaunchPosition::Left,
            },
        ),
{
    if tick % FIREWORK_INTERVAL != 0 || tick >= FIREWORK_END {
        return None;
    }
    let turn = (tick / FIREWORK_INTERVAL) % 3;
    if turn == 0 {
        Some(LaunchPosition::Centre)
    } else if turn == 1 {
        Some(LaunchPosition::Right)
    } else {
        Some(LaunchPosition::Left)
    }
}

} // verus!
