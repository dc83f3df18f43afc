//! The game-state and solution-checking engine of a numbers puzzle: a player is
//! dealt six numbers from pools of large and small values and combines them with
//! arithmetic to reach a three-digit target.

pub mod game;
pub mod laws;
pub mod play;
pub mod pool;
pub mod random;
pub mod scanner;
pub mod scoring;
pub mod selection;
pub mod usage;
pub mod view;

pub use game::{App, CurrentScreen, PoolKind, LARGE_NUMBER_COUNT, SMALL_NUMBER_COUNT};
pub use play::{feedback_sound, Key, KeyResponse, SoundEffect};
pub use scanner::get_solution_numbers;
pub use scoring::{check_solution_calculation, score_value, trim_white_space};
pub use usage::check_solution_numbers;
