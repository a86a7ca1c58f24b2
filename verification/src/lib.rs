//! Garble: the rules of a word-guessing game.
//!
//! A hidden solution is compared with each guess letter by letter. The
//! comparison honours repeated letters: a letter of the guess is only reported
//! as present while the solution still has an unclaimed copy of it.

pub mod text;
pub mod matching;
pub mod validation;
pub mod game;
pub mod render;
pub mod select;

pub use matching::{evaluate_guess, CharMatch, GuessResult};
pub use validation::{validate_guess, ValidationError};
pub use game::{new_game, play_guess, GameState, Turn, MAX_ATTEMPTS};
pub use render::{join_tokens, stringify_char_result, stringify_guess_result};
pub use select::{pick_word, split_lines, try_pick_word};
pub use text::{decimal, normalize_guess};
