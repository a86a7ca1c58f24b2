//! The course of one game, as a state machine.
//!
//! The caller owns the loop: it asks the player for a guess, hands it to
//! [`play_guess`] together with the current state, shows what the returned
//! [`Turn`] tells it to show, and goes on from the returned state.

use vstd::prelude::*;
use crate::matching::{evaluate_guess, GuessResult};
use crate::validation::{listed, validate_guess, verdict, ValidationError};

verus! {

/// The number of scored guesses a player gets.
pub const MAX_ATTEMPTS: u32 = 5;

/// Where a game stands.
#[derive(Debug, Clone, Copy, PartialEq, Eq, Structural)]
pub enum GameState {
    /// The player is about to make the attempt of this number, counted from 1.
    Playing(u32),
    /// The player found the solution with the attempt of this number.
    Won(u32),
    /// The last attempt missed.
    Lost,
}

/// What a submitted guess led to, for the caller to show.
#[derive(Debug, PartialEq, Eq)]
pub enum Turn {
    /// The guess was turned away; the attempt is still to be made.
    Rejected(ValidationError),
    /// The guess was scored.
    Scored(GuessResult),
    /// The game was already over; the guess was not looked at.
    Ignored,
}

impl GameState {
    /// Attempt numbers stay within the budget.
    pub open spec fn well_formed(self) -> bool {
        match self {
            GameState::Playing(a) => 1 <= a <= MAX_ATTEMPTS,
            GameState::Won(a) => 1 <= a <= MAX_ATTEMPTS,
            GameState::Lost => true,
        }
    }

    /// The game is over.
    pub open spec fn terminal(self) -> bool {
        !(self is Playing)
    }

    /// The attempt counter: how many guesses have been scored so far.
    pub open spec fn scored_guesses(self) -> int {
        match self {
            GameState::Playing(a) => a - 1,
            GameState::Won(a) => a as int,
            GameState::Lost => MAX_ATTEMPTS as int,
        }
    }

    /// Whether the game is over.
    pub fn is_over(&self) -> (b: bool)
        ensures
            b == self.terminal(),
    {
        match self {
            GameState::Playing(_) => false,
            _ => true,
        }
    }
}

/// The state that follows `state` when a guess of text `guess` is submitted
/// against `solution`; `is_listed` says whether the guess is an accepted word.
pub open spec fn next_state(
    state: GameState,
    guess: Seq<char>,
    solution: Seq<char>,
    is_listed: bool,
) -> GameState {
    match state {
        GameState::Playing(a) => {
            if guess.len() != solution.len() || !is_listed {
                state
            } else if guess == solution {
                GameState::Won(a)
            } else if a < MAX_ATTEMPTS {
                GameState::Playing((a + 1) as u32)
            } else {
                GameState::Lost
            }
        },
        _ => state,
    }
}

/// What the caller is told about a guess submitted in `state`.
pub open spec fn turn_matches(
    turn: Turn,
    state: GameState,
    guess: Seq<char>,
    solution: Seq<char>,
    is_listed: bool,
) -> bool {
    if state.terminal() {
        turn is Ignored
    } else if guess.len() != solution.len() {
        turn == Turn::Rejected(ValidationError::WrongLength(solution.len() as usize))
    } else if !is_listed {
        turn == Turn::Rejected(ValidationError::NotInDictionary)
    } else {
        turn is Scored && turn->Scored_0.scores(guess, solution)
    }
}

/// The state in which every game begins.
pub fn new_game() -> (state: GameState)
    ensures
        state == GameState::Playing(1),
        state.well_formed(),
        state.scored_guesses() == 0,
{
    GameState::Playing(1)
}

/// Plays one submitted guess.
///
/// A guess that is turned away leaves the state as it was. A scored guess
/// uses up the attempt: it wins the game, moves on to the next attempt, or,
/// on the last attempt, loses the game. Once the game is over nothing changes.
pub fn play_guess(state: GameState, guess: &str, solution: &str, allow_list: &Vec<String>) -> (out:
    (GameState, Turn))
    ensures
        out.0 == next_state(state, guess@, solution@, listed(allow_list@, guess@)),
        turn_matches(out.1, state, guess@, solution@, listed(allow_list@, guess@)),
        state.well_formed() ==> out.0.well_formed(),
{
    match state {
        GameState::Playing(attempt) => {
            let word_length: usize = solution.unicode_len();
            match validate_guess(word_length, guess, allow_list) {
                Err(e) => (state, Turn::Rejected(e)),
                Ok(admitted) => {
                    let result: GuessResult = evaluate_guess(admitted, solution);
                    let next: GameState = if result.is_correct() {
                        GameState::Won(attempt)
                    } else if attempt < MAX_ATTEMPTS {
                        GameState::Playing(attempt + 1)
                    } else {
                        GameState::Lost
                    };
                    (next, Turn::Scored(result))
                },
            }
        },
        _ => (state, Turn::Ignored),
    }
}

/// A guess that is turned away never advances the attempt counter; a guess
/// that is admitted while the game is on always advances it by one.
pub proof fn lemma_attempts_advance(
    state: GameState,
    guess: Seq<char>,
    solution: Seq<char>,
    is_listed: bool,
)
    requires
        state.well_formed(),
        solution.len() <= usize::MAX,
    ensures
        verdict(solution.len() as usize, guess, is_listed) is Some ==> next_state(
            state,
            guess,
            solution,
            is_listed,
        ) == state,
        verdict(solution.len() as usize, guess, is_listed) is None && !state.terminal()
            ==> next_state(state, guess, solution, is_listed).scored_guesses()
            == state.scored_guesses() + 1,
        state.terminal() ==> next_state(state, guess, solution, is_listed) == state,
        next_state(state, guess, solution, is_listed).well_formed(),
{
}

} // verus!
