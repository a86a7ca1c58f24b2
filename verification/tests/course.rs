use garble::{
    new_game, play_guess, CharMatch, GameState, GuessResult, Turn, ValidationError, MAX_ATTEMPTS,
};

fn words() -> Vec<String> {
    ["CRANE", "SPEED", "ERASE", "NACRE", "TREE"].iter().map(|w| w.to_string()).collect()
}

#[test]
fn a_game_starts_at_the_first_attempt() {
    assert_eq!(new_game(), GameState::Playing(1));
    assert!(!new_game().is_over());
    assert_eq!(MAX_ATTEMPTS, 5);
}

#[test]
fn guessing_the_solution_wins_at_once() {
    let (state, turn) = play_guess(new_game(), "CRANE", "CRANE", &words());
    assert_eq!(state, GameState::Won(1));
    assert!(state.is_over());
    assert_eq!(
        turn,
        Turn::Scored(GuessResult::Correct(vec![
            CharMatch::Correct('C'),
            CharMatch::Correct('R'),
            CharMatch::Correct('A'),
            CharMatch::Correct('N'),
            CharMatch::Correct('E'),
        ]))
    );
}

#[test]
fn a_miss_moves_on_to_the_next_attempt() {
    let (state, turn) = play_guess(GameState::Playing(2), "ERASE", "SPEED", &words());
    assert_eq!(state, GameState::Playing(3));
    assert_eq!(
        turn,
        Turn::Scored(GuessResult::Incorrect(vec![
            CharMatch::Occuring('E'),
            CharMatch::NotOccuring,
            CharMatch::NotOccuring,
            CharMatch::Occuring('S'),
            CharMatch::Occuring('E'),
        ]))
    );
}

#[test]
fn winning_on_a_later_attempt_keeps_its_number() {
    let (state, _) = play_guess(GameState::Playing(4), "SPEED", "SPEED", &words());
    assert_eq!(state, GameState::Won(4));
    let (state, _) = play_guess(GameState::Playing(5), "SPEED", "SPEED", &words());
    assert_eq!(state, GameState::Won(5));
}

#[test]
fn five_misses_lose_the_game() {
    let mut state = new_game();
    let mut lost = 0;
    for attempt in 1..=5 {
        assert_eq!(state, GameState::Playing(attempt));
        let (next, turn) = play_guess(state, "NACRE", "CRANE", &words());
        assert!(matches!(turn, Turn::Scored(GuessResult::Incorrect(_))));
        if next == GameState::Lost {
            lost += 1;
        }
        state = next;
    }
    assert_eq!(state, GameState::Lost);
    assert_eq!(lost, 1);
    assert!(state.is_over());
}

#[test]
fn five_wrong_lengths_leave_the_first_attempt_open() {
    let mut state = new_game();
    for _ in 0..5 {
        let (next, turn) = play_guess(state, "TREE", "CRANE", &words());
        assert_eq!(turn, Turn::Rejected(ValidationError::WrongLength(5)));
        state = next;
    }
    assert_eq!(state, GameState::Playing(1));
}

#[test]
fn an_unlisted_guess_is_a_free_retry() {
    let (state, turn) = play_guess(GameState::Playing(5), "ZZZZZ", "CRANE", &words());
    assert_eq!(state, GameState::Playing(5));
    assert_eq!(turn, Turn::Rejected(ValidationError::NotInDictionary));
}

#[test]
fn a_finished_game_takes_no_more_guesses() {
    let (state, turn) = play_guess(GameState::Won(2), "CRANE", "CRANE", &words());
    assert_eq!(state, GameState::Won(2));
    assert_eq!(turn, Turn::Ignored);
    let (state, turn) = play_guess(GameState::Lost, "CRANE", "CRANE", &words());
    assert_eq!(state, GameState::Lost);
    assert_eq!(turn, Turn::Ignored);
}
