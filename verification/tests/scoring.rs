use garble::{evaluate_guess, CharMatch, GuessResult};

fn matches_of(result: &GuessResult) -> Vec<CharMatch> {
    match result {
        GuessResult::Correct(v) => v.clone(),
        GuessResult::Incorrect(v) => v.clone(),
    }
}

fn reported(matches: &[CharMatch], letter: char) -> usize {
    matches
        .iter()
        .filter(|m| **m == CharMatch::Correct(letter) || **m == CharMatch::Occuring(letter))
        .count()
}

#[test]
fn solution_itself_scores_all_correct() {
    let result = evaluate_guess("CRANE", "CRANE");
    assert_eq!(
        result,
        GuessResult::Correct(vec![
            CharMatch::Correct('C'),
            CharMatch::Correct('R'),
            CharMatch::Correct('A'),
            CharMatch::Correct('N'),
            CharMatch::Correct('E'),
        ])
    );
    assert!(result.is_correct());
}

#[test]
fn erase_against_speed() {
    let result = evaluate_guess("ERASE", "SPEED");
    assert_eq!(
        result,
        GuessResult::Incorrect(vec![
            CharMatch::Occuring('E'),
            CharMatch::NotOccuring,
            CharMatch::NotOccuring,
            CharMatch::Occuring('S'),
            CharMatch::Occuring('E'),
        ])
    );
}

#[test]
fn repeated_letter_runs_out_of_spares() {
    let result = evaluate_guess("EERIE", "SPEED");
    assert_eq!(
        result,
        GuessResult::Incorrect(vec![
            CharMatch::Occuring('E'),
            CharMatch::Occuring('E'),
            CharMatch::NotOccuring,
            CharMatch::NotOccuring,
            CharMatch::NotOccuring,
        ])
    );
}

#[test]
fn exact_hit_claims_its_copy_before_earlier_letters() {
    let result = evaluate_guess("EERIE", "CRANE");
    assert_eq!(
        result,
        GuessResult::Incorrect(vec![
            CharMatch::NotOccuring,
            CharMatch::NotOccuring,
            CharMatch::Occuring('R'),
            CharMatch::NotOccuring,
            CharMatch::Correct('E'),
        ])
    );
}

#[test]
fn exact_hit_and_spare_copy_of_one_letter() {
    let result = evaluate_guess("EMCEE", "SPEED");
    assert_eq!(
        result,
        GuessResult::Incorrect(vec![
            CharMatch::Occuring('E'),
            CharMatch::NotOccuring,
            CharMatch::NotOccuring,
            CharMatch::Correct('E'),
            CharMatch::NotOccuring,
        ])
    );
}

#[test]
fn nothing_in_common() {
    let result = evaluate_guess("FJORD", "GLYPH");
    assert_eq!(result, GuessResult::Incorrect(vec![CharMatch::NotOccuring; 5]));
    assert!(!result.is_correct());
}

#[test]
fn empty_words_are_equal() {
    let result = evaluate_guess("", "");
    assert_eq!(result, GuessResult::Correct(vec![]));
}

#[test]
fn letters_beyond_ascii_are_single_positions() {
    let result = evaluate_guess("ÉTÉ", "THÉ");
    assert_eq!(
        result,
        GuessResult::Incorrect(vec![
            CharMatch::NotOccuring,
            CharMatch::Occuring('T'),
            CharMatch::Correct('É'),
        ])
    );
}

#[test]
fn correct_exactly_when_guess_is_solution() {
    let words = ["CRANE", "SPEED", "ERASE", "EERIE", "ABBEY", "NACRE"];
    for g in words {
        for s in words {
            let result = evaluate_guess(g, s);
            assert_eq!(result.is_correct(), g == s, "{g} against {s}");
            let all_exact = matches_of(&result)
                .iter()
                .all(|m| matches!(m, CharMatch::Correct(_)));
            assert_eq!(all_exact, g == s, "{g} against {s}");
        }
    }
}

#[test]
fn no_letter_is_reported_more_often_than_the_solution_holds_it() {
    let words = ["CRANE", "SPEED", "ERASE", "EERIE", "ABBEY", "EMCEE", "LLAMA", "ALLAY"];
    for g in words {
        for s in words {
            let matches = matches_of(&evaluate_guess(g, s));
            assert_eq!(matches.len(), 5);
            for letter in 'A'..='Z' {
                let held = s.chars().filter(|c| *c == letter).count();
                assert!(reported(&matches, letter) <= held, "{letter} in {g} against {s}");
            }
        }
    }
}

#[test]
fn scoring_twice_gives_the_same_result() {
    let first = evaluate_guess("LLAMA", "ALLAY");
    let second = evaluate_guess("LLAMA", "ALLAY");
    assert_eq!(first, second);
    assert_eq!(
        first,
        GuessResult::Incorrect(vec![
            CharMatch::Occuring('L'),
            CharMatch::Correct('L'),
            CharMatch::Occuring('A'),
            CharMatch::NotOccuring,
            CharMatch::Occuring('A'),
        ])
    );
}

#[test]
fn chars_gives_the_matches_of_either_tag() {
    let won = evaluate_guess("AB", "AB");
    assert_eq!(won.chars(), &vec![CharMatch::Correct('A'), CharMatch::Correct('B')]);
    let missed = evaluate_guess("BA", "AB");
    assert_eq!(missed.chars(), &vec![CharMatch::Occuring('B'), CharMatch::Occuring('A')]);
}
