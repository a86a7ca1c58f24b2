use garble::{
    evaluate_guess, join_tokens, normalize_guess, stringify_char_result, stringify_guess_result,
    CharMatch, GuessResult,
};

fn green(text: &str) -> String {
    format!("\u{1b}[32m{}\u{1b}[0m", text)
}

fn yellow(text: &str) -> String {
    format!("\u{1b}[33m{}\u{1b}[0m", text)
}

#[test]
fn tokens_with_paint_on_and_off() {
    colored::control::set_override(true);
    assert_eq!(stringify_char_result(&CharMatch::Correct('a')), green("A"));
    assert_eq!(stringify_char_result(&CharMatch::Occuring('B')), yellow("b"));
    assert_eq!(stringify_char_result(&CharMatch::NotOccuring), "_");
    let line = stringify_guess_result(&evaluate_guess("ERASE", "SPEED"));
    assert_eq!(line, format!("{} _ _ {} {}", yellow("e"), yellow("s"), yellow("e")));
    let line = stringify_guess_result(&evaluate_guess("AB", "AB"));
    assert_eq!(line, format!("{} {}", green("A"), green("B")));

    colored::control::set_override(false);
    assert_eq!(stringify_char_result(&CharMatch::Correct('a')), "A");
    assert_eq!(stringify_char_result(&CharMatch::Occuring('B')), "b");
    assert_eq!(stringify_char_result(&CharMatch::NotOccuring), "_");
    let line = stringify_guess_result(&evaluate_guess("ERASE", "SPEED"));
    assert_eq!(line, "e _ _ s e");
    let line = stringify_guess_result(&evaluate_guess("EERIE", "CRANE"));
    assert_eq!(line, "_ _ r _ E");
    colored::control::unset_override();
}

#[test]
fn absent_letters_show_as_underscores() {
    let line = stringify_guess_result(&GuessResult::Incorrect(vec![CharMatch::NotOccuring; 3]));
    assert_eq!(line, "_ _ _");
}

#[test]
fn an_empty_result_shows_as_an_empty_line() {
    assert_eq!(stringify_guess_result(&GuessResult::Correct(vec![])), "");
}

#[test]
fn a_token_is_plain_or_wrapped_in_its_colour() {
    let hit = stringify_char_result(&CharMatch::Correct('q'));
    assert!(hit == "Q" || hit == green("Q"), "{hit:?}");
    let near = stringify_char_result(&CharMatch::Occuring('Q'));
    assert!(near == "q" || near == yellow("q"), "{near:?}");
}

#[test]
fn tokens_are_joined_by_single_spaces() {
    assert_eq!(join_tokens(&vec![]), "");
    assert_eq!(join_tokens(&vec!["A".to_string()]), "A");
    assert_eq!(
        join_tokens(&vec!["A".to_string(), "".to_string(), "bc".to_string()]),
        "A  bc"
    );
}

#[test]
fn raw_input_is_trimmed_and_put_in_upper_case() {
    assert_eq!(normalize_guess("  crane \n"), "CRANE");
    assert_eq!(normalize_guess("Speed"), "SPEED");
    assert_eq!(normalize_guess("\t\r\n"), "");
    assert_eq!(normalize_guess("a b"), "A B");
}
