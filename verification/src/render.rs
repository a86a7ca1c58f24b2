//! Showing a scored guess as one line of text.
//!
//! Each match becomes a token: an exact hit its letter in upper case, painted
//! green; an occurring letter in lower case, painted yellow; anything else an
//! underscore. Tokens are joined by single spaces, in guess order. Whether
//! paint is applied is up to the terminal settings that the colouring crate
//! consults, so a painted token is known only up to that choice.

use vstd::prelude::*;
use vstd::string::*;
use colored::Colorize;
use crate::matching::{CharMatch, GuessResult};
use crate::text::{letter_text, lowercase, lowercase_text, texts, uppercase, uppercase_text};

verus! {

/// The escape sequence that ends all paint.
pub open spec fn reset_code() -> Seq<char> {
    seq!['\u{1b}', '[', '0', 'm']
}

/// The escape sequence that starts green text.
pub open spec fn green_code() -> Seq<char> {
    seq!['\u{1b}', '[', '3', '2', 'm']
}

/// The escape sequence that starts yellow text.
pub open spec fn yellow_code() -> Seq<char> {
    seq!['\u{1b}', '[', '3', '3', 'm']
}

/// Whether the reset sequence stands somewhere in `text`.
pub open spec fn holds_reset(text: Seq<char>) -> bool {
    exists|i: int|
        0 <= i && i + 4 <= text.len() && #[trigger] text.subrange(i, i + 4) == reset_code()
}

/// Whether `out` is `text` painted with `code`: either the paint is switched
/// off and `out` is `text` itself, or `out` is `text` between `code` and the
/// reset sequence. Nothing is said of a text that holds a reset sequence.
pub open spec fn painted(text: Seq<char>, code: Seq<char>, out: Seq<char>) -> bool {
    out == text || out == code + text + reset_code() || holds_reset(text)
}

/// Whether `token` shows the match `m`.
pub open spec fn is_token(m: CharMatch, token: Seq<char>) -> bool {
    match m {
        CharMatch::Correct(c) => painted(uppercase_text(seq![c]), green_code(), token),
        CharMatch::Occuring(c) => painted(lowercase_text(seq![c]), yellow_code(), token),
        CharMatch::NotOccuring => token == seq!['_'],
    }
}

/// Whether `tokens` show the matches `ms`, one for one.
pub open spec fn renders(ms: Seq<CharMatch>, tokens: Seq<Seq<char>>) -> bool {
    &&& tokens.len() == ms.len()
    &&& forall|i: int| 0 <= i < ms.len() ==> is_token(#[trigger] ms[i], tokens[i])
}

/// The first `n` of `tokens`, joined by single spaces.
pub open spec fn joined(tokens: Seq<Seq<char>>, n: int) -> Seq<char>
    decreases n,
{
    if n <= 0 {
        Seq::empty()
    } else if n == 1 {
        tokens[0]
    } else {
        joined(tokens, n - 1) + seq![' '] + tokens[n - 1]
    }
}

/// Calls `Colorize::green` of the crate `colored` and formats the result.
/// Trusted: with colouring off the text comes back as it is; with colouring
/// on it comes back between the green escape sequence and the reset sequence,
/// unless it holds a reset sequence itself.
#[verifier::external_body]
fn paint_green(s: &str) -> (r: String)
    ensures
        painted(s@, green_code(), r@),
{
    s.green().to_string()
}

/// Calls `Colorize::yellow` of the crate `colored` and formats the result.
/// Trusted: with colouring off the text comes back as it is; with colouring
/// on it comes back between the yellow escape sequence and the reset
/// sequence, unless it holds a reset sequence itself.
#[verifier::external_body]
fn paint_yellow(s: &str) -> (r: String)
    ensures
        painted(s@, yellow_code(), r@),
{
    s.yellow().to_string()
}

/// The token for one match.
pub fn stringify_char_result(result: &CharMatch) -> (r: String)
    ensures
        is_token(*result, r@),
{
    match result {
        CharMatch::Correct(c) => {
            let letter: String = letter_text(*c);
            let upper: String = uppercase(letter.as_str());
            paint_green(upper.as_str())
        },
        CharMatch::Occuring(c) => {
            let letter: String = letter_text(*c);
            let lower: String = lowercase(letter.as_str());
            paint_yellow(lower.as_str())
        },
        CharMatch::NotOccuring => {
            proof {
                reveal_strlit("_");
            }
            let r: String = "_".to_owned();
            assert(r@ =~= seq!['_']);
            r
        },
    }
}

/// Joins `tokens` by single spaces.
pub fn join_tokens(tokens: &Vec<String>) -> (r: String)
    ensures
        r@ == joined(texts(tokens@), tokens@.len() as int),
{
    let mut out: String = String::new();
    let mut i: usize = 0;
    while i < tokens.len()
        invariant
            i <= tokens.len(),
            out@ == joined(texts(tokens@), i as int),
        decreases tokens.len() - i,
    {
        let ghost before = out@;
        if i > 0 {
            proof {
                reveal_strlit(" ");
            }
            out.append(" ");
            assert(out@ =~= before + seq![' ']);
        }
        out.append(tokens[i].as_str());
        assert(texts(tokens@)[i as int] == tokens@[i as int]@);
        assert(out@ =~= joined(texts(tokens@), i + 1));
        i += 1;
    }
    out
}

/// The line that shows a scored guess: the tokens of its matches, in guess
/// order, joined by single spaces.
pub fn stringify_guess_result(result: &GuessResult) -> (r: String)
    ensures
        exists|tokens: Seq<Seq<char>>|
            renders(result.matches(), tokens) && r@ == #[trigger] joined(
                tokens,
                tokens.len() as int,
            ),
{
    let chars: &Vec<CharMatch> = result.chars();
    let mut tokens: Vec<String> = Vec::new();
    let mut i: usize = 0;
    while i < chars.len()
        invariant
            i <= chars.len(),
            tokens@.len() == i,
            forall|j: int| 0 <= j < i ==> is_token(#[trigger] chars@[j], tokens@[j]@),
        decreases chars.len() - i,
    {
        let token: String = stringify_char_result(&chars[i]);
        tokens.push(token);
        i += 1;
    }
    let r: String = join_tokens(&tokens);
    proof {
        let shown = texts(tokens@);
        assert(renders(result.matches(), shown));
        assert(r@ == joined(shown, shown.len() as int));
    }
    r
}

} // verus!
