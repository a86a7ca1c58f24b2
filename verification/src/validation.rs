//! Admitting a guess before it is scored.
//!
//! A guess is admitted when it has the length of the solution and stands in
//! the list of accepted words. The list is modelled as the set of the texts it
//! holds: order and repetition in it mean nothing.

use vstd::prelude::*;
use vstd::string::*;
use crate::text::{decimal, decimal_digits};

verus! {

/// Why a guess was turned away.
#[derive(Debug, Clone, Copy, PartialEq, Eq, Structural)]
pub enum ValidationError {
    /// The guess does not have the required number of letters, which is
    /// carried along.
    WrongLength(usize),
    /// The guess has the right length but is not an accepted word.
    NotInDictionary,
}

impl ValidationError {
    /// What the player is told.
    pub open spec fn message_text(self) -> Seq<char> {
        match self {
            ValidationError::WrongLength(n) => "Your guess must be "@ + decimal_digits(n as nat)
                + " letters long."@,
            ValidationError::NotInDictionary => "Your guess must be an English word."@,
        }
    }

    /// What the player is told.
    pub fn message(&self) -> (r: String)
        ensures
            r@ == self.message_text(),
    {
        match self {
            ValidationError::WrongLength(n) => {
                let mut text: String = "Your guess must be ".to_owned();
                let digits: String = decimal(*n);
                text.append(digits.as_str());
                text.append(" letters long.");
                text
            },
            ValidationError::NotInDictionary => "Your guess must be an English word.".to_owned(),
        }
    }
}

/// Whether some entry of `list` reads `word`.
pub open spec fn listed(list: Seq<String>, word: Seq<char>) -> bool {
    exists|i: int| 0 <= i < list.len() && (#[trigger] list[i])@ == word
}

/// The accepted words, as a set of texts.
pub open spec fn dictionary(list: Seq<String>) -> Set<Seq<char>> {
    Set::new(|word: Seq<char>| listed(list, word))
}

/// The verdict on a guess of text `guess`, given the required length and
/// whether the word is listed: `None` admits it.
pub open spec fn verdict(word_length: usize, guess: Seq<char>, is_listed: bool) -> Option<
    ValidationError,
> {
    if guess.len() != word_length {
        Some(ValidationError::WrongLength(word_length))
    } else if !is_listed {
        Some(ValidationError::NotInDictionary)
    } else {
        None
    }
}

/// Whether `word` stands in `list`.
pub fn contains_word(list: &Vec<String>, word: &str) -> (found: bool)
    ensures
        found == listed(list@, word@),
        found == dictionary(list@).contains(word@),
{
    let owned: String = word.to_owned();
    let mut i: usize = 0;
    while i < list.len()
        invariant
            i <= list.len(),
            owned@ == word@,
            forall|j: int| 0 <= j < i ==> (#[trigger] list@[j])@ != word@,
        decreases list.len() - i,
    {
        if list[i] == owned {
            return true;
        }
        i += 1;
    }
    false
}

/// Admits `guess` or says why not. The length is tested first; a guess that
/// passes comes back unchanged.
pub fn validate_guess<'a>(word_length: usize, guess: &'a str, allow_list: &Vec<String>) -> (r:
    Result<&'a str, ValidationError>)
    ensures
        guess@.len() != word_length ==> r == Err::<&'a str, ValidationError>(
            ValidationError::WrongLength(word_length),
        ),
        !listed(allow_list@, guess@) ==> r is Err,
        match verdict(word_length, guess@, listed(allow_list@, guess@)) {
            Some(e) => r == Err::<&'a str, ValidationError>(e),
            None => r == Ok::<&'a str, ValidationError>(guess),
        },
{
    let is_correct_length: bool = guess.unicode_len() == word_length;
    let is_in_list: bool = contains_word(allow_list, guess);
    if !is_correct_length {
        return Err(ValidationError::WrongLength(word_length));
    }
    if !is_in_list {
        return Err(ValidationError::NotInDictionary);
    }
    Ok(guess)
}

} // verus!
