//! Choosing the hidden word.
//!
//! The candidates come as one text, a word per line. Which line is taken is
//! left to chance; whichever it is, the word is one of the lines.

use vstd::prelude::*;
use vstd::string::*;
use rand::seq::IteratorRandom;
use crate::text::{char_at, texts, to_chars};

verus! {

/// The index of the first line feed of `s` at or after `from`; the length of
/// `s` where there is none.
pub open spec fn line_end(s: Seq<char>, from: int) -> int
    decreases s.len() - from,
{
    if from >= s.len() {
        s.len() as int
    } else if s[from] == '\n' {
        from
    } else {
        line_end(s, from + 1)
    }
}

/// The line that runs from `from` up to its end at `end`. Where the line ends
/// in a line feed, a carriage return right before it is no part of the line.
pub open spec fn line_text(s: Seq<char>, from: int, end: int) -> Seq<char> {
    if from < end < s.len() && s[end - 1] == '\r' {
        s.subrange(from, end - 1)
    } else {
        s.subrange(from, end)
    }
}

/// The lines of `s` that start at or after `from`.
pub open spec fn lines_from(s: Seq<char>, from: int) -> Seq<Seq<char>>
    decreases s.len() - from,
{
    let end = line_end(s, from);
    if from >= s.len() || end < from {
        Seq::empty()
    } else if end >= s.len() {
        seq![line_text(s, from, end)]
    } else {
        seq![line_text(s, from, end)] + lines_from(s, end + 1)
    }
}

/// The lines of a text. A line ends at a line feed, or at a carriage return
/// followed by a line feed; neither is part of the line. The last line need
/// not be ended, and the empty text has no line.
pub open spec fn text_lines(s: Seq<char>) -> Seq<Seq<char>> {
    lines_from(s, 0)
}

/// A line ends at or after its start, at a line feed or at the end of the
/// text, and holds no line feed before that.
proof fn lemma_line_end_bounds(s: Seq<char>, from: int)
    requires
        0 <= from <= s.len(),
    ensures
        from <= line_end(s, from) <= s.len(),
        line_end(s, from) < s.len() ==> s[line_end(s, from)] == '\n',
        forall|k: int| from <= k < line_end(s, from) ==> s[k] != '\n',
    decreases s.len() - from,
{
    if from < s.len() && s[from] != '\n' {
        lemma_line_end_bounds(s, from + 1);
    }
}

/// Skipping letters that are no line feeds does not move the end of the line.
proof fn lemma_line_end_skips(s: Seq<char>, from: int, k: int)
    requires
        0 <= from <= k <= s.len(),
        forall|j: int| from <= j < k ==> s[j] != '\n',
    ensures
        line_end(s, from) == line_end(s, k),
    decreases k - from,
{
    if from < k {
        lemma_line_end_skips(s, from + 1, k);
    }
}

/// A text has a line exactly when it is not empty, and no line holds a line
/// feed.
pub proof fn lemma_lines(s: Seq<char>)
    ensures
        text_lines(s).len() > 0 <==> s.len() > 0,
        forall|i: int| 0 <= i < text_lines(s).len() ==> !(#[trigger] text_lines(s)[i]).contains('\n'),
{
    lemma_lines_from(s, 0);
}

/// What `lemma_lines` says, for the lines from any start.
proof fn lemma_lines_from(s: Seq<char>, from: int)
    requires
        0 <= from,
    ensures
        lines_from(s, from).len() > 0 <==> from < s.len(),
        forall|i: int|
            0 <= i < lines_from(s, from).len() ==> !(#[trigger] lines_from(s, from)[i]).contains(
                '\n',
            ),
    decreases s.len() - from,
{
    if from < s.len() {
        lemma_line_end_bounds(s, from);
        let end = line_end(s, from);
        let first = line_text(s, from, end);
        let rest = if end < s.len() {
            lines_from(s, end + 1)
        } else {
            Seq::empty()
        };
        if end < s.len() {
            lemma_lines_from(s, end + 1);
        }
        assert(lines_from(s, from) =~= seq![first] + rest);
        assert(forall|k: int| 0 <= k < first.len() ==> first[k] != '\n');
        assert forall|i: int| 0 <= i < lines_from(s, from).len() implies !(
        #[trigger] lines_from(s, from)[i]).contains('\n') by {
            if i > 0 {
                assert(lines_from(s, from)[i] == rest[i - 1]);
            }
        }
    }
}

/// Splits `s` into its lines.
pub fn split_lines(s: &str) -> (lines: Vec<String>)
    ensures
        texts(lines@) == text_lines(s@),
{
    let chars: Vec<char> = to_chars(s);
    let n: usize = chars.len();
    let mut lines: Vec<String> = Vec::new();
    let mut from: usize = 0;
    while from < n
        invariant
            from <= n,
            n == s@.len(),
            chars@ == s@,
            texts(lines@) + lines_from(s@, from as int) == text_lines(s@),
        decreases n - from,
    {
        let mut end: usize = from;
        while end < n && char_at(&chars, end) != '\n'
            invariant
                from <= end <= n,
                n == s@.len(),
                chars@ == s@,
                forall|k: int| from <= k < end ==> s@[k] != '\n',
            decreases n - end,
        {
            end += 1;
        }
        proof {
            lemma_line_end_skips(s@, from as int, end as int);
        }
        let stop: usize = if from < end && end < n && char_at(&chars, end - 1) == '\r' {
            end - 1
        } else {
            end
        };
        let line: String = s.substring_char(from, stop).to_owned();
        let ghost before = lines@;
        lines.push(line);
        let next: usize = if end < n {
            end + 1
        } else {
            n
        };
        proof {
            assert(line@ == line_text(s@, from as int, end as int));
            assert(lines_from(s@, from as int) =~= seq![line@] + lines_from(s@, next as int));
            assert(texts(lines@) =~= texts(before).push(line@));
            assert(texts(lines@) + lines_from(s@, next as int) =~= texts(before) + lines_from(
                s@,
                from as int,
            ));
        }
        from = next;
    }
    assert(texts(lines@) =~= texts(lines@) + lines_from(s@, from as int));
    lines
}

/// Calls `IteratorRandom::choose` of the crate `rand` on the range below `n`,
/// with the thread's generator. Trusted: nothing comes back when the range is
/// empty, and otherwise a number below `n`; which one is not said.
#[verifier::external_body]
fn choose_index(n: usize) -> (r: Option<usize>)
    ensures
        n == 0 ==> r is None,
        n > 0 ==> r is Some && r->Some_0 < n,
{
    (0..n).choose(&mut rand::thread_rng())
}

/// The word at `index` of `lines`.
pub fn word_at(lines: &Vec<String>, index: usize) -> (word: String)
    requires
        index < lines@.len(),
    ensures
        word@ == lines@[index as int]@,
        word@ == texts(lines@)[index as int],
{
    lines[index].clone()
}

/// Picks one line of `solutions` at random, if it has any.
pub fn try_pick_word(solutions: &str) -> (picked: Option<String>)
    ensures
        picked is None <==> solutions@.len() == 0,
        picked is Some ==> text_lines(solutions@).contains(picked->Some_0@),
{
    let lines: Vec<String> = split_lines(solutions);
    proof {
        lemma_lines(solutions@);
    }
    assert(texts(lines@).len() == lines@.len());
    match choose_index(lines.len()) {
        Some(index) => {
            let word: String = word_at(&lines, index);
            assert(text_lines(solutions@)[index as int] == word@);
            Some(word)
        },
        None => None,
    }
}

/// Picks one line of `solutions` at random.
pub fn pick_word(solutions: &str) -> (word: String)
    requires
        solutions@.len() > 0,
    ensures
        text_lines(solutions@).contains(word@),
{
    match try_pick_word(solutions) {
        Some(word) => word,
        None => String::new(),
    }
}

} // verus!
