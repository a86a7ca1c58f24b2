//! Scoring a guess against the solution.
//!
//! The model is positional. A position where guess and solution agree is an
//! exact hit. Every other position of the guess holds a misplaced candidate:
//! it is reported as occurring while the solution still has a spare copy of
//! that letter, a copy that no exact hit has claimed, and spares are handed
//! out from left to right.

use vstd::prelude::*;
use std::collections::HashMap;
use crate::text::{char_at, to_chars};

verus! {

/// What one letter of a guess turned out to be.
#[derive(Debug, Clone, Copy, PartialEq, Eq, Structural, PartialOrd, Ord)]
pub enum CharMatch {
    /// The letter stands at this very position of the solution.
    Correct(char),
    /// The letter stands elsewhere in the solution, on a copy not yet claimed.
    Occuring(char),
    /// The solution has no unclaimed copy of the letter.
    NotOccuring,
}

/// A scored guess: the per-letter matches, tagged by whether all are exact.
#[derive(Debug, PartialEq, Eq)]
pub enum GuessResult {
    Correct(Vec<CharMatch>),
    Incorrect(Vec<CharMatch>),
}

/// How many of the first `n` letters of `s` are `c`.
pub open spec fn occurrences(s: Seq<char>, c: char, n: int) -> nat
    decreases n,
{
    if n <= 0 {
        0
    } else {
        occurrences(s, c, n - 1) + (if s[n - 1] == c { 1nat } else { 0nat })
    }
}

/// How many of the first `n` positions hold `c` in both guess and solution.
pub open spec fn exact_hits(g: Seq<char>, s: Seq<char>, c: char, n: int) -> nat
    decreases n,
{
    if n <= 0 {
        0
    } else {
        exact_hits(g, s, c, n - 1) + (if g[n - 1] == c && s[n - 1] == c { 1nat } else { 0nat })
    }
}

/// How many of the first `n` positions hold `c` in the solution and another
/// letter in the guess: the copies of `c` that no exact hit claims.
pub open spec fn spare(g: Seq<char>, s: Seq<char>, c: char, n: int) -> nat
    decreases n,
{
    if n <= 0 {
        0
    } else {
        spare(g, s, c, n - 1) + (if s[n - 1] == c && g[n - 1] != c { 1nat } else { 0nat })
    }
}

/// How many of the first `n` positions hold `c` in the guess and another
/// letter in the solution.
pub open spec fn misplaced(g: Seq<char>, s: Seq<char>, c: char, n: int) -> nat
    decreases n,
{
    if n <= 0 {
        0
    } else {
        misplaced(g, s, c, n - 1) + (if g[n - 1] == c && s[n - 1] != c { 1nat } else { 0nat })
    }
}

/// The match of position `i` of guess `g` against solution `s`.
pub open spec fn classify(g: Seq<char>, s: Seq<char>, i: int) -> CharMatch {
    let c = g[i];
    if c == s[i] {
        CharMatch::Correct(c)
    } else if misplaced(g, s, c, i) < spare(g, s, c, s.len() as int) {
        CharMatch::Occuring(c)
    } else {
        CharMatch::NotOccuring
    }
}

/// The matches of all positions of `g` against `s`, in guess order.
pub open spec fn classification(g: Seq<char>, s: Seq<char>) -> Seq<CharMatch> {
    Seq::new(g.len(), |i: int| classify(g, s, i))
}

/// Every match is an exact hit.
pub open spec fn all_correct(ms: Seq<CharMatch>) -> bool {
    forall|i: int| 0 <= i < ms.len() ==> (#[trigger] ms[i]) is Correct
}

/// How many of the first `n` matches report the letter `c`, as an exact hit
/// or as occurring.
pub open spec fn reported(ms: Seq<CharMatch>, c: char, n: int) -> nat
    decreases n,
{
    if n <= 0 {
        0
    } else {
        reported(ms, c, n - 1) + (if ms[n - 1] == CharMatch::Correct(c) || ms[n - 1]
            == CharMatch::Occuring(c) { 1nat } else { 0nat })
    }
}

/// What the first pass leaves at position `i`: exact hits only.
spec fn exact_only(g: Seq<char>, s: Seq<char>, i: int) -> CharMatch {
    if g[i] == s[i] {
        CharMatch::Correct(g[i])
    } else {
        CharMatch::NotOccuring
    }
}

/// The count that a letter budget holds for `c`; an absent letter counts zero.
spec fn remaining(budget: Map<u32, usize>, c: char) -> nat {
    if budget.contains_key(c as u32) {
        budget[c as u32] as nat
    } else {
        0
    }
}

/// The spares still unclaimed after the misplaced candidates below `i`.
spec fn unclaimed(g: Seq<char>, s: Seq<char>, c: char, i: int) -> nat {
    if misplaced(g, s, c, i) < spare(g, s, c, s.len() as int) {
        (spare(g, s, c, s.len() as int) - misplaced(g, s, c, i)) as nat
    } else {
        0
    }
}

impl GuessResult {
    /// The per-letter matches, whatever the tag.
    pub open spec fn matches(self) -> Seq<CharMatch> {
        match self {
            GuessResult::Correct(v) => v@,
            GuessResult::Incorrect(v) => v@,
        }
    }

    /// The tag tells the truth: `Correct` exactly when every match is exact.
    pub open spec fn well_formed(self) -> bool {
        (self is Correct) <==> all_correct(self.matches())
    }

    /// Whether `self` is the score of guess `g` against solution `s`.
    pub open spec fn scores(self, g: Seq<char>, s: Seq<char>) -> bool {
        &&& self.matches() == classification(g, s)
        &&& (self is Correct) <==> g == s
    }

    /// The per-letter matches.
    pub fn chars(&self) -> (v: &Vec<CharMatch>)
        ensures
            v@ == self.matches(),
    {
        match self {
            GuessResult::Correct(v) => v,
            GuessResult::Incorrect(v) => v,
        }
    }

    /// Whether the guess was the solution.
    pub fn is_correct(&self) -> (b: bool)
        ensures
            b == (self is Correct),
    {
        match self {
            GuessResult::Correct(_) => true,
            GuessResult::Incorrect(_) => false,
        }
    }
}

/// Distinct letters have distinct keys in a letter budget.
proof fn lemma_key_injective(a: char, b: char)
    ensures
        a as u32 == b as u32 ==> a == b,
{
    vstd::utf8::char_u32_cast(a, a as u32);
    vstd::utf8::char_u32_cast(b, b as u32);
}

/// A longer prefix holds a letter at least as often, and no prefix holds it
/// more often than it is long.
proof fn lemma_occurrences_monotone(s: Seq<char>, c: char, i: int, n: int)
    requires
        0 <= i <= n,
    ensures
        occurrences(s, c, i) <= occurrences(s, c, n),
        occurrences(s, c, i) <= i,
    decreases n + i,
{
    if i < n {
        lemma_occurrences_monotone(s, c, i, n - 1);
    } else if i > 0 {
        lemma_occurrences_monotone(s, c, i - 1, n - 1);
    }
}

/// Each copy of a letter in the solution is either an exact hit or a spare.
proof fn lemma_solution_split(g: Seq<char>, s: Seq<char>, c: char, n: int)
    ensures
        occurrences(s, c, n) == exact_hits(g, s, c, n) + spare(g, s, c, n),
    decreases n,
{
    if n > 0 {
        lemma_solution_split(g, s, c, n - 1);
    }
}

/// Up to any position, the reports of a letter and the spares still unclaimed
/// add up to the exact hits so far and all the spares.
proof fn lemma_reported(g: Seq<char>, s: Seq<char>, c: char, n: int)
    requires
        g.len() == s.len(),
        0 <= n <= g.len(),
    ensures
        reported(classification(g, s), c, n) + unclaimed(g, s, c, n) == exact_hits(g, s, c, n)
            + spare(g, s, c, s.len() as int),
    decreases n,
{
    if n > 0 {
        lemma_reported(g, s, c, n - 1);
        assert(classification(g, s)[n - 1] == classify(g, s, n - 1));
    }
}

/// A guess scores all exact hits exactly when it is the solution.
pub proof fn lemma_all_correct_iff_equal(g: Seq<char>, s: Seq<char>)
    requires
        g.len() == s.len(),
    ensures
        all_correct(classification(g, s)) <==> g == s,
{
    let ms = classification(g, s);
    if all_correct(ms) {
        assert forall|i: int| 0 <= i < g.len() implies g[i] == s[i] by {
            assert(ms[i] is Correct);
        }
        assert(g =~= s);
    }
    if g == s {
        assert forall|i: int| 0 <= i < ms.len() implies (#[trigger] ms[i]) is Correct by {
            assert(ms[i] == classify(g, s, i));
        }
    }
}

/// Budget conservation: one score never reports a letter, as an exact hit or
/// as occurring, more often than the solution holds it.
pub proof fn lemma_budget_conservation(g: Seq<char>, s: Seq<char>, c: char)
    requires
        g.len() == s.len(),
    ensures
        reported(classification(g, s), c, g.len() as int) <= occurrences(s, c, s.len() as int),
{
    lemma_reported(g, s, c, g.len() as int);
    lemma_solution_split(g, s, c, s.len() as int);
}

/// Scoring is a function of the pair: two scores of the same guess against
/// the same solution carry the same tag and the same matches.
pub proof fn lemma_score_is_unique(a: GuessResult, b: GuessResult, g: Seq<char>, s: Seq<char>)
    requires
        a.scores(g, s),
        b.scores(g, s),
    ensures
        a.matches() == b.matches(),
        (a is Correct) == (b is Correct),
{
}

/// Whether every match in `ms` is an exact hit.
pub fn all_exact(ms: &Vec<CharMatch>) -> (b: bool)
    ensures
        b == all_correct(ms@),
{
    let mut i: usize = 0;
    while i < ms.len()
        invariant
            i <= ms.len(),
            forall|j: int| 0 <= j < i ==> (#[trigger] ms@[j]) is Correct,
        decreases ms.len() - i,
    {
        match ms[i] {
            CharMatch::Correct(_) => {},
            _ => {
                return false;
            },
        }
        i += 1;
    }
    true
}

/// The letter budget of a solution: for each letter, how often it occurs.
fn letter_budget(sol: &Vec<char>) -> (budget: HashMap<u32, usize>)
    ensures
        forall|c: char| #[trigger]
            remaining(budget@, c) == occurrences(sol@, c, sol@.len() as int),
{
    let n: usize = sol.len();
    let mut budget: HashMap<u32, usize> = HashMap::new();
    let mut i: usize = 0;
    while i < n
        invariant
            i <= n,
            n == sol@.len(),
            forall|c: char| #[trigger] remaining(budget@, c) == occurrences(sol@, c, i as int),
        decreases n - i,
    {
        let key: u32 = char_at(sol, i) as u32;
        let count: usize = match budget.get(&key) {
            Some(v) => *v,
            None => 0,
        };
        proof {
            assert(count == remaining(budget@, sol@[i as int]));
            lemma_occurrences_monotone(sol@, sol@[i as int], i as int, i as int);
        }
        let ghost before = budget@;
        budget.insert(key, count + 1);
        assert forall|c: char| #[trigger]
            remaining(budget@, c) == occurrences(sol@, c, i + 1) by {
            lemma_key_injective(c, sol@[i as int]);
            assert(remaining(before, c) == occurrences(sol@, c, i as int));
        }
        i += 1;
    }
    budget
}

/// Scores `guess` against `solution`.
///
/// Exact hits are settled first, over the whole word; each claims one copy of
/// its letter. The other letters of the guess are then served from left to
/// right with the copies that are left.
pub fn evaluate_guess(guess: &str, solution: &str) -> (r: GuessResult)
    requires
        guess@.len() == solution@.len(),
    ensures
        r.matches() == classification(guess@, solution@),
        (r is Correct) <==> guess@ == solution@,
        r.well_formed(),
{
    let gs: Vec<char> = to_chars(guess);
    let sol: Vec<char> = to_chars(solution);
    let ghost g = guess@;
    let ghost s = solution@;
    let n: usize = sol.len();
    let mut budget: HashMap<u32, usize> = letter_budget(&sol);
    let mut result: Vec<CharMatch> = Vec::new();

    let mut i: usize = 0;
    while i < n
        invariant
            i <= n,
            n == s.len(),
            g.len() == s.len(),
            gs@ == g,
            sol@ == s,
            result@.len() == i,
            forall|c: char| #[trigger]
                remaining(budget@, c) + exact_hits(g, s, c, i as int) == occurrences(
                    s,
                    c,
                    n as int,
                ),
            forall|j: int| 0 <= j < i ==> #[trigger] result@[j] == exact_only(g, s, j),
        decreases n - i,
    {
        let ghost before = budget@;
        let letter: char = char_at(&gs, i);
        if letter == char_at(&sol, i) {
            let key: u32 = letter as u32;
            let count: usize = match budget.get(&key) {
                Some(v) => *v,
                None => 0,
            };
            proof {
                let c = s[i as int];
                assert(count == remaining(before, c));
                lemma_solution_split(g, s, c, i + 1);
                lemma_occurrences_monotone(s, c, i + 1, n as int);
            }
            budget.insert(key, count - 1);
            result.push(CharMatch::Correct(letter));
        } else {
            result.push(CharMatch::NotOccuring);
        }
        assert forall|c: char| #[trigger]
            remaining(budget@, c) + exact_hits(g, s, c, i + 1) == occurrences(s, c, n as int) by {
            lemma_key_injective(c, s[i as int]);
            assert(remaining(before, c) + exact_hits(g, s, c, i as int) == occurrences(
                s,
                c,
                n as int,
            ));
        }
        i += 1;
    }

    proof {
        assert forall|c: char| #[trigger] remaining(budget@, c) == unclaimed(g, s, c, 0) by {
            assert(remaining(budget@, c) + exact_hits(g, s, c, n as int) == occurrences(
                s,
                c,
                n as int,
            ));
            lemma_solution_split(g, s, c, n as int);
        }
    }

    i = 0;
    while i < n
        invariant
            i <= n,
            n == s.len(),
            g.len() == s.len(),
            gs@ == g,
            sol@ == s,
            result@.len() == n,
            forall|c: char| #[trigger] remaining(budget@, c) == unclaimed(g, s, c, i as int),
            forall|j: int| 0 <= j < i ==> #[trigger] result@[j] == classify(g, s, j),
            forall|j: int| i <= j < n ==> #[trigger] result@[j] == exact_only(g, s, j),
        decreases n - i,
    {
        let ghost before = budget@;
        let letter: char = char_at(&gs, i);
        assert(result@[i as int] == exact_only(g, s, i as int));
        assert(remaining(before, letter) == unclaimed(g, s, letter, i as int));
        match result[i] {
            CharMatch::NotOccuring => {
                let key: u32 = letter as u32;
                match budget.get(&key) {
                    Some(v) => {
                        let count: usize = *v;
                        if count > 0 {
                            budget.insert(key, count - 1);
                            result.set(i, CharMatch::Occuring(letter));
                        }
                    },
                    None => {},
                }
            },
            _ => {},
        }
        assert forall|c: char| #[trigger]
            remaining(budget@, c) == unclaimed(g, s, c, i + 1) by {
            lemma_key_injective(c, letter);
            assert(remaining(before, c) == unclaimed(g, s, c, i as int));
        }
        assert(result@[i as int] == classify(g, s, i as int));
        i += 1;
    }

    proof {
        assert(result@ =~= classification(g, s));
        lemma_all_correct_iff_equal(g, s);
    }
    if all_exact(&result) {
        GuessResult::Correct(result)
    } else {
        GuessResult::Incorrect(result)
    }
}

} // verus!
