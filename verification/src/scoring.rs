//! Scoring a guess against the solution, letter by letter.

use vstd::prelude::*;
use vstd::utf8::{encode_utf8, encode_utf8_decode_utf8};

verus! {

/// How one letter of a guess stands against the solution.
#[derive(Clone, Copy, Debug, PartialEq, Eq, Hash, PartialOrd, Ord, Structural)]
pub enum Match {
    /// The letter is in the correct position.
    Exact,
    /// The letter is in the solution but not in this position.
    Close,
    /// The letter is not in the solution, or all its occurrences are used up.
    Wrong,
}

/// A scored guess.
#[derive(Debug)]
pub struct GuessResult {
    /// The digest that was scored.
    pub hash: String,
    /// One classification for each byte of `hash`.
    pub guess: Vec<Match>,
    /// The reveal token, present only when the guess is the solution.
    pub key: Option<String>,
}

/// What a scored guess holds, as mathematical values.
pub struct Evaluation {
    pub hash: Seq<char>,
    pub guess: Seq<Match>,
    pub key: Option<Seq<char>>,
}

impl View for GuessResult {
    type V = Evaluation;

    open spec fn view(&self) -> Evaluation {
        Evaluation {
            hash: self.hash@,
            guess: self.guess@,
            key: match self.key {
                Some(key) => Some(key@),
                None => None,
            },
        }
    }
}

/// The token handed out with a guess that matches in every position.
pub open spec fn reveal_token() -> Seq<char> {
    "31abhtykwu"@
}

/// The number of positions before `upto` at which `own` holds `c` and `other`
/// does not: the occurrences of `c` in `own` that no exact match accounts for.
pub open spec fn spare(own: Seq<u8>, other: Seq<u8>, c: u8, upto: int) -> nat
    decreases upto,
{
    if upto <= 0 {
        0
    } else if own[upto - 1] == c && other[upto - 1] != c {
        spare(own, other, c, upto - 1) + 1
    } else {
        spare(own, other, c, upto - 1)
    }
}

/// The classification of position `i` of `guess` against `solution`.
///
/// A position that agrees with the solution is exact. Any other position is
/// close as long as the solution still has a spare occurrence of its letter
/// left over by the earlier positions of the guess that ask for the same
/// letter, and wrong once they are used up.
pub open spec fn classify(guess: Seq<u8>, solution: Seq<u8>, i: int) -> Match
    recommends
        guess.len() == solution.len(),
        0 <= i < guess.len(),
{
    let c = guess[i];
    if solution[i] == c {
        Match::Exact
    } else if spare(guess, solution, c, i) < spare(solution, guess, c, solution.len() as int) {
        Match::Close
    } else {
        Match::Wrong
    }
}

/// The classifications of all positions of `guess`, in order.
pub open spec fn score(guess: Seq<u8>, solution: Seq<u8>) -> Seq<Match>
    recommends
        guess.len() == solution.len(),
{
    Seq::new(guess.len(), |i: int| classify(guess, solution, i))
}

/// The evaluation of the guess digest `input` against the digest `solution`:
/// the guess itself, the classification of each of its bytes, and the reveal
/// token exactly when the two digests are the same.
pub open spec fn evaluation(input: Seq<char>, solution: Seq<char>) -> Evaluation
    recommends
        encode_utf8(input).len() == encode_utf8(solution).len(),
{
    Evaluation {
        hash: input,
        guess: score(encode_utf8(input), encode_utf8(solution)),
        key: if input == solution {
            Some(reveal_token())
        } else {
            None
        },
    }
}

/// The position of the solution that position `i` of the guess lays claim to,
/// for a position that is not wrong: its own for an exact match, and for a
/// close one the spare occurrence of its letter whose rank among the spare
/// ones equals the rank of `i` among the guess's spare askers.
pub open spec fn claimed(guess: Seq<u8>, solution: Seq<u8>, i: int) -> int
    recommends
        guess.len() == solution.len(),
        0 <= i < guess.len(),
{
    if solution[i] == guess[i] {
        i
    } else {
        choose|k: int|
            0 <= k < solution.len() && solution[k] == guess[i] && guess[k] != guess[i] && spare(
                solution,
                guess,
                guess[i],
                k,
            ) == spare(guess, solution, guess[i], i)
    }
}

/// The state of solution position `k` in the working copy once the positions
/// of the guess before `done` have made their claims: `None` where an exact
/// match or one of those claims has used it up, its byte otherwise.
spec fn slot(guess: Seq<u8>, solution: Seq<u8>, k: int, done: int) -> Option<u8> {
    if guess[k] == solution[k] || spare(solution, guess, solution[k], k) < spare(
        guess,
        solution,
        solution[k],
        done,
    ) {
        None
    } else {
        Some(solution[k])
    }
}

/// The count of spare occurrences grows with the bound.
pub proof fn lemma_spare_monotone(own: Seq<u8>, other: Seq<u8>, c: u8, from: int, upto: int)
    requires
        from <= upto,
    ensures
        spare(own, other, c, from) <= spare(own, other, c, upto),
    decreases upto - from,
{
    if from < upto {
        lemma_spare_monotone(own, other, c, from, upto - 1);
    }
}

/// A spare occurrence at `k` ranks strictly below the count at any later bound.
proof fn lemma_spare_strict(own: Seq<u8>, other: Seq<u8>, c: u8, k: int, upto: int)
    requires
        0 <= k < upto,
        own[k] == c,
        other[k] != c,
    ensures
        spare(own, other, c, k) < spare(own, other, c, upto),
{
    assert(spare(own, other, c, k + 1) == spare(own, other, c, k) + 1);
    lemma_spare_monotone(own, other, c, k + 1, upto);
}

/// Every rank below the count is taken by some spare occurrence.
pub proof fn lemma_spare_witness(own: Seq<u8>, other: Seq<u8>, c: u8, upto: int, rank: nat) -> (k:
    int)
    requires
        rank < spare(own, other, c, upto),
    ensures
        0 <= k < upto,
        own[k] == c,
        other[k] != c,
        spare(own, other, c, k) == rank,
    decreases upto,
{
    if rank < spare(own, other, c, upto - 1) {
        lemma_spare_witness(own, other, c, upto - 1, rank)
    } else {
        upto - 1
    }
}

/// Two different spare occurrences of one letter have different ranks.
proof fn lemma_spare_ranks_differ(own: Seq<u8>, other: Seq<u8>, c: u8, j: int, k: int)
    requires
        0 <= j,
        0 <= k,
        j != k,
        own[j] == c,
        other[j] != c,
        own[k] == c,
        other[k] != c,
    ensures
        spare(own, other, c, j) != spare(own, other, c, k),
{
    if j < k {
        lemma_spare_strict(own, other, c, j, k);
    } else {
        lemma_spare_strict(own, other, c, k, j);
    }
}

/// The first position of `work` that still holds `c`, if there is one.
fn first_open(work: &Vec<Option<u8>>, c: u8) -> (found: Option<usize>)
    ensures
        match found {
            Some(j) => j < work.len() && work@[j as int] == Some(c) && forall|k: int|
                0 <= k < j ==> work@[k] != Some(c),
            None => forall|k: int| 0 <= k < work.len() ==> work@[k] != Some(c),
        },
{
    let mut j: usize = 0;
    while j < work.len()
        invariant
            j <= work.len(),
            forall|k: int| 0 <= k < j ==> work@[k] != Some(c),
        decreases work.len() - j,
    {
        match work[j] {
            Some(b) => {
                if b == c {
                    return Some(j);
                }
            },
            None => {},
        }
        j += 1;
    }
    None
}

/// Whether every classification is `Exact`.
fn all_exact(diff: &Vec<Match>) -> (all: bool)
    ensures
        all <==> forall|k: int| 0 <= k < diff.len() ==> diff@[k] == Match::Exact,
{
    let mut k: usize = 0;
    while k < diff.len()
        invariant
            k <= diff.len(),
            forall|m: int| 0 <= m < k ==> diff@[m] == Match::Exact,
        decreases diff.len() - k,
    {
        if diff[k] != Match::Exact {
            return false;
        }
        k += 1;
    }
    true
}

/// The working copy and the classifications after the exact pass.
fn exact_pass(guess: &[u8], solution: &[u8]) -> (out: (Vec<Option<u8>>, Vec<Match>))
    requires
        guess.len() == solution.len(),
    ensures
        out.0.len() == guess.len(),
        out.1.len() == guess.len(),
        forall|k: int| 0 <= k < guess.len() ==> out.0@[k] == slot(guess@, solution@, k, 0),
        forall|k: int|
            0 <= k < guess.len() ==> out.1@[k] == if guess@[k] == solution@[k] {
                Match::Exact
            } else {
                Match::Wrong
            },
{
    let n = guess.len();
    let mut work: Vec<Option<u8>> = Vec::new();
    let mut diff: Vec<Match> = Vec::new();
    let mut i: usize = 0;
    while i < n
        invariant
            n == guess.len(),
            n == solution.len(),
            i <= n,
            work.len() == i,
            diff.len() == i,
            forall|k: int| 0 <= k < i ==> work@[k] == slot(guess@, solution@, k, 0),
            forall|k: int|
                0 <= k < i ==> diff@[k] == if guess@[k] == solution@[k] {
                    Match::Exact
                } else {
                    Match::Wrong
                },
        decreases n - i,
    {
        if solution[i] == guess[i] {
            work.push(None);
            diff.push(Match::Exact);
        } else {
            work.push(Some(solution[i]));
            diff.push(Match::Wrong);
        }
        i += 1;
    }
    (work, diff)
}

/// The classifications of `guess` against `solution`.
///
/// The exact matches are found first, and each uses up its position of the
/// solution. Then every other position of the guess, from left to right,
/// takes the first position of the solution that is still free and holds its
/// letter, and is close if there is one.
pub fn score_bytes(guess: &[u8], solution: &[u8]) -> (diff: Vec<Match>)
    requires
        guess.len() == solution.len(),
    ensures
        diff@ == score(guess@, solution@),
{
    let n = guess.len();
    let (mut work, mut diff) = exact_pass(guess, solution);
    let ghost g = guess@;
    let ghost p = solution@;
    let mut i: usize = 0;
    while i < n
        invariant
            n == guess.len(),
            n == solution.len(),
            g == guess@,
            p == solution@,
            i <= n,
            work.len() == n,
            diff.len() == n,
            forall|k: int| 0 <= k < n ==> work@[k] == slot(g, p, k, i as int),
            forall|k: int| 0 <= k < i ==> diff@[k] == classify(g, p, k),
            forall|k: int|
                i <= k < n ==> diff@[k] == if g[k] == p[k] {
                    Match::Exact
                } else {
                    Match::Wrong
                },
        decreases n - i,
    {
        let c = guess[i];
        let ghost asked = spare(g, p, c, i as int);
        let ghost before = work@;
        if diff[i] == Match::Wrong {
            assert(spare(g, p, c, i + 1) == asked + 1);
            match first_open(&work, c) {
                Some(j) => {
                    proof {
                        assert(before[j as int] == slot(g, p, j as int, i as int));
                        if asked < spare(p, g, c, j as int) {
                            let k = lemma_spare_witness(p, g, c, j as int, asked);
                            assert(before[k] == slot(g, p, k, i as int));
                        }
                        lemma_spare_strict(p, g, c, j as int, n as int);
                    }
                    work.set(j, None);
                    diff.set(i, Match::Close);
                    proof {
                        assert forall|k: int| 0 <= k < n implies work@[k] == slot(
                            g,
                            p,
                            k,
                            i + 1,
                        ) by {
                            assert(before[k] == slot(g, p, k, i as int));
                            if p[k] == c {
                                if g[k] != c && k != j {
                                    lemma_spare_ranks_differ(p, g, c, j as int, k);
                                }
                            } else {
                                assert(spare(g, p, p[k], i + 1) == spare(g, p, p[k], i as int));
                            }
                        }
                    }
                },
                None => {
                    proof {
                        if asked < spare(p, g, c, n as int) {
                            let k = lemma_spare_witness(p, g, c, n as int, asked);
                            assert(before[k] == slot(g, p, k, i as int));
                        }
                        assert forall|k: int| 0 <= k < n implies work@[k] == slot(
                            g,
                            p,
                            k,
                            i + 1,
                        ) by {
                            assert(before[k] == slot(g, p, k, i as int));
                            if p[k] != c {
                                assert(spare(g, p, p[k], i + 1) == spare(g, p, p[k], i as int));
                            }
                        }
                    }
                },
            }
        } else {
            proof {
                assert forall|k: int| 0 <= k < n implies work@[k] == slot(g, p, k, i + 1) by {
                    assert(before[k] == slot(g, p, k, i as int));
                    assert(spare(g, p, p[k], i + 1) == spare(g, p, p[k], i as int));
                }
            }
        }
        i += 1;
    }
    assert(diff@ =~= score(g, p));
    diff
}

/// Scores the guess digest `input` against the digest `solution`, byte by byte.
pub fn check_guess(input: String, solution: String) -> (result: GuessResult)
    requires
        encode_utf8(input@).len() == encode_utf8(solution@).len(),
    ensures
        result@ == evaluation(input@, solution@),
{
    let diff = score_bytes(input.as_str().as_bytes(), solution.as_str().as_bytes());
    let key = if all_exact(&diff) {
        Some("31abhtykwu".to_owned())
    } else {
        None
    };
    proof {
        lemma_all_exact_iff_same(encode_utf8(input@), encode_utf8(solution@));
        encode_utf8_decode_utf8(input@);
        encode_utf8_decode_utf8(solution@);
    }
    GuessResult { hash: input, guess: diff, key }
}

/// Every position is exact if and only if guess and solution are the same.
pub proof fn lemma_all_exact_iff_same(guess: Seq<u8>, solution: Seq<u8>)
    requires
        guess.len() == solution.len(),
    ensures
        (forall|i: int| 0 <= i < guess.len() ==> score(guess, solution)[i] == Match::Exact) <==> guess
            == solution,
{
    if guess == solution {
        assert forall|i: int| 0 <= i < guess.len() implies score(guess, solution)[i]
            == Match::Exact by {}
    }
    if forall|i: int| 0 <= i < guess.len() ==> score(guess, solution)[i] == Match::Exact {
        assert forall|i: int| 0 <= i < guess.len() implies guess[i] == solution[i] by {
            assert(score(guess, solution)[i] == Match::Exact);
        }
        assert(guess =~= solution);
    }
}

} // verus!
