//! What holds of every evaluation and of every session's keys.

use crate::digest::digest_of;
use crate::error::AppError;
use crate::game::is_verdict;
use crate::scoring::{
    claimed, classify, evaluation, lemma_spare_monotone, lemma_spare_witness, reveal_token, score,
    spare, GuessResult, Match,
};
use crate::store::{field_key, hex_digit, hex_text, hyphenated, keys_of};
use vstd::prelude::*;
use vstd::utf8::encode_utf8;

verus! {

/// The number of positions before `upto` that hold `c`.
pub open spec fn occurrences(text: Seq<u8>, c: u8, upto: int) -> nat
    decreases upto,
{
    if upto <= 0 {
        0
    } else if text[upto - 1] == c {
        occurrences(text, c, upto - 1) + 1
    } else {
        occurrences(text, c, upto - 1)
    }
}

/// The number of positions of `guess` before `upto` that hold `c` and are
/// classified exact or close.
pub open spec fn matched(guess: Seq<u8>, solution: Seq<u8>, c: u8, upto: int) -> nat
    decreases upto,
{
    if upto <= 0 {
        0
    } else if guess[upto - 1] == c && classify(guess, solution, upto - 1) != Match::Wrong {
        matched(guess, solution, c, upto - 1) + 1
    } else {
        matched(guess, solution, c, upto - 1)
    }
}

/// Scoring is positional: there is one classification for each position of
/// the guess, and a position is exact precisely when guess and solution agree
/// there.
pub proof fn lemma_exact_where_equal(guess: Seq<u8>, solution: Seq<u8>, i: int)
    requires
        guess.len() == solution.len(),
        0 <= i < guess.len(),
    ensures
        score(guess, solution).len() == guess.len(),
        score(guess, solution)[i] == Match::Exact <==> guess[i] == solution[i],
{
}

/// The matches before `upto` are paid for by the exact agreements before
/// `upto` and by the solution's spare occurrences.
proof fn lemma_matched_bound(guess: Seq<u8>, solution: Seq<u8>, c: u8, upto: int)
    requires
        guess.len() == solution.len(),
        0 <= upto <= guess.len(),
    ensures
        matched(guess, solution, c, upto) + spare(solution, guess, c, upto) <= occurrences(
            solution,
            c,
            upto,
        ) + spare(guess, solution, c, upto),
        matched(guess, solution, c, upto) + spare(solution, guess, c, upto) <= occurrences(
            solution,
            c,
            upto,
        ) + spare(solution, guess, c, solution.len() as int),
    decreases upto,
{
    if upto > 0 {
        lemma_matched_bound(guess, solution, c, upto - 1);
    }
}

/// For every letter, the positions of the guess that hold it and are
/// classified exact or close are no more than its occurrences in the
/// solution.
pub proof fn lemma_matches_within_occurrences(guess: Seq<u8>, solution: Seq<u8>, c: u8)
    requires
        guess.len() == solution.len(),
    ensures
        matched(guess, solution, c, guess.len() as int) <= occurrences(
            solution,
            c,
            solution.len() as int,
        ),
{
    lemma_matched_bound(guess, solution, c, guess.len() as int);
}

/// A digest scored against itself is exact in every position and earns the
/// reveal token, which is not empty; any other guess earns no token.
pub proof fn lemma_token_iff_solved(input: Seq<char>, solution: Seq<char>)
    ensures
        forall|i: int|
            0 <= i < encode_utf8(solution).len() ==> evaluation(solution, solution).guess[i]
                == Match::Exact,
        evaluation(solution, solution).key == Some(reveal_token()),
        reveal_token().len() > 0,
        input != solution ==> evaluation(input, solution).key is None,
{
    reveal_strlit("31abhtykwu");
}

/// Scoring is deterministic: two results for the same guess and solution
/// hold the same digest, classifications and token.
pub proof fn lemma_evaluation_deterministic(
    first: GuessResult,
    second: GuessResult,
    input: Seq<char>,
    solution: Seq<char>,
)
    requires
        first@ == evaluation(input, solution),
        second@ == evaluation(input, solution),
    ensures
        first@ == second@,
        first.guess@.len() == encode_utf8(input).len(),
{
}

/// Letters match once: every position of the guess that is exact or close
/// lays claim to a position of the solution that holds its letter, and no two
/// of them claim the same one.
pub proof fn lemma_claims_distinct(guess: Seq<u8>, solution: Seq<u8>, i: int, j: int)
    requires
        guess.len() == solution.len(),
        0 <= i < guess.len(),
        0 <= j < guess.len(),
        i != j,
        score(guess, solution)[i] != Match::Wrong,
        score(guess, solution)[j] != Match::Wrong,
    ensures
        0 <= claimed(guess, solution, i) < solution.len(),
        solution[claimed(guess, solution, i)] == guess[i],
        claimed(guess, solution, i) != claimed(guess, solution, j),
{
    lemma_claim_sound(guess, solution, i);
    lemma_claim_sound(guess, solution, j);
    let a = claimed(guess, solution, i);
    let b = claimed(guess, solution, j);
    if guess[i] != solution[i] && guess[j] != solution[j] && guess[i] == guess[j] {
        let c = guess[i];
        if i < j {
            assert(spare(guess, solution, c, i + 1) == spare(guess, solution, c, i) + 1);
            lemma_spare_monotone(guess, solution, c, i + 1, j);
        } else {
            assert(spare(guess, solution, c, j + 1) == spare(guess, solution, c, j) + 1);
            lemma_spare_monotone(guess, solution, c, j + 1, i);
        }
    }
}

/// What holds of the position that a matched position claims.
proof fn lemma_claim_sound(guess: Seq<u8>, solution: Seq<u8>, i: int)
    requires
        guess.len() == solution.len(),
        0 <= i < guess.len(),
        score(guess, solution)[i] != Match::Wrong,
    ensures
        0 <= claimed(guess, solution, i) < solution.len(),
        solution[claimed(guess, solution, i)] == guess[i],
        guess[i] == solution[i] ==> claimed(guess, solution, i) == i,
        guess[i] != solution[i] ==> guess[claimed(guess, solution, i)] != guess[i] && spare(
            solution,
            guess,
            guess[i],
            claimed(guess, solution, i),
        ) == spare(guess, solution, guess[i], i),
{
    if guess[i] != solution[i] {
        let k = lemma_spare_witness(
            solution,
            guess,
            guess[i],
            solution.len() as int,
            spare(guess, solution, guess[i], i),
        );
    }
}

/// The hexadecimal text of `bytes` has two digits for each byte.
proof fn lemma_hex_text_len(bytes: Seq<u8>)
    ensures
        hex_text(bytes).len() == 2 * bytes.len(),
    decreases bytes.len(),
{
    if bytes.len() > 0 {
        lemma_hex_text_len(bytes.drop_last());
    }
}

/// Byte sequences of one length with the same hexadecimal text are the same.
proof fn lemma_hex_text_injective(a: Seq<u8>, b: Seq<u8>)
    requires
        a.len() == b.len(),
        hex_text(a) == hex_text(b),
    ensures
        a == b,
    decreases a.len(),
{
    if a.len() > 0 {
        let front_a = hex_text(a.drop_last());
        let front_b = hex_text(b.drop_last());
        let n = 2 * (a.len() - 1);
        lemma_hex_text_len(a.drop_last());
        lemma_hex_text_len(b.drop_last());
        assert(front_a =~= hex_text(a).subrange(0, n));
        assert(front_b =~= hex_text(b).subrange(0, n));
        lemma_hex_text_injective(a.drop_last(), b.drop_last());
        assert(hex_text(a)[n] == hex_digit(a.last() as int / 16));
        assert(hex_text(b)[n] == hex_digit(b.last() as int / 16));
        assert(hex_text(a)[n + 1] == hex_digit(a.last() as int % 16));
        assert(hex_text(b)[n + 1] == hex_digit(b.last() as int % 16));
        lemma_hex_digit_injective(a.last() as int / 16, b.last() as int / 16);
        lemma_hex_digit_injective(a.last() as int % 16, b.last() as int % 16);
        assert(a.last() == b.last());
        assert(a =~= a.drop_last().push(a.last()));
        assert(b =~= b.drop_last().push(b.last()));
    } else {
        assert(a =~= b);
    }
}

/// Different values below 16 have different digits.
proof fn lemma_hex_digit_injective(x: int, y: int)
    requires
        0 <= x < 16,
        0 <= y < 16,
        hex_digit(x) == hex_digit(y),
    ensures
        x == y,
{
    assert(hex_digit(x) as int == if x < 10 {
        0x30 + x
    } else {
        0x61 + x - 10
    });
    assert(hex_digit(y) as int == if y < 10 {
        0x30 + y
    } else {
        0x61 + y - 10
    });
}

/// Identifiers with the same hyphenated text are the same.
proof fn lemma_hyphenated_injective(a: Seq<u8>, b: Seq<u8>)
    requires
        a.len() == 16,
        b.len() == 16,
        hyphenated(a) == hyphenated(b),
    ensures
        a == b,
{
    lemma_hyphenated_parts(a);
    lemma_hyphenated_parts(b);
    lemma_hex_text_injective(a.subrange(0, 4), b.subrange(0, 4));
    lemma_hex_text_injective(a.subrange(4, 6), b.subrange(4, 6));
    lemma_hex_text_injective(a.subrange(6, 8), b.subrange(6, 8));
    lemma_hex_text_injective(a.subrange(8, 10), b.subrange(8, 10));
    lemma_hex_text_injective(a.subrange(10, 16), b.subrange(10, 16));
    assert forall|i: int| 0 <= i < 16 implies a[i] == b[i] by {
        if i < 4 {
            assert(a[i] == a.subrange(0, 4)[i]);
            assert(b[i] == b.subrange(0, 4)[i]);
        } else if i < 6 {
            assert(a[i] == a.subrange(4, 6)[i - 4]);
            assert(b[i] == b.subrange(4, 6)[i - 4]);
        } else if i < 8 {
            assert(a[i] == a.subrange(6, 8)[i - 6]);
            assert(b[i] == b.subrange(6, 8)[i - 6]);
        } else if i < 10 {
            assert(a[i] == a.subrange(8, 10)[i - 8]);
            assert(b[i] == b.subrange(8, 10)[i - 8]);
        } else {
            assert(a[i] == a.subrange(10, 16)[i - 10]);
            assert(b[i] == b.subrange(10, 16)[i - 10]);
        }
    }
    assert(a =~= b);
}

/// Where the groups of digits stand in the hyphenated text.
proof fn lemma_hyphenated_parts(id: Seq<u8>)
    requires
        id.len() == 16,
    ensures
        hyphenated(id).len() == 36,
        hyphenated(id).subrange(0, 8) == hex_text(id.subrange(0, 4)),
        hyphenated(id).subrange(9, 13) == hex_text(id.subrange(4, 6)),
        hyphenated(id).subrange(14, 18) == hex_text(id.subrange(6, 8)),
        hyphenated(id).subrange(19, 23) == hex_text(id.subrange(8, 10)),
        hyphenated(id).subrange(24, 36) == hex_text(id.subrange(10, 16)),
{
    lemma_hex_text_len(id.subrange(0, 4));
    lemma_hex_text_len(id.subrange(4, 6));
    lemma_hex_text_len(id.subrange(6, 8));
    lemma_hex_text_len(id.subrange(8, 10));
    lemma_hex_text_len(id.subrange(10, 16));
    assert(hyphenated(id).subrange(0, 8) =~= hex_text(id.subrange(0, 4)));
    assert(hyphenated(id).subrange(9, 13) =~= hex_text(id.subrange(4, 6)));
    assert(hyphenated(id).subrange(14, 18) =~= hex_text(id.subrange(6, 8)));
    assert(hyphenated(id).subrange(19, 23) =~= hex_text(id.subrange(8, 10)));
    assert(hyphenated(id).subrange(24, 36) =~= hex_text(id.subrange(10, 16)));
}

/// A key tells its session and its field: two keys are the same only for
/// the same identifier and the same field.
pub proof fn lemma_key_names_one_field(
    a: Seq<u8>,
    field_a: Seq<char>,
    b: Seq<u8>,
    field_b: Seq<char>,
)
    requires
        a.len() == 16,
        b.len() == 16,
        field_key(a, field_a) == field_key(b, field_b),
    ensures
        a == b,
        field_a == field_b,
{
    reveal_strlit("game:");
    reveal_strlit(":");
    lemma_hyphenated_parts(a);
    lemma_hyphenated_parts(b);
    let key_a = field_key(a, field_a);
    let key_b = field_key(b, field_b);
    assert(key_a.subrange(5, 41) =~= hyphenated(a));
    assert(key_b.subrange(5, 41) =~= hyphenated(b));
    lemma_hyphenated_injective(a, b);
    assert(key_a.subrange(42, key_a.len() as int) =~= field_a);
    assert(key_b.subrange(42, key_b.len() as int) =~= field_b);
}

/// Sessions keep apart: the three keys of a session differ from one another,
/// and from every key of a session with another identifier.
pub proof fn lemma_sessions_keep_apart(a: Seq<u8>, b: Seq<u8>)
    requires
        a.len() == 16,
        b.len() == 16,
    ensures
        keys_of(a).guess_count != keys_of(a).salt,
        keys_of(a).guess_count != keys_of(a).password_digest,
        keys_of(a).salt != keys_of(a).password_digest,
        a != b ==> {
            let own = keys_of(a);
            let other = keys_of(b);
            &&& own.guess_count != other.guess_count
            &&& own.guess_count != other.salt
            &&& own.guess_count != other.password_digest
            &&& own.salt != other.guess_count
            &&& own.salt != other.salt
            &&& own.salt != other.password_digest
            &&& own.password_digest != other.guess_count
            &&& own.password_digest != other.salt
            &&& own.password_digest != other.password_digest
        },
{
    reveal_strlit("guess_count");
    reveal_strlit("salt");
    reveal_strlit("password_digest");
    let count = "guess_count"@;
    let salt = "salt"@;
    let digest = "password_digest"@;
    assert(count.len() != salt.len() && count.len() != digest.len() && salt.len() != digest.len());
    if keys_of(a).guess_count == keys_of(a).salt {
        lemma_key_names_one_field(a, count, a, salt);
    }
    if keys_of(a).guess_count == keys_of(a).password_digest {
        lemma_key_names_one_field(a, count, a, digest);
    }
    if keys_of(a).salt == keys_of(a).password_digest {
        lemma_key_names_one_field(a, salt, a, digest);
    }
    if a != b {
        if field_key(a, count) == field_key(b, count) {
            lemma_key_names_one_field(a, count, b, count);
        }
        if field_key(a, count) == field_key(b, salt) {
            lemma_key_names_one_field(a, count, b, salt);
        }
        if field_key(a, count) == field_key(b, digest) {
            lemma_key_names_one_field(a, count, b, digest);
        }
        if field_key(a, salt) == field_key(b, count) {
            lemma_key_names_one_field(a, salt, b, count);
        }
        if field_key(a, salt) == field_key(b, salt) {
            lemma_key_names_one_field(a, salt, b, salt);
        }
        if field_key(a, salt) == field_key(b, digest) {
            lemma_key_names_one_field(a, salt, b, digest);
        }
        if field_key(a, digest) == field_key(b, count) {
            lemma_key_names_one_field(a, digest, b, count);
        }
        if field_key(a, digest) == field_key(b, salt) {
            lemma_key_names_one_field(a, digest, b, salt);
        }
        if field_key(a, digest) == field_key(b, digest) {
            lemma_key_names_one_field(a, digest, b, digest);
        }
    }
}

/// The password wins: the verdict on the digest of the password itself, under
/// the session's salt, is an evaluation that is exact in every position and
/// carries the reveal token.
pub proof fn lemma_password_wins(
    out: Result<GuessResult, AppError>,
    password: Seq<char>,
    salt: Seq<char>,
)
    requires
        is_verdict(out, digest_of(password, salt), digest_of(password, salt)),
    ensures
        out is Ok,
        out->Ok_0@.key == Some(reveal_token()),
        forall|i: int| 0 <= i < out->Ok_0@.guess.len() ==> out->Ok_0@.guess[i] == Match::Exact,
{
    lemma_token_iff_solved(digest_of(password, salt), digest_of(password, salt));
}

} // verus!
