//! Heuristic token estimation for mixed-script text.
//!
//! Each character in the Hangul syllables block counts as one token;
//! every four remaining characters count as one more. This deliberately
//! crude linear rule is what the truncation budgets downstream are tuned
//! against, so it must not be swapped for an exact tokenizer.

use vstd::prelude::*;
use crate::text::to_chars;

verus! {

/// A dense-script character: one the estimator counts as a whole token.
/// The range is the Hangul syllables block (U+AC00 through U+D7A3).
pub open spec fn is_dense_char(c: char) -> bool {
    0xAC00 <= c as int && c as int <= 0xD7A3
}

/// How many characters of `s` are dense-script characters.
pub open spec fn dense_count(s: Seq<char>) -> int
    decreases s.len(),
{
    if s.len() == 0 {
        0
    } else {
        dense_count(s.drop_last()) + if is_dense_char(s.last()) {
            1int
        } else {
            0int
        }
    }
}

/// The token estimate of a text: dense-script characters count one each,
/// and every four of the remaining characters count one more.
pub open spec fn token_estimate(s: Seq<char>) -> int {
    dense_count(s) + (s.len() - dense_count(s)) / 4
}

/// The dense-character count lies between zero and the length.
pub proof fn lemma_dense_count_bounds(s: Seq<char>)
    ensures
        0 <= dense_count(s) <= s.len(),
    decreases s.len(),
{
    if s.len() > 0 {
        lemma_dense_count_bounds(s.drop_last());
    }
}

/// Dense-character counting distributes over concatenation.
pub proof fn lemma_dense_count_concat(a: Seq<char>, b: Seq<char>)
    ensures
        dense_count(a + b) == dense_count(a) + dense_count(b),
    decreases b.len(),
{
    if b.len() == 0 {
        assert(a + b =~= a);
    } else {
        lemma_dense_count_concat(a, b.drop_last());
        assert((a + b).drop_last() =~= a + b.drop_last());
        assert((a + b).last() == b.last());
    }
}

/// The estimate is never negative.
pub proof fn lemma_token_estimate_nonneg(s: Seq<char>)
    ensures
        token_estimate(s) >= 0,
{
    lemma_dense_count_bounds(s);
}

/// The estimate of a concatenation overshoots the two parts' estimates by
/// at most one, and never undershoots them.
pub proof fn lemma_token_estimate_concat(a: Seq<char>, b: Seq<char>)
    ensures
        token_estimate(a) + token_estimate(b) <= token_estimate(a + b),
        token_estimate(a + b) <= token_estimate(a) + token_estimate(b) + 1,
{
    lemma_dense_count_concat(a, b);
    lemma_dense_count_bounds(a);
    lemma_dense_count_bounds(b);
    let oa = a.len() - dense_count(a);
    let ob = b.len() - dense_count(b);
    assert((a + b).len() == a.len() + b.len());
    assert(oa / 4 + ob / 4 <= (oa + ob) / 4 <= oa / 4 + ob / 4 + 1) by (nonlinear_arith)
        requires
            oa >= 0,
            ob >= 0,
    ;
}

/// The estimate is at least a quarter of the character count, rounded
/// down: dense characters only raise it.
pub proof fn lemma_token_estimate_quarter(s: Seq<char>)
    ensures
        token_estimate(s) >= s.len() as int / 4,
{
    lemma_dense_count_bounds(s);
    let d = dense_count(s);
    let o = s.len() - d;
    assert(d + o / 4 >= (d + o) / 4) by (nonlinear_arith)
        requires
            d >= 0,
            o >= 0,
    ;
}

/// How the heuristic behaves on the inputs its callers lean on: it is
/// non-negative everywhere, zero on the empty text, and equal to the
/// character count on text made of dense-script characters alone.
pub proof fn lemma_token_estimate_laws(s: Seq<char>)
    ensures
        token_estimate(s) >= 0,
        s.len() == 0 ==> token_estimate(s) == 0,
        (forall|i: int| 0 <= i < s.len() ==> is_dense_char(s[i])) ==> token_estimate(s)
            == s.len(),
    decreases s.len(),
{
    lemma_dense_count_bounds(s);
    if s.len() > 0 && (forall|i: int| 0 <= i < s.len() ==> is_dense_char(s[i])) {
        assert(forall|i: int|
            0 <= i < s.drop_last().len() ==> is_dense_char(#[trigger] s.drop_last()[i]));
        lemma_token_estimate_laws(s.drop_last());
        assert(is_dense_char(s.last()));
    }
}

/// Counts the dense-script characters of a character vector.
fn dense_chars_in(chars: &Vec<char>) -> (n: usize)
    ensures
        n == dense_count(chars@),
{
    let mut n: usize = 0;
    let mut i: usize = 0;
    while i < chars.len()
        invariant
            i <= chars.len(),
            n == dense_count(chars@.take(i as int)),
            n <= i,
        decreases chars.len() - i,
    {
        proof {
            assert(chars@.take(i + 1).drop_last() =~= chars@.take(i as int));
            assert(chars@.take(i + 1).last() == chars@[i as int]);
        }
        let c = chars[i];
        if c >= '\u{AC00}' && c <= '\u{D7A3}' {
            proof {
                assert(is_dense_char(c));
            }
            n = n + 1;
        } else {
            proof {
                assert(!is_dense_char(c));
            }
        }
        i = i + 1;
    }
    proof {
        assert(chars@.take(chars@.len() as int) =~= chars@);
    }
    n
}

/// Estimates how many tokens a completion model would spend on `text`:
/// one per dense-script character, one per four other characters.
pub fn estimate_tokens(text: &str) -> (n: usize)
    ensures
        n == token_estimate(text@),
{
    let chars = to_chars(text);
    estimate_tokens_of(&chars)
}

/// The same estimate, taken on text already split into characters.
pub fn estimate_tokens_of(chars: &Vec<char>) -> (n: usize)
    ensures
        n == token_estimate(chars@),
{
    let dense = dense_chars_in(chars);
    proof {
        lemma_dense_count_bounds(chars@);
    }
    dense + (chars.len() - dense) / 4
}

} // verus!
