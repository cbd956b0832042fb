//! Budget-aware truncation of a (possibly already filtered) diff.
//!
//! The truncator first emits a fixed-format statistics header — files
//! touched, lines added, lines removed — which itself consumes part of the
//! token budget. It then appends input lines one at a time, each with its
//! trailing newline, while the estimate of the accumulated body stays
//! strictly under what is left of the budget; at the first line that would
//! not fit it appends one fixed marker line and stops. Even a zero budget
//! produces the header (plus the marker when there were lines to drop):
//! the output is bounded, never an error.

use vstd::prelude::*;
use crate::estimator::{
    estimate_tokens_of,
    lemma_token_estimate_concat,
    lemma_token_estimate_nonneg,
    token_estimate,
};
use crate::text::{
    chars_to_string,
    dec_str,
    has_prefix,
    is_prefix_of,
    line_split,
    push_all,
    push_decimal,
    split_lines,
    to_chars,
    views,
};

verus! {

/// The lines a diff body consists of: the newline-separated segments, with
/// a trailing empty segment dropped, so that an empty text has no lines.
pub open spec fn body_lines(s: Seq<char>) -> Seq<Seq<char>> {
    let ls = line_split(s);
    if ls.len() > 0 && ls.last().len() == 0 {
        ls.drop_last()
    } else {
        ls
    }
}

/// A line that counts as a touched file in the statistics.
pub open spec fn is_file_line(l: Seq<char>) -> bool {
    is_prefix_of("diff "@, l)
}

/// A line that counts as an addition: any line opening with `+`,
/// the `+++` header form included.
pub open spec fn is_added_line(l: Seq<char>) -> bool {
    l.len() > 0 && l[0] == '+'
}

/// A line that counts as a removal: any line opening with `-`.
pub open spec fn is_removed_line(l: Seq<char>) -> bool {
    l.len() > 0 && l[0] == '-'
}

pub open spec fn count_files(ls: Seq<Seq<char>>) -> int
    decreases ls.len(),
{
    if ls.len() == 0 {
        0
    } else {
        count_files(ls.drop_last()) + if is_file_line(ls.last()) {
            1int
        } else {
            0int
        }
    }
}

pub open spec fn count_added(ls: Seq<Seq<char>>) -> int
    decreases ls.len(),
{
    if ls.len() == 0 {
        0
    } else {
        count_added(ls.drop_last()) + if is_added_line(ls.last()) {
            1int
        } else {
            0int
        }
    }
}

pub open spec fn count_removed(ls: Seq<Seq<char>>) -> int
    decreases ls.len(),
{
    if ls.len() == 0 {
        0
    } else {
        count_removed(ls.drop_last()) + if is_removed_line(ls.last()) {
            1int
        } else {
            0int
        }
    }
}

/// The statistics header the truncator emits before any content.
pub open spec fn header_of(s: Seq<char>) -> Seq<char> {
    let ls = body_lines(s);
    "=== stats ===\nfiles "@ + dec_str(count_files(ls)) + ", +"@ + dec_str(count_added(ls))
        + " -"@ + dec_str(count_removed(ls)) + " lines\n\n"@
}

/// The fixed line that marks where the remainder of a diff was dropped.
pub open spec fn marker_line() -> Seq<char> {
    "... (remainder omitted due to budget)\n"@
}

/// The truncated body: lines appended one at a time, each with a trailing
/// newline, while the whole accumulated text estimates strictly under
/// `remaining`; at the first line that would not fit, the marker instead.
pub open spec fn accumulate(ls: Seq<Seq<char>>, acc: Seq<char>, remaining: int) -> Seq<char>
    decreases ls.len(),
{
    if ls.len() == 0 {
        acc
    } else {
        let with = acc + ls[0] + seq!['\n'];
        if token_estimate(with) < remaining {
            accumulate(ls.drop_first(), with, remaining)
        } else {
            acc + marker_line()
        }
    }
}

/// What truncating to a budget returns: the statistics header, then as
/// many whole input lines as estimate strictly under what the header
/// leaves of the budget, then the marker if anything was dropped.
pub open spec fn truncate_spec(s: Seq<char>, budget: int) -> Seq<char> {
    let h = header_of(s);
    h + accumulate(body_lines(s), Seq::empty(), budget - token_estimate(h))
}

fn count_stats(body: &Vec<Vec<char>>) -> (r: (usize, usize, usize))
    ensures
        r.0 == count_files(views(body@)),
        r.1 == count_added(views(body@)),
        r.2 == count_removed(views(body@)),
{
    let mut files: usize = 0;
    let mut added: usize = 0;
    let mut removed: usize = 0;
    let mut i: usize = 0;
    while i < body.len()
        invariant
            i <= body@.len(),
            files == count_files(views(body@).take(i as int)),
            added == count_added(views(body@).take(i as int)),
            removed == count_removed(views(body@).take(i as int)),
            files <= i && added <= i && removed <= i,
        decreases body@.len() - i,
    {
        proof {
            assert(views(body@).take(i + 1).drop_last() =~= views(body@).take(i as int));
            assert(views(body@).take(i + 1).last() == body@[i as int]@);
        }
        let line = &body[i];
        if has_prefix(line, "diff ") {
            files = files + 1;
        }
        if line.len() > 0 && line[0] == '+' {
            added = added + 1;
        }
        if line.len() > 0 && line[0] == '-' {
            removed = removed + 1;
        }
        i = i + 1;
    }
    proof {
        assert(views(body@).take(body@.len() as int) =~= views(body@));
    }
    (files, added, removed)
}

fn copy_chars(v: &Vec<char>) -> (r: Vec<char>)
    ensures
        r@ == v@,
{
    let mut out: Vec<char> = Vec::new();
    push_all(&mut out, v);
    out
}

fn accumulate_exec(body: &Vec<Vec<char>>, remaining: usize) -> (r: Vec<char>)
    ensures
        r@ == accumulate(views(body@), Seq::empty(), remaining as int),
{
    let marker = to_chars("... (remainder omitted due to budget)\n");
    let mut acc: Vec<char> = Vec::new();
    let mut i: usize = 0;
    proof {
        assert(views(body@).skip(0) =~= views(body@));
    }
    loop
        invariant
            i <= body@.len(),
            marker@ == marker_line(),
            accumulate(views(body@), Seq::empty(), remaining as int) == accumulate(
                views(body@).skip(i as int),
                acc@,
                remaining as int,
            ),
        decreases body@.len() - i,
    {
        if i >= body.len() {
            proof {
                assert(views(body@).skip(body@.len() as int) =~= Seq::<Seq<char>>::empty());
            }
            return acc;
        }
        let ghost rest = views(body@).skip(i as int);
        proof {
            assert(rest[0] == body@[i as int]@);
            assert(rest.drop_first() =~= views(body@).skip(i + 1));
        }
        let mut cand = copy_chars(&acc);
        push_all(&mut cand, &body[i]);
        cand.push('\n');
        proof {
            assert(cand@ =~= acc@ + rest[0] + seq!['\n']);
        }
        let est = estimate_tokens_of(&cand);
        if est < remaining {
            acc = cand;
            i = i + 1;
        } else {
            push_all(&mut acc, &marker);
            return acc;
        }
    }
}

/// Truncates a diff to a token budget: emits the statistics header, then
/// whole input lines while the accumulated body estimates strictly under
/// what the header leaves of the budget, then the fixed marker line when
/// anything had to be dropped. Deterministic, and total: every budget —
/// zero included — yields a bounded output.
pub fn smart_summarize_diff(diff_content: &str, max_tokens: usize) -> (r: String)
    ensures
        r@ == truncate_spec(diff_content@, max_tokens as int),
{
    let chars = to_chars(diff_content);
    let mut body = split_lines(&chars);
    if body.len() > 0 && body[body.len() - 1].len() == 0 {
        proof {
            assert(views(body@).last() == body@[body@.len() - 1]@);
            assert(views(body@).drop_last() =~= views(body@.drop_last()));
        }
        let _ = body.pop();
    }
    proof {
        assert(views(body@) == body_lines(chars@));
    }
    let stats = count_stats(&body);
    let mut header: Vec<char> = Vec::new();
    let lead = to_chars("=== stats ===\nfiles ");
    let mid1 = to_chars(", +");
    let mid2 = to_chars(" -");
    let tail = to_chars(" lines\n\n");
    push_all(&mut header, &lead);
    push_decimal(&mut header, stats.0);
    push_all(&mut header, &mid1);
    push_decimal(&mut header, stats.1);
    push_all(&mut header, &mid2);
    push_decimal(&mut header, stats.2);
    push_all(&mut header, &tail);
    proof {
        assert(header@ =~= header_of(chars@));
    }
    let header_cost = estimate_tokens_of(&header);
    let mut out = header;
    if max_tokens > header_cost {
        let body_text = accumulate_exec(&body, max_tokens - header_cost);
        push_all(&mut out, &body_text);
    } else {
        // Nothing of the budget is left: the defensive floor. Lines were
        // present, so the very first one already fails the strict bound
        // and only the marker follows the header.
        proof {
            lemma_accumulate_floor(
                views(body@),
                max_tokens as int - token_estimate(header_of(chars@)),
            );
        }
        if body.len() > 0 {
            let marker = to_chars("... (remainder omitted due to budget)\n");
            push_all(&mut out, &marker);
            proof {
                assert(Seq::<char>::empty() + marker_line() =~= marker_line());
            }
        }
    }
    chars_to_string(&out)
}

/// The statistics header alone always costs at least two tokens: it is
/// over thirty ASCII characters long whatever the counts come to.
pub proof fn lemma_header_cost(s: Seq<char>)
    ensures
        token_estimate(header_of(s)) >= 2,
{
    reveal_strlit("=== stats ===\nfiles ");
    reveal_strlit(", +");
    reveal_strlit(" -");
    reveal_strlit(" lines\n\n");
    let ls = body_lines(s);
    crate::text::lemma_dec_str_ascii(count_files(ls));
    crate::text::lemma_dec_str_ascii(count_added(ls));
    crate::text::lemma_dec_str_ascii(count_removed(ls));
    assert(header_of(s).len() >= 8);
    crate::estimator::lemma_token_estimate_quarter(header_of(s));
}

/// A budget that cannot even cover the header bottoms out at the
/// defensive floor: the header alone when there were no lines, the header
/// plus the one marker line otherwise. Nothing underflows; the output is
/// bounded for a zero budget too.
pub proof fn lemma_truncate_floor(s: Seq<char>, budget: int)
    requires
        budget <= token_estimate(header_of(s)),
    ensures
        body_lines(s).len() == 0 ==> truncate_spec(s, budget) == header_of(s),
        body_lines(s).len() > 0 ==> truncate_spec(s, budget) == header_of(s) + marker_line(),
{
    lemma_accumulate_floor(body_lines(s), budget - token_estimate(header_of(s)));
    assert(header_of(s) + Seq::<char>::empty() =~= header_of(s));
    assert(header_of(s) + (Seq::<char>::empty() + marker_line()) =~= header_of(s)
        + marker_line());
}

/// For a budget of zero or one token the output is exactly the header,
/// followed by the marker when the input had any line at all.
pub proof fn lemma_truncate_tiny_budget(s: Seq<char>, budget: int)
    requires
        0 <= budget <= 1,
    ensures
        body_lines(s).len() == 0 ==> truncate_spec(s, budget) == header_of(s),
        body_lines(s).len() > 0 ==> truncate_spec(s, budget) == header_of(s) + marker_line(),
{
    lemma_header_cost(s);
    lemma_truncate_floor(s, budget);
}

proof fn lemma_accumulate_bound(ls: Seq<Seq<char>>, acc: Seq<char>, remaining: int)
    requires
        token_estimate(acc) < remaining,
    ensures
        token_estimate(accumulate(ls, acc, remaining)) <= remaining + token_estimate(
            marker_line(),
        ),
    decreases ls.len(),
{
    lemma_token_estimate_nonneg(marker_line());
    if ls.len() > 0 {
        let with = acc + ls[0] + seq!['\n'];
        if token_estimate(with) < remaining {
            lemma_accumulate_bound(ls.drop_first(), with, remaining);
        } else {
            lemma_token_estimate_concat(acc, marker_line());
        }
    }
}

/// Whenever the budget covers more than the header, the truncated output
/// estimates within the budget, up to the cost of the marker line and of
/// one concatenation rounding step.
pub proof fn lemma_truncate_bounded(s: Seq<char>, budget: int)
    requires
        budget > token_estimate(header_of(s)),
    ensures
        token_estimate(truncate_spec(s, budget)) <= budget + token_estimate(marker_line()) + 1,
{
    let h = header_of(s);
    let rem = budget - token_estimate(h);
    assert(token_estimate(Seq::<char>::empty()) == 0);
    lemma_accumulate_bound(body_lines(s), Seq::empty(), rem);
    lemma_token_estimate_concat(h, accumulate(body_lines(s), Seq::empty(), rem));
}

/// For every budget — zero and upward — the output estimate is bounded:
/// by the larger of the budget and the header's own cost, plus the marker
/// line and one rounding step. Truncation never accumulates without bound.
pub proof fn lemma_truncate_estimate_finite(s: Seq<char>, budget: int)
    ensures
        token_estimate(truncate_spec(s, budget)) <= (if budget > token_estimate(header_of(s)) {
            budget
        } else {
            token_estimate(header_of(s))
        }) + token_estimate(marker_line()) + 1,
{
    lemma_token_estimate_nonneg(marker_line());
    if budget > token_estimate(header_of(s)) {
        lemma_truncate_bounded(s, budget);
    } else {
        lemma_truncate_floor(s, budget);
        if body_lines(s).len() > 0 {
            lemma_token_estimate_concat(header_of(s), marker_line());
        }
    }
}

/// With nothing left of the budget, the accumulated body is the marker
/// alone — or empty, when there were no lines at all.
pub proof fn lemma_accumulate_floor(ls: Seq<Seq<char>>, remaining: int)
    requires
        remaining <= 0,
    ensures
        ls.len() == 0 ==> accumulate(ls, Seq::empty(), remaining) == Seq::<char>::empty(),
        ls.len() > 0 ==> accumulate(ls, Seq::empty(), remaining) == Seq::<char>::empty()
            + marker_line(),
{
    if ls.len() > 0 {
        let with = Seq::<char>::empty() + ls[0] + seq!['\n'];
        lemma_token_estimate_nonneg(with);
    }
}

} // verus!
