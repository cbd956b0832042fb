//! Plain-text groundwork for the diff pipeline: characters of a string,
//! substring and prefix tests, splitting into lines and joining them back,
//! and decimal rendering for the statistics header.
//!
//! Lines are the maximal segments between `'\n'` characters, every segment
//! kept, so that joining the split of a text gives the text back unchanged.

use vstd::prelude::*;
use vstd::std_specs::iter::IteratorSpec;

verus! {

broadcast use vstd::string::group_string_axioms;

/// Collects the characters of a string into a vector.
pub fn to_chars(s: &str) -> (r: Vec<char>)
    ensures
        r@ == s@,
{
    let mut it = s.chars();
    let mut out: Vec<char> = Vec::new();
    loop
        invariant
            it.obeys_prophetic_iter_laws(),
            it.decrease() is Some,
            out@ + it.remaining() == s@,
        decreases it.decrease()->0,
    {
        match it.next() {
            Some(c) => {
                out.push(c);
            },
            None => {
                proof {
                    assert(out@ =~= s@);
                }
                return out;
            },
        }
    }
}

/// Relies on String::push: appends the one character at the end.
#[verifier::external_body]
fn push_char(s: &mut String, c: char)
    ensures
        final(s)@ == old(s)@ + seq![c],
{
    s.push(c);
}

/// Builds a string out of a vector of characters.
pub fn chars_to_string(chars: &Vec<char>) -> (r: String)
    ensures
        r@ == chars@,
{
    let mut out = String::new();
    let mut i: usize = 0;
    while i < chars.len()
        invariant
            i <= chars@.len(),
            out@ == chars@.take(i as int),
        decreases chars@.len() - i,
    {
        push_char(&mut out, chars[i]);
        proof {
            assert(chars@.take(i as int) + seq![chars@[i as int]] =~= chars@.take(i + 1));
        }
        i = i + 1;
    }
    proof {
        assert(chars@.take(chars@.len() as int) =~= chars@);
    }
    out
}

/// Appends every character of `src` to `dst`.
pub fn push_all(dst: &mut Vec<char>, src: &Vec<char>)
    ensures
        final(dst)@ == old(dst)@ + src@,
{
    let mut i: usize = 0;
    while i < src.len()
        invariant
            i <= src@.len(),
            dst@ == old(dst)@ + src@.take(i as int),
        decreases src@.len() - i,
    {
        dst.push(src[i]);
        proof {
            assert(old(dst)@ + src@.take(i as int) + seq![src@[i as int]] =~= old(dst)@
                + src@.take(i + 1));
        }
        i = i + 1;
    }
    proof {
        assert(old(dst)@ + src@.take(src@.len() as int) =~= old(dst)@ + src@);
    }
}

/// The needle occurs in the haystack starting at position `i`.
pub open spec fn matches_at(hay: Seq<char>, needle: Seq<char>, i: int) -> bool {
    0 <= i && i + needle.len() <= hay.len() && hay.subrange(i, i + needle.len()) == needle
}

/// The needle occurs somewhere in the haystack as a contiguous run.
pub open spec fn contains_seq(hay: Seq<char>, needle: Seq<char>) -> bool {
    exists|i: int| matches_at(hay, needle, i)
}

/// The needle is an initial segment of the haystack.
pub open spec fn is_prefix_of(needle: Seq<char>, hay: Seq<char>) -> bool {
    matches_at(hay, needle, 0)
}

fn matches_at_exec(hay: &Vec<char>, needle: &Vec<char>, i: usize) -> (r: bool)
    requires
        i + needle@.len() <= hay@.len(),
    ensures
        r == matches_at(hay@, needle@, i as int),
{
    let hlen = hay.len();
    let mut j: usize = 0;
    while j < needle.len()
        invariant
            i + needle@.len() <= hay@.len(),
            hlen == hay@.len(),
            j <= needle@.len(),
            forall|k: int| 0 <= k < j ==> hay@[i + k] == needle@[k],
        decreases needle@.len() - j,
    {
        if hay[i + j] != needle[j] {
            proof {
                assert(hay@.subrange(i as int, i + needle@.len())[j as int] == hay@[i + j]);
            }
            return false;
        }
        j = j + 1;
    }
    proof {
        assert(hay@.subrange(i as int, i + needle@.len()) =~= needle@);
    }
    true
}

/// Whether the needle occurs anywhere in the haystack.
pub fn contains_chars(hay: &Vec<char>, needle: &Vec<char>) -> (r: bool)
    ensures
        r == contains_seq(hay@, needle@),
{
    if needle.len() > hay.len() {
        return false;
    }
    if needle.len() == 0 {
        proof {
            assert(hay@.subrange(0, 0) =~= needle@);
            assert(matches_at(hay@, needle@, 0));
        }
        return true;
    }
    let last = hay.len() - needle.len();
    let mut i: usize = 0;
    while i <= last
        invariant
            1 <= needle@.len() <= hay@.len(),
            hay@.len() <= usize::MAX,
            last == hay@.len() - needle@.len(),
            i <= last + 1,
            forall|k: int| 0 <= k < i ==> !matches_at(hay@, needle@, k),
        decreases last + 1 - i,
    {
        if matches_at_exec(hay, needle, i) {
            return true;
        }
        i = i + 1;
    }
    false
}

/// Whether the needle, given as a string, occurs anywhere in the haystack.
pub fn contains_str(hay: &Vec<char>, needle: &str) -> (r: bool)
    ensures
        r == contains_seq(hay@, needle@),
{
    let n = to_chars(needle);
    contains_chars(hay, &n)
}

/// Whether the haystack starts with the needle, given as a string.
pub fn has_prefix(hay: &Vec<char>, needle: &str) -> (r: bool)
    ensures
        r == is_prefix_of(needle@, hay@),
{
    let n = to_chars(needle);
    if n.len() > hay.len() {
        return false;
    }
    matches_at_exec(hay, &n, 0)
}

/// The position of the first `'\n'` in `s`, or the length if there is none.
pub open spec fn first_nl(s: Seq<char>) -> int
    decreases s.len(),
{
    if s.len() == 0 {
        0
    } else if s[0] == '\n' {
        0
    } else {
        1 + first_nl(s.drop_first())
    }
}

pub proof fn lemma_first_nl_bounds(s: Seq<char>)
    ensures
        0 <= first_nl(s) <= s.len(),
        first_nl(s) < s.len() ==> s[first_nl(s)] == '\n',
        forall|j: int| 0 <= j < first_nl(s) ==> s[j] != '\n',
    decreases s.len(),
{
    if s.len() > 0 && s[0] != '\n' {
        lemma_first_nl_bounds(s.drop_first());
        assert forall|j: int| 0 <= j < first_nl(s) implies s[j] != '\n' by {
            if j > 0 {
                assert(s.drop_first()[j - 1] == s[j]);
            }
        }
    }
}

/// The first newline is at `i` exactly when nothing before `i` is a newline
/// and `i` is either a newline or the end of the text.
pub proof fn lemma_first_nl_at(s: Seq<char>, i: int)
    requires
        0 <= i <= s.len(),
        forall|j: int| 0 <= j < i ==> s[j] != '\n',
        i < s.len() ==> s[i] == '\n',
    ensures
        first_nl(s) == i,
    decreases s.len(),
{
    if s.len() > 0 && s[0] != '\n' {
        lemma_first_nl_at(s.drop_first(), i - 1);
    }
}

/// The segments of `s` between newline characters, in order, every segment
/// kept (so a text ending in a newline has a final empty segment).
pub open spec fn line_split(s: Seq<char>) -> Seq<Seq<char>>
    decreases s.len(),
{
    let i = first_nl(s);
    if 0 <= i < s.len() {
        seq![s.subrange(0, i)] + line_split(s.subrange(i + 1, s.len() as int))
    } else {
        seq![s]
    }
}

/// The segments rejoined, with a newline between each adjacent pair.
pub open spec fn line_join(ls: Seq<Seq<char>>) -> Seq<char>
    decreases ls.len(),
{
    if ls.len() == 0 {
        Seq::empty()
    } else if ls.len() == 1 {
        ls[0]
    } else {
        ls[0] + seq!['\n'] + line_join(ls.drop_first())
    }
}

pub proof fn lemma_line_split_len(s: Seq<char>)
    ensures
        line_split(s).len() >= 1,
{
    lemma_first_nl_bounds(s);
}

/// No segment of a line split contains a newline.
pub proof fn lemma_line_split_no_nl(s: Seq<char>)
    ensures
        forall|i: int, j: int|
            0 <= i < line_split(s).len() && 0 <= j < line_split(s)[i].len()
                ==> line_split(s)[i][j] != '\n',
    decreases s.len(),
{
    lemma_first_nl_bounds(s);
    let k = first_nl(s);
    if 0 <= k < s.len() {
        let suf = s.subrange(k + 1, s.len() as int);
        lemma_line_split_no_nl(suf);
        assert forall|i: int, j: int|
            0 <= i < line_split(s).len() && 0 <= j < line_split(s)[i].len() implies line_split(
            s)[i][j] != '\n' by {
            if i == 0 {
                assert(line_split(s)[0] == s.subrange(0, k));
                assert(s.subrange(0, k)[j] == s[j]);
            } else {
                assert(line_split(s)[i] == line_split(suf)[i - 1]);
            }
        }
    }
}

/// Joining the split of a text gives the text back.
pub proof fn lemma_join_split(s: Seq<char>)
    ensures
        line_join(line_split(s)) == s,
    decreases s.len(),
{
    lemma_first_nl_bounds(s);
    let k = first_nl(s);
    if 0 <= k < s.len() {
        let suf = s.subrange(k + 1, s.len() as int);
        lemma_join_split(suf);
        lemma_line_split_len(suf);
        let ls = seq![s.subrange(0, k)] + line_split(suf);
        assert(ls.drop_first() =~= line_split(suf));
        assert(s.subrange(0, k) + seq!['\n'] + suf =~= s);
    }
}

/// Splitting a join gives the segments back, as long as none of them
/// contains a newline.
pub proof fn lemma_split_join(ls: Seq<Seq<char>>)
    requires
        ls.len() >= 1,
        forall|i: int, j: int| 0 <= i < ls.len() && 0 <= j < ls[i].len() ==> ls[i][j] != '\n',
    ensures
        line_split(line_join(ls)) == ls,
    decreases ls.len(),
{
    let s = line_join(ls);
    if ls.len() == 1 {
        assert(s == ls[0]);
        lemma_first_nl_at(s, s.len() as int);
        assert(line_split(s) =~= ls);
    } else {
        let rest = ls.drop_first();
        let tail = line_join(rest);
        assert(s == ls[0] + seq!['\n'] + tail);
        assert(forall|j: int| 0 <= j < ls[0].len() ==> s[j] == ls[0][j] && s[j] != '\n');
        assert(s[ls[0].len() as int] == '\n');
        lemma_first_nl_at(s, ls[0].len() as int);
        let k = first_nl(s);
        assert(s.subrange(0, k) =~= ls[0]);
        assert(s.subrange(k + 1, s.len() as int) =~= tail);
        assert(forall|i: int, j: int|
            0 <= i < rest.len() && 0 <= j < rest[i].len() ==> rest[i][j] == ls[i + 1][j]);
        lemma_split_join(rest);
        assert(line_split(s) =~= ls);
    }
}

/// Appending a segment to a join appends a newline and the segment,
/// unless the join was empty.
pub proof fn lemma_line_join_push(ls: Seq<Seq<char>>, x: Seq<char>)
    ensures
        ls.len() == 0 ==> line_join(ls.push(x)) == x,
        ls.len() >= 1 ==> line_join(ls.push(x)) == line_join(ls) + seq!['\n'] + x,
    decreases ls.len(),
{
    if ls.len() == 0 {
        assert(ls.push(x)[0] == x);
    } else if ls.len() == 1 {
        assert(ls.push(x).drop_first() =~= seq![x]);
        assert(ls.push(x)[0] == ls[0]);
        assert(line_join(seq![x]) == x);
        assert(line_join(ls.push(x)) == ls[0] + seq!['\n'] + x);
        assert(line_join(ls) == ls[0]);
    } else {
        lemma_line_join_push(ls.drop_first(), x);
        assert(ls.push(x).drop_first() =~= ls.drop_first().push(x));
        assert(ls.push(x)[0] == ls[0]);
        assert(line_join(ls.push(x)) == ls[0] + seq!['\n'] + line_join(ls.drop_first().push(x)));
        assert(line_join(ls.drop_first().push(x)) == line_join(ls.drop_first()) + seq!['\n'] + x);
        assert(ls[0] + seq!['\n'] + (line_join(ls.drop_first()) + seq!['\n'] + x) =~= (ls[0]
            + seq!['\n'] + line_join(ls.drop_first())) + seq!['\n'] + x);
    }
}

/// The views of a sequence of character vectors.
pub open spec fn views(ls: Seq<Vec<char>>) -> Seq<Seq<char>> {
    ls.map_values(|l: Vec<char>| l@)
}

/// Splits a text, given as characters, into its lines.
pub fn split_lines(chars: &Vec<char>) -> (r: Vec<Vec<char>>)
    ensures
        views(r@) == line_split(chars@),
{
    let mut out: Vec<Vec<char>> = Vec::new();
    let mut cur: Vec<char> = Vec::new();
    let mut i: usize = 0;
    proof {
        assert(cur@ + chars@.skip(0) =~= chars@);
        assert(views(out@) + line_split(chars@) =~= line_split(chars@));
    }
    while i < chars.len()
        invariant
            i <= chars@.len(),
            forall|j: int| 0 <= j < cur@.len() ==> cur@[j] != '\n',
            line_split(chars@) == views(out@) + line_split(cur@ + chars@.skip(i as int)),
        decreases chars@.len() - i,
    {
        let c = chars[i];
        if c == '\n' {
            proof {
                let whole = cur@ + chars@.skip(i as int);
                lemma_first_nl_at(whole, cur@.len() as int);
                assert(whole.subrange(0, cur@.len() as int) =~= cur@);
                assert(whole.subrange(cur@.len() as int + 1, whole.len() as int) =~= chars@.skip(
                    i + 1));
                assert(line_split(whole) == seq![cur@] + line_split(chars@.skip(i + 1)));
                assert(views(out@.push(cur)) =~= views(out@).push(cur@));
                assert(views(out@) + (seq![cur@] + line_split(chars@.skip(i + 1))) =~= views(
                    out@).push(cur@) + line_split(chars@.skip(i + 1)));
            }
            out.push(cur);
            cur = Vec::new();
            proof {
                assert(cur@ + chars@.skip(i + 1) =~= chars@.skip(i + 1));
            }
        } else {
            proof {
                assert(cur@.push(c) + chars@.skip(i + 1) =~= cur@ + chars@.skip(i as int));
            }
            cur.push(c);
        }
        i = i + 1;
    }
    proof {
        assert(cur@ + chars@.skip(chars@.len() as int) =~= cur@);
        lemma_first_nl_at(cur@, cur@.len() as int);
        assert(line_split(cur@) =~= seq![cur@]);
        assert(views(out@.push(cur)) =~= views(out@).push(cur@));
        assert(views(out@) + seq![cur@] =~= views(out@).push(cur@));
    }
    out.push(cur);
    out
}

/// Joins lines back into one character vector, a newline between each pair.
pub fn join_lines(ls: &Vec<Vec<char>>) -> (r: Vec<char>)
    ensures
        r@ == line_join(views(ls@)),
{
    let mut out: Vec<char> = Vec::new();
    let mut i: usize = 0;
    while i < ls.len()
        invariant
            i <= ls@.len(),
            out@ == line_join(views(ls@).take(i as int)),
        decreases ls@.len() - i,
    {
        proof {
            lemma_line_join_push(views(ls@).take(i as int), ls@[i as int]@);
            assert(views(ls@).take(i as int).push(ls@[i as int]@) =~= views(ls@).take(i + 1));
        }
        if i > 0 {
            out.push('\n');
        }
        push_all(&mut out, &ls[i]);
        i = i + 1;
    }
    proof {
        assert(views(ls@).take(ls@.len() as int) =~= views(ls@));
    }
    out
}

/// The character for one decimal digit.
pub open spec fn digit_char(d: int) -> char {
    if d == 0 {
        '0'
    } else if d == 1 {
        '1'
    } else if d == 2 {
        '2'
    } else if d == 3 {
        '3'
    } else if d == 4 {
        '4'
    } else if d == 5 {
        '5'
    } else if d == 6 {
        '6'
    } else if d == 7 {
        '7'
    } else if d == 8 {
        '8'
    } else {
        '9'
    }
}

/// The decimal rendering of a non-negative integer.
pub open spec fn dec_str(n: int) -> Seq<char>
    decreases n,
{
    if n < 10 {
        seq![digit_char(n)]
    } else {
        dec_str(n / 10) + seq![digit_char(n % 10)]
    }
}

/// A decimal rendering is never empty and holds ASCII digits only.
pub proof fn lemma_dec_str_ascii(n: int)
    ensures
        dec_str(n).len() >= 1,
        forall|i: int| 0 <= i < dec_str(n).len() ==> (dec_str(n)[i] as int) < 0x80,
    decreases n,
{
    if n >= 10 {
        lemma_dec_str_ascii(n / 10);
    }
}

fn digit_of(d: usize) -> (c: char)
    requires
        d < 10,
    ensures
        c == digit_char(d as int),
{
    match d {
        0 => '0',
        1 => '1',
        2 => '2',
        3 => '3',
        4 => '4',
        5 => '5',
        6 => '6',
        7 => '7',
        8 => '8',
        _ => '9',
    }
}

/// Appends the decimal rendering of `n` to `out`.
pub fn push_decimal(out: &mut Vec<char>, n: usize)
    ensures
        final(out)@ == old(out)@ + dec_str(n as int),
    decreases n,
{
    if n < 10 {
        out.push(digit_of(n));
        proof {
            assert(old(out)@.push(digit_char(n as int)) =~= old(out)@ + dec_str(n as int));
        }
    } else {
        push_decimal(out, n / 10);
        let c = digit_of(n % 10);
        out.push(c);
        proof {
            assert((old(out)@ + dec_str(n as int / 10)).push(digit_char(n as int % 10)) =~= old(
                out)@ + dec_str(n as int));
        }
    }
}

} // verus!
