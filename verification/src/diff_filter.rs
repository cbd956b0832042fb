//! Structural filtering of a raw diff by file path.
//!
//! The diff is scanned line by line. A line opening with the file-boundary
//! marker `diff --git` starts a new file section; its post-change path is the
//! fourth blank-separated field of that line, with any leading `b/` prefix
//! stripped. If the path matches an exclusion rule, the whole section — the
//! boundary line and everything up to the next boundary — is dropped.
//! Everything before the first boundary passes through, and so does a
//! boundary line whose path cannot be read. One forward pass, no lookahead.

use vstd::prelude::*;
use crate::path_filter::{should_skip_path, spec_should_skip};
use crate::text::{
    chars_to_string,
    has_prefix,
    is_prefix_of,
    join_lines,
    line_join,
    line_split,
    split_lines,
    to_chars,
    views,
};

verus! {

/// A blank for the purpose of splitting a boundary line into fields.
pub open spec fn is_blank(c: char) -> bool {
    c == ' ' || c == '\t' || c == '\n' || c == '\r' || c == '\u{b}' || c == '\u{c}'
}

/// The text with its leading blanks removed.
pub open spec fn drop_blanks(s: Seq<char>) -> Seq<char>
    decreases s.len(),
{
    if s.len() == 0 || !is_blank(s[0]) {
        s
    } else {
        drop_blanks(s.drop_first())
    }
}

/// The longest prefix of the text that holds no blank.
pub open spec fn take_field(s: Seq<char>) -> Seq<char>
    decreases s.len(),
{
    if s.len() == 0 || is_blank(s[0]) {
        Seq::empty()
    } else {
        seq![s[0]] + take_field(s.drop_first())
    }
}

/// The text after its longest blank-free prefix.
pub open spec fn drop_field(s: Seq<char>) -> Seq<char>
    decreases s.len(),
{
    if s.len() == 0 || is_blank(s[0]) {
        s
    } else {
        drop_field(s.drop_first())
    }
}

pub proof fn lemma_drop_blanks_len(s: Seq<char>)
    ensures
        drop_blanks(s).len() <= s.len(),
        drop_blanks(s).len() > 0 ==> !is_blank(drop_blanks(s)[0]),
    decreases s.len(),
{
    if s.len() > 0 && is_blank(s[0]) {
        lemma_drop_blanks_len(s.drop_first());
    }
}

pub proof fn lemma_drop_field_len(s: Seq<char>)
    ensures
        drop_field(s).len() <= s.len(),
        s.len() > 0 && !is_blank(s[0]) ==> drop_field(s).len() < s.len(),
    decreases s.len(),
{
    if s.len() > 0 && !is_blank(s[0]) {
        lemma_drop_field_len(s.drop_first());
    }
}

/// The `n`th blank-separated field of the text, counted from zero, or
/// nothing when the text has no such field.
pub open spec fn nth_field(s: Seq<char>, n: nat) -> Option<Seq<char>>
    decreases s.len(), n,
    via nth_field_decreases
{
    let t = drop_blanks(s);
    if t.len() == 0 {
        None
    } else if n == 0 {
        Some(take_field(t))
    } else {
        nth_field(drop_field(t), (n - 1) as nat)
    }
}

#[via_fn]
proof fn nth_field_decreases(s: Seq<char>, n: nat) {
    lemma_drop_blanks_len(s);
    lemma_drop_field_len(drop_blanks(s));
}

/// A file-boundary marker line.
pub open spec fn is_boundary(line: Seq<char>) -> bool {
    is_prefix_of("diff --git"@, line)
}

/// The field with every leading `b/` layer removed, the way the
/// version-control prefix is taken off a post-change path.
pub open spec fn strip_vcs_prefix(f: Seq<char>) -> Seq<char>
    decreases f.len(),
{
    if f.len() >= 2 && f[0] == 'b' && f[1] == '/' {
        strip_vcs_prefix(f.skip(2))
    } else {
        f
    }
}

/// The post-change path of a boundary line: its fourth field, prefix
/// stripped — or nothing when the line has fewer than four fields.
pub open spec fn boundary_path(line: Seq<char>) -> Option<Seq<char>> {
    match nth_field(line, 3) {
        Some(f) => Some(strip_vcs_prefix(f)),
        None => None,
    }
}

/// A boundary line that opens a section the filter drops.
pub open spec fn drops_section(line: Seq<char>) -> bool {
    &&& is_boundary(line)
    &&& match boundary_path(line) {
        Some(p) => spec_should_skip(p),
        None => false,
    }
}

/// The lines that survive filtering, scanned left to right. `skipping`
/// says whether the scan stands inside a dropped section.
pub open spec fn kept_from(ls: Seq<Seq<char>>, skipping: bool) -> Seq<Seq<char>>
    decreases ls.len(),
{
    if ls.len() == 0 {
        Seq::empty()
    } else {
        let line = ls[0];
        let rest = ls.drop_first();
        if is_boundary(line) {
            if drops_section(line) {
                kept_from(rest, true)
            } else {
                seq![line] + kept_from(rest, false)
            }
        } else if skipping {
            kept_from(rest, true)
        } else {
            seq![line] + kept_from(rest, false)
        }
    }
}

/// What filtering a raw diff returns: the surviving lines, rejoined.
pub open spec fn filter_diff(s: Seq<char>) -> Seq<char> {
    line_join(kept_from(line_split(s), false))
}

/// The lines of a diff before its first boundary marker.
pub open spec fn preamble_of(ls: Seq<Seq<char>>) -> Seq<Seq<char>>
    decreases ls.len(),
{
    if ls.len() == 0 {
        Seq::empty()
    } else if is_boundary(ls[0]) {
        Seq::empty()
    } else {
        seq![ls[0]] + preamble_of(ls.drop_first())
    }
}

/// A scan that drops no section keeps every line.
proof fn lemma_kept_identity(ls: Seq<Seq<char>>)
    requires
        forall|i: int| 0 <= i < ls.len() ==> !drops_section(ls[i]),
    ensures
        kept_from(ls, false) == ls,
    decreases ls.len(),
{
    if ls.len() > 0 {
        assert(forall|i: int|
            0 <= i < ls.drop_first().len() ==> !drops_section(#[trigger] ls.drop_first()[i]));
        lemma_kept_identity(ls.drop_first());
        assert(seq![ls[0]] + ls.drop_first() =~= ls);
    }
}

/// Inside a dropped section, a scan over lines whose every boundary opens
/// a dropped section keeps nothing.
proof fn lemma_kept_skipping(ls: Seq<Seq<char>>)
    requires
        forall|i: int| 0 <= i < ls.len() && is_boundary(ls[i]) ==> drops_section(ls[i]),
    ensures
        kept_from(ls, true) == Seq::<Seq<char>>::empty(),
    decreases ls.len(),
{
    if ls.len() > 0 {
        assert(forall|i: int|
            0 <= i < ls.drop_first().len() && is_boundary(#[trigger] ls.drop_first()[i])
                ==> drops_section(ls.drop_first()[i]));
        lemma_kept_skipping(ls.drop_first());
    }
}

/// When every boundary line opens a dropped section, the scan keeps
/// exactly the preamble before the first boundary.
proof fn lemma_kept_preamble(ls: Seq<Seq<char>>)
    requires
        forall|i: int| 0 <= i < ls.len() && is_boundary(ls[i]) ==> drops_section(ls[i]),
    ensures
        kept_from(ls, false) == preamble_of(ls),
    decreases ls.len(),
{
    if ls.len() > 0 {
        assert(forall|i: int|
            0 <= i < ls.drop_first().len() && is_boundary(#[trigger] ls.drop_first()[i])
                ==> drops_section(ls.drop_first()[i]));
        if is_boundary(ls[0]) {
            lemma_kept_skipping(ls.drop_first());
        } else {
            lemma_kept_preamble(ls.drop_first());
        }
    }
}

/// Every line a scan keeps opens no dropped section.
proof fn lemma_kept_no_drops(ls: Seq<Seq<char>>, skipping: bool)
    ensures
        forall|i: int|
            0 <= i < kept_from(ls, skipping).len() ==> !drops_section(
                #[trigger] kept_from(ls, skipping)[i],
            ),
    decreases ls.len(),
{
    if ls.len() > 0 {
        let rest = ls.drop_first();
        lemma_kept_no_drops(rest, true);
        lemma_kept_no_drops(rest, false);
        let k = kept_from(ls, skipping);
        assert forall|i: int| 0 <= i < k.len() implies !drops_section(k[i]) by {
            if (is_boundary(ls[0]) && drops_section(ls[0])) || (!is_boundary(ls[0])
                && skipping) {
                assert(k == kept_from(rest, true));
                assert(!drops_section(kept_from(rest, true)[i]));
            } else {
                assert(k == seq![ls[0]] + kept_from(rest, false));
                if i == 0 {
                    assert(k[0] == ls[0]);
                    assert(!drops_section(ls[0]));
                } else {
                    assert(k[i] == kept_from(rest, false)[i - 1]);
                    assert(!drops_section(kept_from(rest, false)[i - 1]));
                }
            }
        }
    }
}

/// Every line a scan keeps is one of the lines scanned, so it holds no
/// newline when none of them does.
proof fn lemma_kept_no_nl(ls: Seq<Seq<char>>, skipping: bool)
    requires
        forall|i: int, j: int| 0 <= i < ls.len() && 0 <= j < ls[i].len() ==> ls[i][j] != '\n',
    ensures
        forall|i: int, j: int|
            0 <= i < kept_from(ls, skipping).len() && 0 <= j < kept_from(ls, skipping)[i].len()
                ==> kept_from(ls, skipping)[i][j] != '\n',
    decreases ls.len(),
{
    if ls.len() > 0 {
        let rest = ls.drop_first();
        assert(forall|i: int, j: int|
            0 <= i < rest.len() && 0 <= j < rest[i].len() ==> #[trigger] rest[i][j] != '\n');
        lemma_kept_no_nl(rest, true);
        lemma_kept_no_nl(rest, false);
        assert(forall|j: int| 0 <= j < ls[0].len() ==> ls[0][j] != '\n');
        let k = kept_from(ls, skipping);
        assert forall|i: int, j: int|
            0 <= i < k.len() && 0 <= j < k[i].len() implies k[i][j] != '\n' by {
            if (is_boundary(ls[0]) && drops_section(ls[0])) || (!is_boundary(ls[0])
                && skipping) {
                assert(k == kept_from(rest, true));
                assert(kept_from(rest, true)[i][j] != '\n');
            } else {
                assert(k == seq![ls[0]] + kept_from(rest, false));
                if i == 0 {
                    assert(k[0] == ls[0]);
                    assert(ls[0][j] != '\n');
                } else {
                    assert(k[i] == kept_from(rest, false)[i - 1]);
                    assert(kept_from(rest, false)[i - 1][j] != '\n');
                }
            }
        }
    }
}

/// A diff whose every boundary line opens an excluded section filters down
/// to the preamble before its first boundary alone — in particular, to an
/// empty, boundary-free result when nothing precedes the first boundary.
pub proof fn lemma_filter_all_excluded(s: Seq<char>)
    requires
        forall|i: int|
            0 <= i < line_split(s).len() && is_boundary(#[trigger] line_split(s)[i])
                ==> drops_section(line_split(s)[i]),
    ensures
        filter_diff(s) == line_join(preamble_of(line_split(s))),
{
    lemma_kept_preamble(line_split(s));
}

/// A diff with no boundary marker line passes through filtering unchanged.
pub proof fn lemma_filter_no_boundaries(s: Seq<char>)
    requires
        forall|i: int| 0 <= i < line_split(s).len() ==> !is_boundary(#[trigger] line_split(s)[i]),
    ensures
        filter_diff(s) == s,
{
    lemma_kept_identity(line_split(s));
    crate::text::lemma_join_split(s);
}

/// Filtering is idempotent: a second pass with the same rules over an
/// already-filtered diff removes nothing more.
pub proof fn lemma_filter_idempotent(s: Seq<char>)
    ensures
        filter_diff(filter_diff(s)) == filter_diff(s),
{
    let ls = line_split(s);
    let kept = kept_from(ls, false);
    lemma_kept_no_drops(ls, false);
    if kept.len() == 0 {
        // The first pass kept nothing, so the second filters the empty text.
        let empty = Seq::<char>::empty();
        assert(filter_diff(s) == empty);
        crate::text::lemma_first_nl_at(empty, 0);
        assert(line_split(empty) =~= seq![empty]);
        proof_empty_line_not_boundary();
        assert(kept_from(seq![empty], false) =~= seq![empty] + kept_from(
            seq![empty].drop_first(),
            false,
        ));
        assert(seq![empty].drop_first() =~= Seq::<Seq<char>>::empty());
        assert(kept_from(seq![empty], false) =~= seq![empty]);
        assert(filter_diff(empty) == line_join(seq![empty]));
        assert(line_join(seq![empty]) == empty);
    } else {
        crate::text::lemma_line_split_no_nl(s);
        lemma_kept_no_nl(ls, false);
        crate::text::lemma_split_join(kept);
        lemma_kept_identity(kept);
    }
}

/// An empty line is no boundary marker.
proof fn proof_empty_line_not_boundary()
    ensures
        !is_boundary(Seq::<char>::empty()),
{
    reveal_strlit("diff --git");
}

fn copy_range(v: &Vec<char>, a: usize, b: usize) -> (r: Vec<char>)
    requires
        a <= b <= v@.len(),
    ensures
        r@ == v@.subrange(a as int, b as int),
{
    let mut out: Vec<char> = Vec::new();
    let mut i: usize = a;
    while i < b
        invariant
            a <= i <= b <= v@.len(),
            out@ == v@.subrange(a as int, i as int),
        decreases b - i,
    {
        out.push(v[i]);
        proof {
            assert(v@.subrange(a as int, i as int).push(v@[i as int]) =~= v@.subrange(
                a as int,
                i + 1,
            ));
        }
        i = i + 1;
    }
    out
}

fn is_blank_exec(c: char) -> (r: bool)
    ensures
        r == is_blank(c),
{
    c == ' ' || c == '\t' || c == '\n' || c == '\r' || c == '\u{b}' || c == '\u{c}'
}

/// `drop_blanks` on a suffix moves one position right past a blank.
proof fn lemma_drop_blanks_step(s: Seq<char>, i: int)
    requires
        0 <= i < s.len(),
        is_blank(s[i]),
    ensures
        drop_blanks(s.skip(i)) == drop_blanks(s.skip(i + 1)),
{
    assert(s.skip(i).drop_first() =~= s.skip(i + 1));
}

proof fn lemma_take_drop_field_at(t: Seq<char>, k: int)
    requires
        0 <= k <= t.len(),
        forall|j: int| 0 <= j < k ==> !is_blank(t[j]),
        k < t.len() ==> is_blank(t[k]),
    ensures
        take_field(t) == t.subrange(0, k),
        drop_field(t) == t.skip(k),
    decreases k,
{
    if k == 0 {
        assert(t.subrange(0, 0) =~= Seq::<char>::empty());
        assert(t.skip(0) =~= t);
    } else {
        lemma_take_drop_field_at(t.drop_first(), k - 1);
        assert(seq![t[0]] + t.drop_first().subrange(0, k - 1) =~= t.subrange(0, k));
        assert(t.drop_first().skip(k - 1) =~= t.skip(k));
    }
}

/// The first position at or after `start` that holds a non-blank, or the end.
fn skip_blanks(line: &Vec<char>, start: usize) -> (i: usize)
    requires
        start <= line@.len(),
    ensures
        start <= i <= line@.len(),
        forall|k: int| start <= k < i ==> is_blank(line@[k]),
        i < line@.len() ==> !is_blank(line@[i as int]),
{
    let len = line.len();
    let mut i: usize = start;
    loop
        invariant
            start <= i <= len,
            len == line@.len(),
            forall|k: int| start <= k < i ==> is_blank(line@[k]),
        decreases len - i,
    {
        if i >= len {
            return i;
        }
        if !is_blank_exec(line[i]) {
            return i;
        }
        i = i + 1;
    }
}

/// The first position at or after `start` that holds a blank, or the end.
fn scan_field(line: &Vec<char>, start: usize) -> (j: usize)
    requires
        start <= line@.len(),
    ensures
        start <= j <= line@.len(),
        forall|k: int| start <= k < j ==> !is_blank(line@[k]),
        j < line@.len() ==> is_blank(line@[j as int]),
{
    let len = line.len();
    let mut j: usize = start;
    loop
        invariant
            start <= j <= len,
            len == line@.len(),
            forall|k: int| start <= k < j ==> !is_blank(line@[k]),
        decreases len - j,
    {
        if j >= len {
            return j;
        }
        if is_blank_exec(line[j]) {
            return j;
        }
        j = j + 1;
    }
}

proof fn lemma_drop_blanks_run(s: Seq<char>, start: int, i: int)
    requires
        0 <= start <= i <= s.len(),
        forall|k: int| start <= k < i ==> is_blank(s[k]),
    ensures
        drop_blanks(s.skip(start)) == drop_blanks(s.skip(i)),
    decreases i - start,
{
    if start < i {
        lemma_drop_blanks_step(s, start);
        lemma_drop_blanks_run(s, start + 1, i);
    }
}

/// The `n`th field of the line from position `start` on.
fn nth_field_from(line: &Vec<char>, start: usize, n: usize) -> (r: Option<Vec<char>>)
    requires
        start <= line@.len(),
    ensures
        match r {
            Some(f) => nth_field(line@.skip(start as int), n as nat) == Some(f@),
            None => nth_field(line@.skip(start as int), n as nat) is None,
        },
    decreases line@.len() - start, n,
{
    let len = line.len();
    let i = skip_blanks(line, start);
    proof {
        lemma_drop_blanks_run(line@, start as int, i as int);
    }
    if i == len {
        proof {
            assert(line@.skip(len as int) =~= Seq::<char>::empty());
        }
        return None;
    }
    // line[i] is not blank, so drop_blanks of the suffix is the suffix itself.
    let ghost t = line@.skip(i as int);
    proof {
        assert(t[0] == line@[i as int]);
        assert(drop_blanks(t) == t);
    }
    let j = scan_field(line, i);
    proof {
        assert(j > i) by {
            assert(!is_blank(line@[i as int]));
        }
        assert(forall|k: int| 0 <= k < j - i ==> t[k] == line@[i + k] && !is_blank(t[k]));
        assert(j < len ==> is_blank(t[j - i]));
        lemma_take_drop_field_at(t, j - i);
    }
    if n == 0 {
        let f = copy_range(line, i, j);
        proof {
            assert(t.subrange(0, j - i) =~= line@.subrange(i as int, j as int));
        }
        return Some(f);
    }
    proof {
        assert(t.skip(j - i) =~= line@.skip(j as int));
    }
    nth_field_from(line, j, n - 1)
}

fn strip_vcs_prefix_exec(f: &Vec<char>) -> (r: Vec<char>)
    ensures
        r@ == strip_vcs_prefix(f@),
{
    let mut off: usize = 0;
    proof {
        assert(f@.skip(0) =~= f@);
    }
    loop
        invariant
            off <= f@.len(),
            strip_vcs_prefix(f@) == strip_vcs_prefix(f@.skip(off as int)),
        decreases f@.len() - off,
    {
        let ghost v = f@.skip(off as int);
        proof {
            assert(forall|k: int| 0 <= k < v.len() ==> v[k] == f@[off + k]);
        }
        if f.len() - off >= 2 && f[off] == 'b' && f[off + 1] == '/' {
            proof {
                assert(v.skip(2) =~= f@.skip(off + 2));
            }
            off = off + 2;
        } else {
            proof {
                assert(strip_vcs_prefix(v) == v);
            }
            let r = copy_range(f, off, f.len());
            proof {
                assert(f@.subrange(off as int, f@.len() as int) =~= v);
            }
            return r;
        }
    }
}

/// Whether this boundary line opens a section the filter drops.
fn drops_section_exec(line: &Vec<char>) -> (r: bool)
    requires
        is_boundary(line@),
    ensures
        r == drops_section(line@),
{
    match nth_field_from(line, 0, 3) {
        Some(f) => {
            proof {
                assert(line@.skip(0) =~= line@);
            }
            let path = strip_vcs_prefix_exec(&f);
            should_skip_path(&path)
        },
        None => {
            proof {
                assert(line@.skip(0) =~= line@);
            }
            false
        },
    }
}

/// Filters a raw diff: drops every file section whose post-change path
/// matches an exclusion rule, passes everything else through verbatim —
/// the preamble before the first boundary line included — and rejoins the
/// surviving lines in their original order.
pub fn filter_large_generated_files(diff_content: &str) -> (r: String)
    ensures
        r@ == filter_diff(diff_content@),
{
    let chars = to_chars(diff_content);
    let lines = split_lines(&chars);
    let mut kept: Vec<Vec<char>> = Vec::new();
    let mut skipping = false;
    let mut i: usize = 0;
    proof {
        assert(views(lines@).skip(0) =~= views(lines@));
        assert(views(kept@) + kept_from(views(lines@), false) =~= kept_from(
            views(lines@),
            false,
        ));
    }
    while i < lines.len()
        invariant
            i <= lines@.len(),
            views(lines@) == line_split(chars@),
            kept_from(line_split(chars@), false) == views(kept@) + kept_from(
                views(lines@).skip(i as int),
                skipping,
            ),
        decreases lines@.len() - i,
    {
        let ghost rest = views(lines@).skip(i as int);
        proof {
            assert(rest[0] == views(lines@)[i as int]);
            assert(rest.drop_first() =~= views(lines@).skip(i + 1));
        }
        let line = &lines[i];
        let boundary = has_prefix(line, "diff --git");
        let mut keep_it = true;
        if boundary {
            if drops_section_exec(line) {
                keep_it = false;
                skipping = true;
            } else {
                skipping = false;
            }
        } else if skipping {
            keep_it = false;
        }
        if keep_it {
            let copy = copy_range(line, 0, line.len());
            proof {
                assert(copy@ =~= line@);
                assert(views(kept@.push(copy)) =~= views(kept@).push(line@));
                assert(views(kept@) + (seq![line@] + kept_from(rest.drop_first(), skipping))
                    =~= views(kept@).push(line@) + kept_from(rest.drop_first(), skipping));
            }
            kept.push(copy);
        }
        i = i + 1;
    }
    proof {
        assert(views(lines@).skip(lines@.len() as int) =~= Seq::<Seq<char>>::empty());
        assert(views(kept@) + Seq::<Seq<char>>::empty() =~= views(kept@));
    }
    let joined = join_lines(&kept);
    chars_to_string(&joined)
}

} // verus!
