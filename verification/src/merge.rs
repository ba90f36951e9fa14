//! The merge viewer's text logic: lines tokenised the way the line diff sees
//! them, the side-by-side alignment of two texts, git conflict markers, the
//! three-way merge, and laying a line of runs out into screen cells.

use vstd::prelude::*;
use vstd::string::StrSliceExecFns;
use vstd::string::StringExecFns;

use crate::text::{char_text, decimal, decimal_string, pad_left, push_padded};

verus! {

/// The line tokens of a text as the line diff sees them: each runs up to and
/// including its `\n`, and a last line without one is a token too.
pub open spec fn line_tokens(t: Seq<char>) -> Seq<Seq<char>>
    decreases t.len(),
{
    if t.len() == 0 {
        Seq::empty()
    } else {
        let n = line_end(t, 0);
        proof {
            line_end_bounds(t, 0);
        }
        seq![t.take(n)] + line_tokens(t.skip(n))
    }
}

/// Where the first line of `t` ends: just past its first `\n` at or after
/// `from`, or at the end of `t`.
pub open spec fn line_end(t: Seq<char>, from: int) -> int
    decreases t.len() - from,
{
    if from >= t.len() {
        t.len() as int
    } else if t[from] == '\n' {
        from + 1
    } else {
        line_end(t, from + 1)
    }
}

/// Where a line ends lies past its start and within the text.
pub proof fn line_end_bounds(t: Seq<char>, from: int)
    requires
        0 <= from,
    ensures
        from < t.len() ==> from + 1 <= line_end(t, from) <= t.len(),
        from >= t.len() ==> line_end(t, from) == t.len(),
    decreases t.len() - from,
{
    if from < t.len() && t[from] != '\n' {
        line_end_bounds(t, from + 1);
    }
}

/// A text has no more line tokens than characters.
pub proof fn line_tokens_len(t: Seq<char>)
    ensures
        line_tokens(t).len() <= t.len(),
    decreases t.len(),
{
    if t.len() > 0 {
        line_end_bounds(t, 0);
        line_tokens_len(t.skip(line_end(t, 0)));
    }
}

/// The views of a list of lines.
pub open spec fn views(v: Seq<String>) -> Seq<Seq<char>> {
    v.map_values(|s: String| s@)
}

/// Split `text` into its line tokens, each with its separator.
#[verifier::external_body]
fn tokens_of(text: &str) -> (r: Vec<String>)
    ensures
        views(r@) == line_tokens(text@),
{
    imara_diff::sources::lines(text).map(|l| l.to_string()).collect()
}

/// A line token without its trailing `\n`, and then without a trailing `\r`.
pub open spec fn strip_eol(l: Seq<char>) -> Seq<char> {
    let a = if l.len() > 0 && l.last() == '\n' { l.drop_last() } else { l };
    if a.len() > 0 && a.last() == '\r' { a.drop_last() } else { a }
}

/// The lines of a text: one per line token, separators stripped, and no
/// phantom entry after a final newline.
pub open spec fn text_lines(t: Seq<char>) -> Seq<Seq<char>> {
    line_tokens(t).map_values(|l: Seq<char>| strip_eol(l))
}

/// `s` without its last character, when it ends with `c`.
fn strip_suffix_char(s: String, c: char) -> (r: String)
    ensures
        r@ == (if s@.len() > 0 && s@.last() == c { s@.drop_last() } else { s@ }),
{
    let n = s.as_str().unicode_len();
    if n > 0 && s.as_str().get_char(n - 1) == c {
        let t = s.as_str().substring_char(0, n - 1);
        assert(t@ =~= s@.drop_last());
        String::from_str(t)
    } else {
        s
    }
}

/// Split text into lines the way the line diff tokenises it: one entry per
/// line, the trailing newline (and carriage return) stripped, and no phantom
/// final entry.
pub fn split_lines(text: &str) -> (r: Vec<String>)
    ensures
        views(r@) == text_lines(text@),
{
    let tokens = tokens_of(text);
    let mut out: Vec<String> = Vec::new();
    let mut i: usize = 0;
    while i < tokens.len()
        invariant
            i <= tokens@.len(),
            views(tokens@) == line_tokens(text@),
            out@.len() == i,
            forall|k: int| 0 <= k < i ==> (#[trigger] out@[k])@ == strip_eol(tokens@[k]@),
        decreases tokens@.len() - i,
    {
        let l = tokens[i].clone();
        let a = strip_suffix_char(l, '\n');
        let b = strip_suffix_char(a, '\r');
        out.push(b);
        i = i + 1;
    }
    assert(views(out@) =~= text_lines(text@)) by {
        assert forall|k: int| 0 <= k < out@.len() implies #[trigger] views(out@)[k] == text_lines(text@)[k] by {
            assert(views(tokens@)[k] == tokens@[k]@);
        }
    }
    out
}

/// Whether two lists of lines say the same.
pub fn same_lines(a: &Vec<String>, b: &Vec<String>) -> (r: bool)
    ensures
        r == (views(a@) == views(b@)),
{
    if a.len() != b.len() {
        assert(views(a@).len() != views(b@).len());
        return false;
    }
    let mut i: usize = 0;
    while i < a.len()
        invariant
            i <= a@.len(),
            a@.len() == b@.len(),
            forall|k: int| 0 <= k < i ==> (#[trigger] a@[k])@ == b@[k]@,
        decreases a@.len() - i,
    {
        if a[i] != b[i] {
            assert(views(a@)[i as int] != views(b@)[i as int]);
            return false;
        }
        i = i + 1;
    }
    assert(views(a@) =~= views(b@));
    true
}

/// A changed stretch of two line-tokenised texts: lines `before.0..before.1`
/// of the first were replaced by lines `after.0..after.1` of the second.
pub type Hunk = ((u32, u32), (u32, u32));

/// The changed hunks imara-diff computes between two token sequences, by
/// Myers' algorithm when `myers` holds and by the histogram algorithm
/// otherwise. Tokens are compared by equality alone.
pub uninterp spec fn computed_hunks(myers: bool, before: Seq<Seq<char>>, after: Seq<Seq<char>>) -> Seq<Hunk>;

/// Where the stretch of kept lines before hunk `k` begins on each side: at
/// the start, or where hunk `k - 1` ends.
pub open spec fn gap_start(hs: Seq<Hunk>, k: int) -> (int, int) {
    if k <= 0 {
        (0, 0)
    } else {
        (hs[k - 1].0.1 as int, hs[k - 1].1.1 as int)
    }
}

/// `hs` is an edit script from `a` to `b`: the hunks come in order and inside
/// both texts, and the lines kept between them, and after the last, are the
/// same on both sides, line for line.
pub open spec fn hunks_follow(hs: Seq<Hunk>, a: Seq<Seq<char>>, b: Seq<Seq<char>>) -> bool {
    &&& forall|k: int| 0 <= k < hs.len() ==> {
        let (s, e) = gap_start(hs, k);
        let hk = #[trigger] hs[k];
        &&& s <= hk.0.0 <= hk.0.1 <= a.len()
        &&& e <= hk.1.0 <= hk.1.1 <= b.len()
        &&& hk.0.0 - s == hk.1.0 - e
        &&& a.subrange(s, hk.0.0 as int) == b.subrange(e, hk.1.0 as int)
    }
    &&& {
        let (s, e) = gap_start(hs, hs.len() as int);
        &&& s <= a.len() && e <= b.len()
        &&& a.len() - s == b.len() - e
        &&& a.subrange(s, a.len() as int) == b.subrange(e, b.len() as int)
    }
}

/// The changed hunks of imara-diff's histogram line diff (`InternedInput::new`
/// over `sources::lines` of both texts, `Diff::compute`, `Diff::hunks`), in
/// order: the result of the diff on the two texts' line tokens. The diff
/// takes fewer than `i32::MAX` tokens a side, which texts shorter than that
/// guarantee. `Diff::compute` builds an edit script from the first texts'
/// tokens to the second's, and `Diff::hunks` yields its runs of removed and
/// added tokens in increasing order, stepping over kept tokens on both sides
/// in lockstep: so the hunks follow one another inside both texts and the
/// kept lines between and after them are the same on both sides. Two equal
/// texts intern to equal token lists, which `Diff::compute_with` strips
/// whole as a common prefix before the algorithm runs, so they have no hunk.
#[verifier::external_body]
fn diff_hunks(before: &str, after: &str) -> (r: Vec<Hunk>)
    requires
        before@.len() < 0x7fff_ffff,
        after@.len() < 0x7fff_ffff,
    ensures
        r@ == computed_hunks(false, line_tokens(before@), line_tokens(after@)),
        hunks_follow(r@, line_tokens(before@), line_tokens(after@)),
        before@ == after@ ==> r@.len() == 0,
{
    let input = imara_diff::InternedInput::new(imara_diff::sources::lines(before), imara_diff::sources::lines(after));
    let diff = imara_diff::Diff::compute(imara_diff::Algorithm::Histogram, &input);
    diff.hunks().map(|h| ((h.before.start, h.before.end), (h.after.start, h.after.end))).collect()
}

/// What a single aligned row represents.
#[derive(Clone, Copy, PartialEq, Eq, Debug, Structural)]
pub enum RowKind {
    /// Identical on both sides.
    Unchanged,
    /// Present only on the right: an inserted line.
    Added,
    /// Present only on the left: a deleted line.
    Removed,
    /// A modified line: old text on the left, new text on the right.
    Changed,
}

/// One vertically-aligned row of the side-by-side view; `None` is a blank
/// filler on that side.
#[derive(Clone, Copy, PartialEq, Eq, Debug, Structural)]
pub struct DiffRow {
    pub left: Option<usize>,
    pub right: Option<usize>,
    pub kind: RowKind,
}

/// A row fits its kind, and its line numbers stand inside the two texts.
pub open spec fn row_ok(row: DiffRow, n_left: nat, n_right: nat) -> bool {
    &&& (row.left matches Some(l) ==> l < n_left)
    &&& (row.right matches Some(r) ==> r < n_right)
    &&& match row.kind {
        RowKind::Unchanged | RowKind::Changed => row.left is Some && row.right is Some,
        RowKind::Removed => row.left is Some && row.right is None,
        RowKind::Added => row.left is None && row.right is Some,
    }
}

/// The larger of `x` and nothing.
pub open spec fn nonneg(x: int) -> int {
    if x < 0 { 0 } else { x }
}

/// The smaller of two integers.
pub open spec fn least(x: int, y: int) -> int {
    if x <= y { x } else { y }
}

/// `m` rows pairing line `b + i` on the left with line `d + i` on the right.
#[verifier::opaque]
pub open spec fn paired(b: int, d: int, m: int, kind: RowKind) -> Seq<DiffRow> {
    Seq::new(m as nat, |i: int| DiffRow { left: Some((b + i) as usize), right: Some((d + i) as usize), kind })
}

/// `m` removed rows: left lines `b..b + m` against blank fillers.
#[verifier::opaque]
pub open spec fn removed_rows(b: int, m: int) -> Seq<DiffRow> {
    Seq::new(m as nat, |i: int| DiffRow { left: Some((b + i) as usize), right: None, kind: RowKind::Removed })
}

/// `m` added rows: blank fillers against right lines `d..d + m`.
#[verifier::opaque]
pub open spec fn added_rows(d: int, m: int) -> Seq<DiffRow> {
    Seq::new(m as nat, |i: int| DiffRow { left: None, right: Some((d + i) as usize), kind: RowKind::Added })
}

/// The rows one hunk lays out when the next unshown lines are `b` and `d`,
/// with where the two sides stand afterwards. The hunk's bounds are first
/// kept inside the texts. Unchanged lines pair up to the hunk's start; the
/// overlap of its two sides pairs as changed; the longer side spills into
/// removed or added rows.
pub open spec fn hunk_rows(n_base: int, n_doc: int, hk: Hunk, b: int, d: int) -> (Seq<DiffRow>, int, int) {
    let (m1, m2, m3, m4) = hunk_runs(n_base, n_doc, hk, b, d);
    (
        paired(b, d, m1, RowKind::Unchanged) + paired(b + m1, d + m1, m2, RowKind::Changed)
            + removed_rows(b + m1 + m2, m3) + added_rows(d + m1 + m2, m4),
        b + m1 + m2 + m3,
        d + m1 + m2 + m4,
    )
}

/// The lengths of a hunk's four runs of rows (unchanged, changed, removed,
/// added) when the next unshown lines are `b` and `d`.
pub open spec fn hunk_runs(n_base: int, n_doc: int, hk: Hunk, b: int, d: int) -> (int, int, int, int) {
    let bs = least(hk.0.0 as int, n_base);
    let be = least(hk.0.1 as int, n_base);
    let a_s = least(hk.1.0 as int, n_doc);
    let a_e = least(hk.1.1 as int, n_doc);
    let m1 = nonneg(least(bs - b, n_doc - d));
    let common = least(nonneg(be - bs), nonneg(a_e - a_s));
    let m2 = nonneg(least(common, least(n_base - (b + m1), n_doc - (d + m1))));
    let m3 = nonneg(be - (b + m1 + m2));
    let m4 = nonneg(a_e - (d + m1 + m2));
    (m1, m2, m3, m4)
}

/// The rows laid out from hunk `h` on, the next unshown lines being `b` and
/// `d`: each hunk's rows in turn, then the unchanged tail paired up to the
/// end of the shorter text.
pub open spec fn align_rows(n_base: int, n_doc: int, hunks: Seq<Hunk>, h: int, b: int, d: int) -> Seq<DiffRow>
    decreases hunks.len() - h,
{
    if h >= hunks.len() || h < 0 {
        paired(b, d, nonneg(least(n_base - b, n_doc - d)), RowKind::Unchanged)
    } else {
        let (r, b2, d2) = hunk_rows(n_base, n_doc, hunks[h], b, d);
        r + align_rows(n_base, n_doc, hunks, h + 1, b2, d2)
    }
}

/// Append `m` paired rows of `kind` from lines `b` and `d`.
fn push_paired(rows: &mut Vec<DiffRow>, b: u32, d: u32, m: u32, kind: RowKind)
    requires
        b + m <= u32::MAX,
        d + m <= u32::MAX,
    ensures
        final(rows)@ == old(rows)@ + paired(b as int, d as int, m as int, kind),
{
    proof {
        reveal(paired);
    }
    let mut i: u32 = 0;
    while i < m
        invariant
            i <= m,
            b + m <= u32::MAX,
            d + m <= u32::MAX,
            rows@ == old(rows)@ + paired(b as int, d as int, i as int, kind),
        decreases m - i,
    {
        rows.push(DiffRow { left: Some((b + i) as usize), right: Some((d + i) as usize), kind });
        i = i + 1;
        proof {
            reveal(paired);
        }
        assert(rows@ =~= old(rows)@ + paired(b as int, d as int, i as int, kind));
    }
}

/// Append `m` removed rows from left line `b`.
fn push_removed(rows: &mut Vec<DiffRow>, b: u32, m: u32)
    requires
        b + m <= u32::MAX,
    ensures
        final(rows)@ == old(rows)@ + removed_rows(b as int, m as int),
{
    proof {
        reveal(removed_rows);
    }
    let mut i: u32 = 0;
    while i < m
        invariant
            i <= m,
            b + m <= u32::MAX,
            rows@ == old(rows)@ + removed_rows(b as int, i as int),
        decreases m - i,
    {
        rows.push(DiffRow { left: Some((b + i) as usize), right: None, kind: RowKind::Removed });
        i = i + 1;
        proof {
            reveal(removed_rows);
        }
        assert(rows@ =~= old(rows)@ + removed_rows(b as int, i as int));
    }
}

/// Append `m` added rows from right line `d`.
fn push_added(rows: &mut Vec<DiffRow>, d: u32, m: u32)
    requires
        d + m <= u32::MAX,
    ensures
        final(rows)@ == old(rows)@ + added_rows(d as int, m as int),
{
    proof {
        reveal(added_rows);
    }
    let mut i: u32 = 0;
    while i < m
        invariant
            i <= m,
            d + m <= u32::MAX,
            rows@ == old(rows)@ + added_rows(d as int, i as int),
        decreases m - i,
    {
        rows.push(DiffRow { left: None, right: Some((d + i) as usize), kind: RowKind::Added });
        i = i + 1;
        proof {
            reveal(added_rows);
        }
        assert(rows@ =~= old(rows)@ + added_rows(d as int, i as int));
    }
}

/// Paired rows inside both texts fit their kind.
proof fn paired_ok(b: int, d: int, m: int, kind: RowKind, n_base: int, n_doc: int)
    requires
        0 <= b,
        0 <= d,
        0 <= m,
        b + m <= n_base <= u32::MAX,
        d + m <= n_doc <= u32::MAX,
        kind == RowKind::Unchanged || kind == RowKind::Changed,
    ensures
        forall|k: int| 0 <= k < paired(b, d, m, kind).len() ==> row_ok(#[trigger] paired(b, d, m, kind)[k], n_base as nat, n_doc as nat),
{
    reveal(paired);
    assert forall|k: int| 0 <= k < paired(b, d, m, kind).len() implies row_ok(#[trigger] paired(b, d, m, kind)[k], n_base as nat, n_doc as nat) by {
        assert(u32::MAX <= usize::MAX);
        assert(((b + k) as usize) as int == b + k);
        assert(((d + k) as usize) as int == d + k);
    }
}

/// Removed rows inside the left text fit their kind.
proof fn removed_ok(b: int, m: int, n_base: int, n_doc: int)
    requires
        0 <= b,
        0 <= m,
        b + m <= n_base <= u32::MAX,
    ensures
        forall|k: int| 0 <= k < removed_rows(b, m).len() ==> row_ok(#[trigger] removed_rows(b, m)[k], n_base as nat, n_doc as nat),
{
    reveal(removed_rows);
    assert forall|k: int| 0 <= k < removed_rows(b, m).len() implies row_ok(#[trigger] removed_rows(b, m)[k], n_base as nat, n_doc as nat) by {
        assert(u32::MAX <= usize::MAX);
        assert(((b + k) as usize) as int == b + k);
    }
}

/// Added rows inside the right text fit their kind.
proof fn added_ok(d: int, m: int, n_base: int, n_doc: int)
    requires
        0 <= d,
        0 <= m,
        d + m <= n_doc <= u32::MAX,
    ensures
        forall|k: int| 0 <= k < added_rows(d, m).len() ==> row_ok(#[trigger] added_rows(d, m)[k], n_base as nat, n_doc as nat),
{
    reveal(added_rows);
    assert forall|k: int| 0 <= k < added_rows(d, m).len() implies row_ok(#[trigger] added_rows(d, m)[k], n_base as nat, n_doc as nat) by {
        assert(u32::MAX <= usize::MAX);
        assert(((d + k) as usize) as int == d + k);
    }
}

/// A hunk's rows fit their kinds and stand inside the texts, and the two
/// sides only move forward within them.
proof fn hunk_rows_ok(n_base: int, n_doc: int, hk: Hunk, b: int, d: int)
    requires
        0 <= b <= n_base <= u32::MAX,
        0 <= d <= n_doc <= u32::MAX,
    ensures
        b <= hunk_rows(n_base, n_doc, hk, b, d).1 <= n_base,
        d <= hunk_rows(n_base, n_doc, hk, b, d).2 <= n_doc,
        forall|k: int|
            0 <= k < hunk_rows(n_base, n_doc, hk, b, d).0.len() ==> row_ok(
                #[trigger] hunk_rows(n_base, n_doc, hk, b, d).0[k],
                n_base as nat,
                n_doc as nat,
            ),
{
    let (m1, m2, m3, m4) = hunk_runs(n_base, n_doc, hk, b, d);
    let (b1, d1) = (b + m1, d + m1);
    let (b2, d2) = (b1 + m2, d1 + m2);
    let p1 = paired(b, d, m1, RowKind::Unchanged);
    let p2 = paired(b1, d1, m2, RowKind::Changed);
    let p3 = removed_rows(b2, m3);
    let p4 = added_rows(d2, m4);
    paired_ok(b, d, m1, RowKind::Unchanged, n_base, n_doc);
    paired_ok(b1, d1, m2, RowKind::Changed, n_base, n_doc);
    removed_ok(b2, m3, n_base, n_doc);
    added_ok(d2, m4, n_base, n_doc);
    let r = p1 + p2 + p3 + p4;
    assert forall|k: int| 0 <= k < r.len() implies row_ok(#[trigger] r[k], n_base as nat, n_doc as nat) by {
        if k < p1.len() {
            assert(r[k] == p1[k]);
        } else if k < p1.len() + p2.len() {
            assert(r[k] == p2[k - p1.len()]);
        } else if k < p1.len() + p2.len() + p3.len() {
            assert(r[k] == p3[k - p1.len() - p2.len()]);
        } else {
            assert(r[k] == p4[k - p1.len() - p2.len() - p3.len()]);
        }
    }
}

/// Every row laid out from lines `b` and `d` on fits its kind and stands
/// inside the two texts.
pub proof fn align_rows_ok(n_base: int, n_doc: int, hunks: Seq<Hunk>, h: int, b: int, d: int)
    requires
        0 <= b <= n_base <= u32::MAX,
        0 <= d <= n_doc <= u32::MAX,
    ensures
        forall|k: int|
            0 <= k < align_rows(n_base, n_doc, hunks, h, b, d).len() ==> row_ok(
                #[trigger] align_rows(n_base, n_doc, hunks, h, b, d)[k],
                n_base as nat,
                n_doc as nat,
            ),
    decreases hunks.len() - h,
{
    if h >= hunks.len() || h < 0 {
        paired_ok(b, d, nonneg(least(n_base - b, n_doc - d)), RowKind::Unchanged, n_base, n_doc);
    } else {
        let (r, b2, d2) = hunk_rows(n_base, n_doc, hunks[h], b, d);
        hunk_rows_ok(n_base, n_doc, hunks[h], b, d);
        align_rows_ok(n_base, n_doc, hunks, h + 1, b2, d2);
        let rest = align_rows(n_base, n_doc, hunks, h + 1, b2, d2);
        let all = align_rows(n_base, n_doc, hunks, h, b, d);
        assert(all == r + rest);
        assert forall|k: int| 0 <= k < all.len() implies row_ok(#[trigger] all[k], n_base as nat, n_doc as nat) by {
            if k < r.len() {
                assert(all[k] == r[k]);
            } else {
                assert(all[k] == rest[k - r.len()]);
            }
        }
    }
}

/// The four run lengths of a hunk, computed.
#[verifier::spinoff_prover]
#[verifier::rlimit(40)]
fn runs_of(n_base: u32, n_doc: u32, hk: Hunk, b: u32, d: u32) -> (r: (u32, u32, u32, u32))
    requires
        b <= n_base,
        d <= n_doc,
    ensures
        (r.0 as int, r.1 as int, r.2 as int, r.3 as int) == hunk_runs(n_base as int, n_doc as int, hk, b as int, d as int),
        b + r.0 + r.1 + r.2 <= n_base,
        d + r.0 + r.1 + r.3 <= n_doc,
{
    let ((bs, be), (a_s, a_e)) = hk;
    let bs = if bs <= n_base { bs } else { n_base };
    let be = if be <= n_base { be } else { n_base };
    let a_s = if a_s <= n_doc { a_s } else { n_doc };
    let a_e = if a_e <= n_doc { a_e } else { n_doc };
    assert(bs == least(hk.0.0 as int, n_base as int) && be == least(hk.0.1 as int, n_base as int));
    assert(a_s == least(hk.1.0 as int, n_doc as int) && a_e == least(hk.1.1 as int, n_doc as int));
    // Unchanged region between the previous hunk and this one.
    let m1: u32 = if b < bs && d < n_doc {
        if bs - b <= n_doc - d { bs - b } else { n_doc - d }
    } else {
        0
    };
    assert(m1 == nonneg(least(bs - b, n_doc - d)));
    let b1 = b + m1;
    let d1 = d + m1;
    // The hunk itself: the overlap is changed, the rest removed or added.
    let removed: u32 = if be >= bs { be - bs } else { 0 };
    let added: u32 = if a_e >= a_s { a_e - a_s } else { 0 };
    let common: u32 = if removed <= added { removed } else { added };
    let room: u32 = if n_base - b1 <= n_doc - d1 { n_base - b1 } else { n_doc - d1 };
    let m2: u32 = if common <= room { common } else { room };
    assert(common == least(nonneg(be - bs), nonneg(a_e - a_s)));
    assert(m2 == nonneg(least(common as int, least(n_base - b1, n_doc - d1))));
    let b2 = b1 + m2;
    let d2 = d1 + m2;
    let m3: u32 = if be > b2 { be - b2 } else { 0 };
    let m4: u32 = if a_e > d2 { a_e - d2 } else { 0 };
    assert(m3 == nonneg(be - b2));
    assert(m4 == nonneg(a_e - d2));
    (m1, m2, m3, m4)
}

/// Append the rows of one hunk, the next unshown lines being `b` and `d`;
/// gives where the two sides stand afterwards.
fn lay_hunk(rows: &mut Vec<DiffRow>, n_base: u32, n_doc: u32, hk: Hunk, b: u32, d: u32) -> (next: (u32, u32))
    requires
        b <= n_base,
        d <= n_doc,
    ensures
        final(rows)@ == old(rows)@ + hunk_rows(n_base as int, n_doc as int, hk, b as int, d as int).0,
        next.0 == hunk_rows(n_base as int, n_doc as int, hk, b as int, d as int).1,
        next.1 == hunk_rows(n_base as int, n_doc as int, hk, b as int, d as int).2,
        next.0 <= n_base,
        next.1 <= n_doc,
{
    let (m1, m2, m3, m4) = runs_of(n_base, n_doc, hk, b, d);
    push_paired(rows, b, d, m1, RowKind::Unchanged);
    push_paired(rows, b + m1, d + m1, m2, RowKind::Changed);
    push_removed(rows, b + m1 + m2, m3);
    push_added(rows, d + m1 + m2, m4);
    proof {
        let p1 = paired(b as int, d as int, m1 as int, RowKind::Unchanged);
        let p2 = paired(b + m1, d + m1, m2 as int, RowKind::Changed);
        let p3 = removed_rows(b + m1 + m2, m3 as int);
        let p4 = added_rows(d + m1 + m2, m4 as int);
        let o = old(rows)@;
        assert(o + p1 + p2 + p3 + p4 =~= o + (p1 + p2 + p3 + p4));
    }
    (b + m1 + m2 + m3, d + m1 + m2 + m4)
}

/// Lay the rows out from a text of `n_base` lines, one of `n_doc` lines, and
/// the hunks between them: unchanged lines pair up, a hunk pairs its
/// overlapping span as changed and spills the longer side into removed or
/// added rows, and the unchanged tail pairs up to the end of the shorter text.
pub fn align_hunks(n_base: u32, n_doc: u32, hunks: &Vec<Hunk>) -> (rows: Vec<DiffRow>)
    ensures
        rows@ == align_rows(n_base as int, n_doc as int, hunks@, 0, 0, 0),
        forall|k: int| 0 <= k < rows@.len() ==> row_ok(#[trigger] rows@[k], n_base as nat, n_doc as nat),
{
    let mut rows: Vec<DiffRow> = Vec::new();
    let mut b: u32 = 0;
    let mut d: u32 = 0;
    let mut h: usize = 0;
    while h < hunks.len()
        invariant
            h <= hunks@.len(),
            b <= n_base,
            d <= n_doc,
            rows@ + align_rows(n_base as int, n_doc as int, hunks@, h as int, b as int, d as int)
                == align_rows(n_base as int, n_doc as int, hunks@, 0, 0, 0),
        decreases hunks@.len() - h,
    {
        let ghost before_rows = rows@;
        let ghost (hr, hb, hd) = hunk_rows(n_base as int, n_doc as int, hunks@[h as int], b as int, d as int);
        assert(align_rows(n_base as int, n_doc as int, hunks@, h as int, b as int, d as int)
            == hr + align_rows(n_base as int, n_doc as int, hunks@, h as int + 1, hb, hd));
        let (b2, d2) = lay_hunk(&mut rows, n_base, n_doc, hunks[h], b, d);
        proof {
            let rest = align_rows(n_base as int, n_doc as int, hunks@, h as int + 1, b2 as int, d2 as int);
            assert(before_rows + hr + rest =~= before_rows + (hr + rest));
        }
        b = b2;
        d = d2;
        h = h + 1;
    }
    // Trailing unchanged tail: both sides advance together.
    let m: u32 = if n_base - b <= n_doc - d { n_base - b } else { n_doc - d };
    push_paired(&mut rows, b, d, m, RowKind::Unchanged);
    proof {
        assert(rows@ == align_rows(n_base as int, n_doc as int, hunks@, 0, 0, 0));
        align_rows_ok(n_base as int, n_doc as int, hunks@, 0, 0, 0);
    }
    rows
}

/// The aligned row list for two texts, from their line diff.
pub fn align(base: &str, doc: &str) -> (rows: Vec<DiffRow>)
    requires
        base@.len() < 0x7fff_ffff,
        doc@.len() < 0x7fff_ffff,
    ensures
        rows@ == align_rows(
            text_lines(base@).len() as int,
            text_lines(doc@).len() as int,
            computed_hunks(false, line_tokens(base@), line_tokens(doc@)),
            0,
            0,
            0,
        ),
        forall|k: int| 0 <= k < rows@.len() ==> row_ok(
            #[trigger] rows@[k],
            text_lines(base@).len(),
            text_lines(doc@).len(),
        ),
        hunks_follow(computed_hunks(false, line_tokens(base@), line_tokens(doc@)), line_tokens(base@), line_tokens(doc@)),
        base@ == doc@ ==> computed_hunks(false, line_tokens(base@), line_tokens(doc@)).len() == 0,
{
    let base_lines = split_lines(base);
    let doc_lines = split_lines(doc);
    assert(views(base_lines@).len() == base_lines@.len());
    assert(views(doc_lines@).len() == doc_lines@.len());
    proof {
        line_tokens_len(base@);
        line_tokens_len(doc@);
    }
    let n_base: u32 = base_lines.len() as u32;
    let n_doc: u32 = doc_lines.len() as u32;
    let hunks = diff_hunks(base, doc);
    align_hunks(n_base, n_doc, &hunks)
}

/// The aligned rows of two texts' line diff.
pub open spec fn aligned(base: Seq<char>, other: Seq<char>) -> Seq<DiffRow> {
    align_rows(
        text_lines(base).len() as int,
        text_lines(other).len() as int,
        computed_hunks(false, line_tokens(base), line_tokens(other)),
        0,
        0,
        0,
    )
}

/// The match map of `n` left lines read off the first `r` rows: an
/// unchanged row records its right line for its left line, a later row
/// overriding an earlier one; other lines match nothing.
pub open spec fn matches_upto(rows: Seq<DiffRow>, n: nat, r: int) -> Seq<Option<usize>>
    decreases r,
{
    if r <= 0 {
        Seq::new(n, |k: int| None)
    } else {
        let m = matches_upto(rows, n, r - 1);
        let row = rows[r - 1];
        if row.kind == RowKind::Unchanged && row.right is Some && (row.left matches Some(l) && l < n) {
            m.update(row.left->0 as int, row.right)
        } else {
            m
        }
    }
}

/// The match map of `n` left lines read off all the rows.
pub open spec fn match_map(rows: Seq<DiffRow>, n: nat) -> Seq<Option<usize>> {
    matches_upto(rows, n, rows.len() as int)
}

/// For each line of `base`, the line of `other` it stands unchanged as, if
/// it does: read off the unchanged rows of the two texts' alignment.
pub fn base_match_map(base: &str, other: &str) -> (map: Vec<Option<usize>>)
    requires
        base@.len() < 0x7fff_ffff,
        other@.len() < 0x7fff_ffff,
    ensures
        map@ == match_map(aligned(base@, other@), text_lines(base@).len()),
        map@.len() == text_lines(base@).len(),
        forall|k: int| 0 <= k < map@.len() ==> (#[trigger] map@[k] matches Some(o) ==> o < text_lines(other@).len()),
        matches_ok(map@, text_lines(base@), text_lines(other@)),
        base@ == other@ ==> forall|k: int| 0 <= k < map@.len() ==> #[trigger] map@[k] == Some(k as usize),
{
    let n_base = split_lines(base).len();
    let ghost n = text_lines(base@).len();
    let mut map: Vec<Option<usize>> = Vec::new();
    let mut i: usize = 0;
    while i < n_base
        invariant
            i <= n_base,
            map@.len() == i,
            forall|k: int| 0 <= k < i ==> #[trigger] map@[k] is None,
        decreases n_base - i,
    {
        map.push(None);
        i = i + 1;
    }
    let rows = align(base, other);
    proof {
        line_tokens_len(base@);
        line_tokens_len(other@);
        match_map_ok(base@, other@);
        if base@ == other@ {
            match_map_itself(base@);
        }
    }
    assert(map@ =~= matches_upto(rows@, n, 0));
    let mut r: usize = 0;
    while r < rows.len()
        invariant
            r <= rows@.len(),
            map@.len() == n_base,
            n_base == n,
            n == text_lines(base@).len(),
            rows@ == aligned(base@, other@),
            map@ == matches_upto(rows@, n, r as int),
            forall|k: int| 0 <= k < rows@.len() ==> row_ok(#[trigger] rows@[k], text_lines(base@).len(), text_lines(other@).len()),
            forall|k: int| 0 <= k < map@.len() ==> (#[trigger] map@[k] matches Some(o) ==> o < text_lines(other@).len()),
            matches_ok(match_map(aligned(base@, other@), n), text_lines(base@), text_lines(other@)),
            base@ == other@ ==> forall|k: int| 0 <= k < n ==> #[trigger] match_map(aligned(base@, other@), n)[k] == Some(k as usize),
        decreases rows@.len() - r,
    {
        let row = rows[r];
        assert(row_ok(rows@[r as int], text_lines(base@).len(), text_lines(other@).len()));
        if row.kind == RowKind::Unchanged {
            match (row.left, row.right) {
                (Some(b), Some(o)) => {
                    map.set(b, Some(o));
                },
                _ => {},
            }
        }
        r = r + 1;
    }
    map
}

/// A parsed region of a conflicted file: either already-merged context
/// lines or an unresolved conflict with its ours/base/theirs sides (lines have
/// their trailing newline stripped). `base` is empty unless the file carries
/// the `|||||||` section of the diff3 conflict style.
#[derive(Clone, Debug, PartialEq, Eq)]
pub enum Segment {
    /// Lines outside any conflict: already merged.
    Context(Vec<String>),
    /// One `<<<<<<< … >>>>>>>` region.
    Conflict { ours: Vec<String>, base: Vec<String>, theirs: Vec<String> },
}

/// What a segment says: its lines as character sequences.
pub ghost enum SegmentModel {
    Context(Seq<Seq<char>>),
    Conflict(Seq<Seq<char>>, Seq<Seq<char>>, Seq<Seq<char>>),
}

impl View for Segment {
    type V = SegmentModel;

    open spec fn view(&self) -> SegmentModel {
        match self {
            Segment::Context(lines) => SegmentModel::Context(views(lines@)),
            Segment::Conflict { ours, base, theirs } => SegmentModel::Conflict(
                views(ours@),
                views(base@),
                views(theirs@),
            ),
        }
    }
}

/// The models of a list of segments.
pub open spec fn models(v: Seq<Segment>) -> Seq<SegmentModel> {
    v.map_values(|s: Segment| s@)
}

/// The pending context flushed as a segment, when there is any.
pub open spec fn flushed(ctx: Seq<Seq<char>>) -> Seq<SegmentModel> {
    if ctx.len() > 0 { seq![SegmentModel::Context(ctx)] } else { Seq::empty() }
}

/// The classic diff3 decision on one region. When ours left the base alone
/// theirs is taken; when theirs left it alone, or both made the same edit,
/// ours is taken; taken lines join the pending context. Otherwise the
/// pending context is flushed and the region is a conflict carrying its base.
/// Gives the new segments and the new pending context.
pub open spec fn resolved(
    segs: Seq<SegmentModel>,
    ctx: Seq<Seq<char>>,
    ours: Seq<Seq<char>>,
    base: Seq<Seq<char>>,
    theirs: Seq<Seq<char>>,
) -> (Seq<SegmentModel>, Seq<Seq<char>>) {
    if ours == base {
        (segs, ctx + theirs)
    } else if theirs == base || ours == theirs {
        (segs, ctx + ours)
    } else {
        (segs + flushed(ctx) + seq![SegmentModel::Conflict(ours, base, theirs)], Seq::empty())
    }
}

/// Append `more` to `v`.
fn extend_lines(v: &mut Vec<String>, more: Vec<String>)
    ensures
        views(final(v)@) == views(old(v)@) + views(more@),
{
    let ghost added = more@;
    let mut more = more;
    v.append(&mut more);
    assert(views(v@) =~= views(old(v)@) + views(added));
}

/// Resolve one region of a three-way merge into auto-merged context or a
/// genuine conflict, flushing the pending context before a conflict.
fn resolve_region(
    segments: &mut Vec<Segment>,
    ctx: &mut Vec<String>,
    ours: Vec<String>,
    base: Vec<String>,
    theirs: Vec<String>,
)
    ensures
        (models(final(segments)@), views(final(ctx)@)) == resolved(
            models(old(segments)@),
            views(old(ctx)@),
            views(ours@),
            views(base@),
            views(theirs@),
        ),
{
    if same_lines(&ours, &base) {
        extend_lines(ctx, theirs);
    } else if same_lines(&theirs, &base) || same_lines(&ours, &theirs) {
        extend_lines(ctx, ours);
    } else {
        if ctx.len() > 0 {
            let mut pending: Vec<String> = Vec::new();
            std::mem::swap(ctx, &mut pending);
            segments.push(Segment::Context(pending));
        }
        segments.push(Segment::Conflict { ours, base, theirs });
        assert(models(segments@) =~= models(old(segments)@) + flushed(views(old(ctx)@))
            + seq![SegmentModel::Conflict(views(ours@), views(base@), views(theirs@))]);
        assert(views(ctx@) =~= Seq::<Seq<char>>::empty());
    }
}

/// A line opens with a conflict marker made of seven `c`s.
pub open spec fn marked(l: Seq<char>, c: char) -> bool {
    l.len() >= 7 && forall|k: int| 0 <= k < 7 ==> l[k] == c
}

/// Whether a line ends a run of conflict lines: the ours run (`level` 0)
/// stops at `|||||||`, `=======` or `>>>>>>>`; the base run (1) at
/// `=======` or `>>>>>>>`; the theirs run (2) at `>>>>>>>`.
pub open spec fn stops(l: Seq<char>, level: int) -> bool {
    (level == 0 && marked(l, '|')) || (level <= 1 && marked(l, '=')) || marked(l, '>')
}

/// Where a run of conflict lines starting at line `i` ends: the first line
/// from `i` on that stops it, or the end of the text.
pub open spec fn run_end(lines: Seq<Seq<char>>, i: int, level: int) -> int
    decreases lines.len() - i,
{
    if i >= lines.len() {
        lines.len() as int
    } else if stops(lines[i], level) {
        i
    } else {
        run_end(lines, i + 1, level)
    }
}

/// A run ends at or after its start and within the text.
pub proof fn run_end_bounds(lines: Seq<Seq<char>>, i: int, level: int)
    requires
        i <= lines.len(),
    ensures
        i <= run_end(lines, i, level) <= lines.len(),
    decreases lines.len() - i,
{
    if i < lines.len() && !stops(lines[i], level) {
        run_end_bounds(lines, i + 1, level);
    }
}

/// The conflict opened by the marker at line `i`: its ours, base and theirs
/// lines, and the line after it. Ours runs to the next marker; a `|||||||`
/// there opens the base, a `=======` then opens theirs, and a `>>>>>>>`
/// closes the conflict; a missing marker leaves its section empty.
pub open spec fn conflict_at(lines: Seq<Seq<char>>, i: int) -> (Seq<Seq<char>>, Seq<Seq<char>>, Seq<Seq<char>>, int) {
    let n = lines.len() as int;
    let oe = run_end(lines, i + 1, 0);
    let ours = lines.subrange(i + 1, oe);
    let has_base = oe < n && marked(lines[oe], '|');
    let j = if has_base { run_end(lines, oe + 1, 1) } else { oe };
    let base = if has_base { lines.subrange(oe + 1, j) } else { Seq::empty() };
    let has_theirs = j < n && marked(lines[j], '=');
    let k = if has_theirs { run_end(lines, j + 1, 2) } else { j };
    let theirs = if has_theirs { lines.subrange(j + 1, k) } else { Seq::empty() };
    let next = if k < n && marked(lines[k], '>') { k + 1 } else { k };
    (ours, base, theirs, next)
}

/// A conflict at line `i` ends past its opening marker and within the text.
pub proof fn conflict_at_bounds(lines: Seq<Seq<char>>, i: int)
    requires
        0 <= i < lines.len(),
    ensures
        i < conflict_at(lines, i).3 <= lines.len(),
{
    let n = lines.len() as int;
    run_end_bounds(lines, i + 1, 0);
    let oe = run_end(lines, i + 1, 0);
    if oe < n && marked(lines[oe], '|') {
        run_end_bounds(lines, oe + 1, 1);
    }
    let j = conflict_at_j(lines, i);
    if j < n && marked(lines[j], '=') {
        run_end_bounds(lines, j + 1, 2);
    }
}

/// Where the theirs section of the conflict at line `i` may open.
pub open spec fn conflict_at_j(lines: Seq<Seq<char>>, i: int) -> int {
    let oe = run_end(lines, i + 1, 0);
    if oe < lines.len() && marked(lines[oe], '|') { run_end(lines, oe + 1, 1) } else { oe }
}

/// The segments of the lines from `i` on, `ctx` being the context lines
/// gathered so far: lines outside conflicts gather into context, which a
/// conflict or the end of the text flushes as one segment.
pub open spec fn parse_from(lines: Seq<Seq<char>>, i: int, ctx: Seq<Seq<char>>) -> Seq<SegmentModel>
    decreases lines.len() - i,
{
    if i >= lines.len() || i < 0 {
        flushed(ctx)
    } else if !marked(lines[i], '<') {
        parse_from(lines, i + 1, ctx.push(lines[i]))
    } else {
        let (ours, base, theirs, next) = conflict_at(lines, i);
        proof {
            conflict_at_bounds(lines, i);
        }
        flushed(ctx) + seq![SegmentModel::Conflict(ours, base, theirs)] + parse_from(lines, next, Seq::empty())
    }
}

/// Whether some line opens a conflict.
pub open spec fn has_conflict(lines: Seq<Seq<char>>) -> bool {
    exists|k: int| 0 <= k < lines.len() && marked(#[trigger] lines[k], '<')
}

/// Whether `line` opens with seven `c`s.
fn is_marked(line: &String, c: char) -> (r: bool)
    ensures
        r == marked(line@, c),
{
    let s = line.as_str();
    let n = s.unicode_len();
    if n < 7 {
        return false;
    }
    let mut k: usize = 0;
    while k < 7
        invariant
            k <= 7,
            n == line@.len(),
            7 <= n,
            s@ == line@,
            forall|j: int| 0 <= j < k ==> line@[j] == c,
        decreases 7 - k,
    {
        if s.get_char(k) != c {
            return false;
        }
        k = k + 1;
    }
    true
}

/// Whether `line` stops a run of conflict lines at `level`.
fn stops_run(line: &String, level: u8) -> (r: bool)
    ensures
        r == stops(line@, level as int),
{
    (level == 0 && is_marked(line, '|')) || (level <= 1 && is_marked(line, '=')) || is_marked(line, '>')
}

/// The run of conflict lines from line `from`, and where it ends.
fn collect_run(lines: &Vec<String>, from: usize, level: u8) -> (r: (Vec<String>, usize))
    requires
        from <= lines@.len(),
    ensures
        r.1 == run_end(views(lines@), from as int, level as int),
        views(r.0@) == views(lines@).subrange(from as int, r.1 as int),
{
    let ghost l = views(lines@);
    let mut out: Vec<String> = Vec::new();
    let mut i = from;
    while i < lines.len() && !stops_run(&lines[i], level)
        invariant
            from <= i <= lines@.len(),
            l == views(lines@),
            run_end(l, i as int, level as int) == run_end(l, from as int, level as int),
            views(out@) == l.subrange(from as int, i as int),
        decreases lines@.len() - i,
    {
        let ghost old_out = out@;
        assert(l[i as int] == lines@[i as int]@);
        let c = lines[i].clone();
        assert(c@ == l[i as int]);
        out.push(c);
        assert(views(out@) =~= views(old_out).push(c@));
        i = i + 1;
        assert(views(out@) =~= l.subrange(from as int, i as int));
    }
    (out, i)
}

/// Parse git merge-conflict markers out of `text`.
///
/// `None` when no line opens with `<<<<<<<`. Otherwise the file split into
/// ordered segments: multiple conflicts, the optional `|||||||` base section,
/// CRLF line endings and a missing trailing newline are handled, and markers
/// may carry a label after their seven characters.
pub fn parse_conflicts(text: &str) -> (r: Option<Vec<Segment>>)
    ensures
        r is None <==> !has_conflict(text_lines(text@)),
        r matches Some(segs) ==> models(segs@) == parse_from(text_lines(text@), 0, Seq::empty()),
{
    let lines = split_lines(text);
    let ghost l = views(lines@);
    let mut found = false;
    let mut s: usize = 0;
    while s < lines.len()
        invariant
            s <= lines@.len(),
            l == views(lines@),
            found <==> exists|k: int| 0 <= k < s && marked(#[trigger] l[k], '<'),
        decreases lines@.len() - s,
    {
        assert(l[s as int] == lines@[s as int]@);
        if is_marked(&lines[s], '<') {
            found = true;
        }
        s = s + 1;
    }
    if !found {
        return None;
    }
    let mut segments: Vec<Segment> = Vec::new();
    let mut context: Vec<String> = Vec::new();
    let mut i: usize = 0;
    assert(views(context@) =~= Seq::<Seq<char>>::empty());
    assert(models(segments@) =~= Seq::<SegmentModel>::empty());
    while i < lines.len()
        invariant
            i <= lines@.len(),
            l == views(lines@),
            l == text_lines(text@),
            models(segments@) + parse_from(l, i as int, views(context@)) == parse_from(l, 0, Seq::empty()),
        decreases lines@.len() - i,
    {
        let ghost before = models(segments@);
        let ghost ctx = views(context@);
        assert(l[i as int] == lines@[i as int]@);
        if !is_marked(&lines[i], '<') {
            context.push(lines[i].clone());
            assert(views(context@) =~= ctx.push(l[i as int]));
            i = i + 1;
        } else {
            proof {
                conflict_at_bounds(l, i as int);
            }
            let ghost (o_v, b_v, t_v, next_v) = conflict_at(l, i as int);
            if context.len() > 0 {
                let mut pending: Vec<String> = Vec::new();
                std::mem::swap(&mut context, &mut pending);
                segments.push(Segment::Context(pending));
            }
            assert(models(segments@) =~= before + flushed(ctx));
            proof {
                run_end_bounds(l, i as int + 1, 0);
            }
            let (ours, oe) = collect_run(&lines, i + 1, 0);
            let mut j = oe;
            let mut base: Vec<String> = Vec::new();
            if j < lines.len() && is_marked(&lines[j], '|') {
                proof {
                    run_end_bounds(l, j as int + 1, 1);
                }
                let (b, be) = collect_run(&lines, j + 1, 1);
                base = b;
                j = be;
            }
            let mut k = j;
            let mut theirs: Vec<String> = Vec::new();
            if k < lines.len() && is_marked(&lines[k], '=') {
                proof {
                    run_end_bounds(l, k as int + 1, 2);
                }
                let (t, te) = collect_run(&lines, k + 1, 2);
                theirs = t;
                k = te;
            }
            if k < lines.len() && is_marked(&lines[k], '>') {
                k = k + 1;
            }
            assert(views(base@) == b_v);
            assert(views(theirs@) == t_v);
            segments.push(Segment::Conflict { ours, base, theirs });
            let ghost seg = seq![SegmentModel::Conflict(o_v, b_v, t_v)];
            assert(models(segments@) =~= before + flushed(ctx) + seg);
            assert(views(context@) =~= Seq::<Seq<char>>::empty());
            assert(parse_from(l, i as int, ctx) == flushed(ctx) + seg + parse_from(l, next_v, Seq::empty()));
            assert(before + flushed(ctx) + seg + parse_from(l, next_v, Seq::empty())
                =~= before + (flushed(ctx) + seg + parse_from(l, next_v, Seq::empty())));
            i = k;
        }
    }
    assert(models(segments@) + flushed(views(context@)) == parse_from(l, 0, Seq::empty()));
    if context.len() > 0 {
        segments.push(Segment::Context(context));
    }
    assert(models(segments@) =~= parse_from(l, 0, Seq::empty()));
    Some(segments)
}

/// Lines `from..to` of `s`, with `to` kept inside `s`; none when the range
/// is empty.
pub open spec fn between(s: Seq<Seq<char>>, from: int, to: int) -> Seq<Seq<char>> {
    let end = least(to, s.len() as int);
    if 0 <= from < end { s.subrange(from, end) } else { Seq::empty() }
}

/// Copy lines `from..to` of `v`, `to` kept inside `v`.
fn lines_between(v: &Vec<String>, from: usize, to: usize) -> (r: Vec<String>)
    ensures
        views(r@) == between(views(v@), from as int, to as int),
{
    let end = if to <= v.len() { to } else { v.len() };
    let mut out: Vec<String> = Vec::new();
    if from >= end {
        assert(views(out@) =~= between(views(v@), from as int, to as int));
        return out;
    }
    let mut i = from;
    while i < end
        invariant
            from <= i <= end <= v@.len(),
            views(out@) == views(v@).subrange(from as int, i as int),
        decreases end - i,
    {
        let ghost old_out = out@;
        let c = v[i].clone();
        out.push(c);
        assert(views(out@) =~= views(old_out).push(c@));
        i = i + 1;
        assert(views(out@) =~= views(v@).subrange(from as int, i as int));
    }
    out
}

/// A segment as the merge leaves it: context is never empty, and a
/// conflict's three sides all differ.
pub open spec fn genuine(m: SegmentModel) -> bool {
    match m {
        SegmentModel::Context(c) => c.len() > 0,
        SegmentModel::Conflict(o, b, t) => o != b && t != b && o != t,
    }
}

/// Every segment is genuine, and no context segment follows another.
pub open spec fn merged_well(s: Seq<SegmentModel>) -> bool {
    &&& forall|k: int| 0 <= k < s.len() ==> genuine(#[trigger] s[k])
    &&& forall|k: int| 0 <= k < s.len() - 1 ==> (#[trigger] s[k] is Context ==> s[k + 1] is Conflict)
}

/// Resolving a region keeps the segments merged well and ending, if at all,
/// in a conflict.
proof fn resolved_keeps(segs: Seq<SegmentModel>, ctx: Seq<Seq<char>>, o: Seq<Seq<char>>, b: Seq<Seq<char>>, t: Seq<Seq<char>>)
    requires
        merged_well(segs),
        segs.len() > 0 ==> segs.last() is Conflict,
    ensures
        merged_well(resolved(segs, ctx, o, b, t).0),
        resolved(segs, ctx, o, b, t).0.len() > 0 ==> resolved(segs, ctx, o, b, t).0.last() is Conflict,
{
    let r = resolved(segs, ctx, o, b, t).0;
    if !(o == b) && !(t == b || o == t) {
        let c = SegmentModel::Conflict(o, b, t);
        assert(genuine(c));
        if ctx.len() > 0 {
            assert(r =~= segs.push(SegmentModel::Context(ctx)).push(c));
        } else {
            assert(r =~= segs.push(c));
        }
        assert(merged_well(r));
    }
}

/// Where the run of stable lines that starts at base line `cb`, standing as
/// line `co` of ours and `ct` of theirs, ends: the run goes on while the
/// next base line stands as the next line of both sides. Gives the first
/// base, ours and theirs lines after it.
pub open spec fn stable_end(
    om: Seq<Option<usize>>,
    tm: Seq<Option<usize>>,
    n: int,
    cb: int,
    co: int,
    ct: int,
) -> (int, int, int)
    decreases n - cb,
{
    if cb + 1 < n && (om[cb + 1] matches Some(x) && x == co + 1) && (tm[cb + 1] matches Some(y) && y == ct + 1) {
        stable_end(om, tm, n, cb + 1, co + 1, ct + 1)
    } else {
        (cb + 1, co + 1, ct + 1)
    }
}

/// A run of stable lines takes at least its first line and stays inside the base.
pub proof fn stable_end_bounds(om: Seq<Option<usize>>, tm: Seq<Option<usize>>, n: int, cb: int, co: int, ct: int)
    requires
        cb < n,
    ensures
        cb < stable_end(om, tm, n, cb, co, ct).0 <= n,
    decreases n - cb,
{
    if cb + 1 < n && (om[cb + 1] matches Some(x) && x == co + 1) && (tm[cb + 1] matches Some(y) && y == ct + 1) {
        stable_end_bounds(om, tm, n, cb + 1, co + 1, ct + 1);
    }
}

/// The three-way merge walked on from base line `bi`, the region not yet
/// resolved starting at base line `b`, ours line `o` and theirs line `t`,
/// with the segments and the pending context so far. A base line is stable
/// when the match maps `om` and `tm` give it a line in both sides: the
/// region before it is resolved (see [`resolved`]) and the run of stable
/// lines from it joins the pending context. Other base lines are passed
/// over. At the end the last region is resolved and the pending context
/// flushed.
pub open spec fn merge_walk(
    base: Seq<Seq<char>>,
    ours: Seq<Seq<char>>,
    theirs: Seq<Seq<char>>,
    om: Seq<Option<usize>>,
    tm: Seq<Option<usize>>,
    bi: int,
    b: int,
    o: int,
    t: int,
    segs: Seq<SegmentModel>,
    ctx: Seq<Seq<char>>,
) -> Seq<SegmentModel>
    decreases base.len() - bi,
{
    if bi < 0 || bi >= base.len() {
        let (s2, c2) = resolved(
            segs,
            ctx,
            between(ours, o, ours.len() as int),
            between(base, b, base.len() as int),
            between(theirs, t, theirs.len() as int),
        );
        s2 + flushed(c2)
    } else if om[bi] is Some && tm[bi] is Some {
        let oi = om[bi]->0 as int;
        let ti = tm[bi]->0 as int;
        let (s2, c2) = resolved(segs, ctx, between(ours, o, oi), between(base, b, bi), between(theirs, t, ti));
        let (cb, co, ct) = stable_end(om, tm, base.len() as int, bi, oi, ti);
        proof {
            stable_end_bounds(om, tm, base.len() as int, bi, oi, ti);
        }
        merge_walk(base, ours, theirs, om, tm, cb, cb, co, ct, s2, c2 + base.subrange(bi, cb))
    } else {
        merge_walk(base, ours, theirs, om, tm, bi + 1, b, o, t, segs, ctx)
    }
}

/// Three-way merge of lines against their common ancestor, given for each
/// base line the line of ours (`ours_match`) and of theirs (`theirs_match`)
/// it stands unchanged as, if it does. Base lines standing in both sides are
/// stable and become context; each region between stable lines is resolved
/// by the classic diff3 decision, so edits from one side merge on their own
/// and only overlapping edits become conflicts, each carrying its region of
/// the base. Adjacent context is coalesced into one segment.
pub fn merge_matched(
    base_lines: &Vec<String>,
    ours_lines: &Vec<String>,
    theirs_lines: &Vec<String>,
    ours_match: &Vec<Option<usize>>,
    theirs_match: &Vec<Option<usize>>,
) -> (segs: Vec<Segment>)
    requires
        ours_match@.len() == base_lines@.len(),
        theirs_match@.len() == base_lines@.len(),
        forall|k: int| 0 <= k < base_lines@.len() ==> (#[trigger] ours_match@[k] matches Some(x) ==> x < ours_lines@.len()),
        forall|k: int| 0 <= k < base_lines@.len() ==> (#[trigger] theirs_match@[k] matches Some(x) ==> x < theirs_lines@.len()),
    ensures
        models(segs@) == merge_walk(
            views(base_lines@),
            views(ours_lines@),
            views(theirs_lines@),
            ours_match@,
            theirs_match@,
            0,
            0,
            0,
            0,
            Seq::empty(),
            Seq::empty(),
        ),
        merged_well(models(segs@)),
{
    let n_base = base_lines.len();
    let n_ours = ours_lines.len();
    let n_theirs = theirs_lines.len();
    let ghost bv = views(base_lines@);
    let ghost ov = views(ours_lines@);
    let ghost tv = views(theirs_lines@);
    let ghost om = ours_match@;
    let ghost tm = theirs_match@;
    let ghost target = merge_walk(bv, ov, tv, om, tm, 0, 0, 0, 0, Seq::empty(), Seq::empty());
    assert(bv.len() == n_base);
    let mut segments: Vec<Segment> = Vec::new();
    let mut ctx: Vec<String> = Vec::new();
    // Cursors into base / ours / theirs marking the start of the region not
    // yet emitted.
    let mut b: usize = 0;
    let mut o: usize = 0;
    let mut t: usize = 0;
    let mut bi: usize = 0;
    assert(models(segments@) =~= Seq::<SegmentModel>::empty());
    assert(views(ctx@) =~= Seq::<Seq<char>>::empty());
    while bi < n_base
        invariant
            bi <= n_base,
            n_base == base_lines@.len(),
            n_ours == ours_lines@.len(),
            n_theirs == theirs_lines@.len(),
            bv == views(base_lines@),
            ov == views(ours_lines@),
            tv == views(theirs_lines@),
            om == ours_match@,
            tm == theirs_match@,
            om.len() == n_base,
            tm.len() == n_base,
            forall|k: int| 0 <= k < n_base ==> (#[trigger] om[k] matches Some(x) ==> x < n_ours),
            forall|k: int| 0 <= k < n_base ==> (#[trigger] tm[k] matches Some(x) ==> x < n_theirs),
            merge_walk(bv, ov, tv, om, tm, bi as int, b as int, o as int, t as int, models(segments@), views(ctx@)) == target,
            merged_well(models(segments@)),
            models(segments@).len() > 0 ==> models(segments@).last() is Conflict,
        decreases n_base - bi,
    {
        match (ours_match[bi], theirs_match[bi]) {
            (Some(oi), Some(ti)) => {
                let ghost before = models(segments@);
                let ghost before_ctx = views(ctx@);
                let ol = lines_between(ours_lines, o, oi);
                let bl = lines_between(base_lines, b, bi);
                let tl = lines_between(theirs_lines, t, ti);
                resolve_region(&mut segments, &mut ctx, ol, bl, tl);
                proof {
                    resolved_keeps(before, before_ctx, views(ol@), views(bl@), views(tl@));
                    stable_end_bounds(om, tm, n_base as int, bi as int, oi as int, ti as int);
                }
                let ghost s2 = models(segments@);
                let ghost c2 = views(ctx@);
                let ghost run = stable_end(om, tm, n_base as int, bi as int, oi as int, ti as int);
                assert(target == merge_walk(bv, ov, tv, om, tm, run.0, run.0, run.1, run.2, s2, c2 + bv.subrange(bi as int, run.0)));
                // The run of stable lines that are consecutive in all three.
                let mut cb = bi;
                let mut co = oi;
                let mut ct = ti;
                assert(views(ctx@) =~= c2 + bv.subrange(bi as int, cb as int));
                loop
                    invariant_except_break
                        cb < n_base,
                        co < n_ours,
                        ct < n_theirs,
                        stable_end(om, tm, n_base as int, cb as int, co as int, ct as int) == run,
                    invariant
                        bi <= cb <= n_base,
                        co <= n_ours,
                        ct <= n_theirs,
                        n_base == base_lines@.len(),
                        bv == views(base_lines@),
                        om == ours_match@,
                        tm == theirs_match@,
                        om.len() == n_base,
                        tm.len() == n_base,
                        forall|k: int| 0 <= k < n_base ==> (#[trigger] om[k] matches Some(x) ==> x < n_ours),
                        forall|k: int| 0 <= k < n_base ==> (#[trigger] tm[k] matches Some(x) ==> x < n_theirs),
                        models(segments@) == s2,
                        views(ctx@) == c2 + bv.subrange(bi as int, cb as int),
                    ensures
                        (cb as int, co as int, ct as int) == run,
                        views(ctx@) == c2 + bv.subrange(bi as int, cb as int),
                        models(segments@) == s2,
                    decreases n_base - cb,
                {
                    let ghost prev_ctx = views(ctx@);
                    let line = base_lines[cb].clone();
                    ctx.push(line);
                    assert(views(ctx@) =~= prev_ctx.push(bv[cb as int]));
                    cb = cb + 1;
                    co = co + 1;
                    ct = ct + 1;
                    assert(views(ctx@) =~= c2 + bv.subrange(bi as int, cb as int));
                    if cb < n_base {
                        let next_o = ours_match[cb];
                        let next_t = theirs_match[cb];
                        if let (Some(x), Some(y)) = (next_o, next_t) {
                            if x == co && y == ct {
                                continue;
                            }
                        }
                    }
                    break;
                }
                b = cb;
                o = co;
                t = ct;
                bi = cb;
            },
            _ => {
                bi = bi + 1;
            },
        }
    }
    // The region after the last stable line.
    let ghost before = models(segments@);
    let ghost before_ctx = views(ctx@);
    let ol = lines_between(ours_lines, o, n_ours);
    let bl = lines_between(base_lines, b, n_base);
    let tl = lines_between(theirs_lines, t, n_theirs);
    resolve_region(&mut segments, &mut ctx, ol, bl, tl);
    proof {
        resolved_keeps(before, before_ctx, views(ol@), views(bl@), views(tl@));
    }
    if ctx.len() > 0 {
        let ghost pre = models(segments@);
        let ghost pending = views(ctx@);
        segments.push(Segment::Context(ctx));
        proof {
            let m = models(segments@);
            assert(m =~= pre.push(m.last()));
            assert(genuine(m.last()));
            assert(merged_well(m));
            assert(m =~= pre + flushed(pending));
        }
    } else {
        assert(models(segments@) =~= models(segments@) + flushed(views(ctx@)));
    }
    segments
}

/// Three-way merge of `ours` and `theirs` against their common ancestor
/// `base`: each base line is matched to the lines of both sides by their
/// line diffs, and the lines are merged by [`merge_matched`]. When one side
/// equals the base, the other side's edits merge whole: the result is that
/// side's lines as one context segment, with no conflict.
pub fn diff3(base: &str, ours: &str, theirs: &str) -> (segs: Vec<Segment>)
    requires
        base@.len() < 0x7fff_ffff,
        ours@.len() < 0x7fff_ffff,
        theirs@.len() < 0x7fff_ffff,
    ensures
        models(segs@) == merge_walk(
            text_lines(base@),
            text_lines(ours@),
            text_lines(theirs@),
            match_map(aligned(base@, ours@), text_lines(base@).len()),
            match_map(aligned(base@, theirs@), text_lines(base@).len()),
            0,
            0,
            0,
            0,
            Seq::empty(),
            Seq::empty(),
        ),
        merged_well(models(segs@)),
        theirs@ == base@ ==> models(segs@) == flushed(text_lines(ours@)),
        ours@ == base@ ==> models(segs@) == flushed(text_lines(theirs@)),
{
    let base_lines = split_lines(base);
    let ours_lines = split_lines(ours);
    let theirs_lines = split_lines(theirs);
    assert(views(base_lines@).len() == base_lines@.len());
    assert(views(ours_lines@).len() == ours_lines@.len());
    assert(views(theirs_lines@).len() == theirs_lines@.len());
    let ours_match = base_match_map(base, ours);
    let theirs_match = base_match_map(base, theirs);
    let segs = merge_matched(&base_lines, &ours_lines, &theirs_lines, &ours_match, &theirs_match);
    proof {
        let (bl, ol, tl) = (text_lines(base@), text_lines(ours@), text_lines(theirs@));
        if theirs@ == base@ {
            an_unchanged_theirs_merges_ours_whole(bl, ol, ours_match@, theirs_match@);
        }
        if ours@ == base@ {
            an_unchanged_ours_merges_theirs_whole(bl, tl, ours_match@, theirs_match@);
        }
    }
    segs
}

/// The screen cells of one character: a tab is four spaces.
pub open spec fn cells_of(c: char, emph: bool) -> Seq<(char, bool)> {
    if c == '\t' { seq![(' ', emph), (' ', emph), (' ', emph), (' ', emph)] } else { seq![(c, emph)] }
}

/// The cells of a run of text, each character after the other.
pub open spec fn run_cells(t: Seq<char>, emph: bool) -> Seq<(char, bool)>
    decreases t.len(),
{
    if t.len() == 0 {
        Seq::empty()
    } else {
        run_cells(t.drop_last(), emph) + cells_of(t.last(), emph)
    }
}

/// The cells of a line of runs, each run after the other.
pub open spec fn line_cells(runs: Seq<(Seq<char>, bool)>) -> Seq<(char, bool)>
    decreases runs.len(),
{
    if runs.len() == 0 {
        Seq::empty()
    } else {
        line_cells(runs.drop_last()) + run_cells(runs.last().0, runs.last().1)
    }
}

/// The runs of a line by their views.
pub open spec fn run_views(runs: Seq<(String, bool)>) -> Seq<(Seq<char>, bool)> {
    runs.map_values(|r: (String, bool)| (r.0@, r.1))
}

/// A line's cells scrolled by `hscroll` columns, then cut or padded with
/// plain spaces to exactly `width` cells.
pub open spec fn laid_out(cells: Seq<(char, bool)>, hscroll: int, width: int) -> Seq<(char, bool)> {
    let visible = if hscroll < cells.len() { cells.skip(hscroll) } else { Seq::empty() };
    if visible.len() > width {
        visible.take(width)
    } else {
        visible + Seq::new((width - visible.len()) as nat, |i: int| (' ', false))
    }
}

/// Lay out content runs into exactly `width` display cells: tabs expand to
/// four spaces with the run's emphasis, the first `hscroll` columns are
/// skipped, and the rest is truncated or right-padded with spaces.
pub fn layout_cells(runs: &[(String, bool)], hscroll: usize, width: usize) -> (cells: Vec<(char, bool)>)
    ensures
        cells@ == laid_out(line_cells(run_views(runs@)), hscroll as int, width as int),
        cells@.len() == width,
{
    let ghost rv = run_views(runs@);
    let mut cells: Vec<(char, bool)> = Vec::new();
    let mut i: usize = 0;
    while i < runs.len()
        invariant
            i <= runs@.len(),
            rv == run_views(runs@),
            cells@ == line_cells(rv.take(i as int)),
        decreases runs@.len() - i,
    {
        let text = runs[i].0.as_str();
        let emph = runs[i].1;
        let n = text.unicode_len();
        let ghost start = cells@;
        let mut k: usize = 0;
        while k < n
            invariant
                k <= n,
                n == text@.len(),
                cells@ == start + run_cells(text@.take(k as int), emph),
            decreases n - k,
        {
            let c = text.get_char(k);
            if c == '\t' {
                cells.push((' ', emph));
                cells.push((' ', emph));
                cells.push((' ', emph));
                cells.push((' ', emph));
            } else {
                cells.push((c, emph));
            }
            assert(text@.take(k as int + 1).drop_last() =~= text@.take(k as int));
            k = k + 1;
            assert(cells@ =~= start + run_cells(text@.take(k as int), emph));
        }
        assert(text@.take(n as int) =~= text@);
        assert(rv.take(i as int + 1).drop_last() =~= rv.take(i as int));
        assert(rv.take(i as int + 1).last() == (text@, emph));
        i = i + 1;
    }
    assert(rv.take(runs@.len() as int) =~= rv);
    let ghost all = cells@;
    let mut visible: Vec<(char, bool)> = Vec::new();
    if hscroll < cells.len() {
        let mut j = hscroll;
        while j < cells.len()
            invariant
                hscroll <= j <= cells@.len(),
                cells@ == all,
                visible@ == all.subrange(hscroll as int, j as int),
            decreases cells@.len() - j,
        {
            visible.push(cells[j]);
            j = j + 1;
            assert(visible@ =~= all.subrange(hscroll as int, j as int));
        }
        assert(visible@ =~= all.skip(hscroll as int));
    }
    if visible.len() > width {
        visible.truncate(width);
        assert(visible@ =~= laid_out(all, hscroll as int, width as int));
    } else {
        let ghost shown = visible@;
        let pad = width - visible.len();
        let mut p: usize = 0;
        while p < pad
            invariant
                p <= pad,
                pad == width - shown.len(),
                visible@ == shown + Seq::new(p as nat, |i: int| (' ', false)),
            decreases pad - p,
        {
            visible.push((' ', false));
            p = p + 1;
            assert(visible@ =~= shown + Seq::new(p as nat, |i: int| (' ', false)));
        }
        assert(visible@ =~= laid_out(all, hscroll as int, width as int));
    }
    visible
}

/// Whether a row shows a change.
pub open spec fn changed(row: DiffRow) -> bool {
    row.kind != RowKind::Unchanged
}

/// Whether row `i` begins a contiguous run of changed rows.
pub open spec fn block_start(rows: Seq<DiffRow>, i: int) -> bool {
    0 <= i < rows.len() && changed(rows[i]) && (i == 0 || !changed(rows[i - 1]))
}

/// The rows among the first `n` at which a run of changed rows begins, in
/// order.
pub open spec fn starts_upto(rows: Seq<DiffRow>, n: int) -> Seq<usize>
    decreases n,
{
    if n <= 0 {
        Seq::empty()
    } else if block_start(rows, n - 1) {
        starts_upto(rows, n - 1).push((n - 1) as usize)
    } else {
        starts_upto(rows, n - 1)
    }
}

/// The change blocks begin exactly where runs of changed rows begin: every
/// listed row begins a run, every run's first row is listed, and the list
/// ascends.
pub proof fn starts_are_runs(rows: Seq<DiffRow>, n: int)
    requires
        0 <= n <= rows.len(),
        rows.len() <= usize::MAX,
    ensures
        forall|k: int| 0 <= k < starts_upto(rows, n).len() ==> block_start(rows, #[trigger] starts_upto(rows, n)[k] as int),
        forall|k: int| 0 <= k < starts_upto(rows, n).len() ==> #[trigger] starts_upto(rows, n)[k] < n,
        forall|k: int, j: int| 0 <= k < j < starts_upto(rows, n).len() ==> starts_upto(rows, n)[k] < starts_upto(rows, n)[j],
        forall|i: int| 0 <= i < n && #[trigger] block_start(rows, i) ==> starts_upto(rows, n).contains(i as usize),
    decreases n,
{
    if n > 0 {
        starts_are_runs(rows, n - 1);
        let prev = starts_upto(rows, n - 1);
        let cur = starts_upto(rows, n);
        assert forall|i: int| 0 <= i < n && #[trigger] block_start(rows, i) implies cur.contains(i as usize) by {
            if i < n - 1 {
                let w = choose|w: int| 0 <= w < prev.len() && prev[w] == i as usize;
                assert(cur[w] == i as usize);
            } else {
                assert(cur[cur.len() - 1] == i as usize);
            }
        }
    }
}

/// Row indices at which a contiguous run of changed, added or removed rows
/// begins, in order.
pub fn change_blocks(rows: &[DiffRow]) -> (starts: Vec<usize>)
    ensures
        starts@ == starts_upto(rows@, rows@.len() as int),
{
    let mut starts: Vec<usize> = Vec::new();
    let mut prev_changed = false;
    let mut i: usize = 0;
    while i < rows.len()
        invariant
            i <= rows@.len(),
            prev_changed == (i > 0 && changed(rows@[i - 1])),
            starts@ == starts_upto(rows@, i as int),
        decreases rows@.len() - i,
    {
        let now = rows[i].kind != RowKind::Unchanged;
        if now && !prev_changed {
            starts.push(i);
        }
        prev_changed = now;
        i = i + 1;
    }
    starts
}

/// Which side a change block resolves to. In a diff only `Left` and `Right`
/// are used; in a conflict `Left` takes ours, `Right` theirs, `Both` ours
/// then theirs, and `Unresolved` leaves the conflict as it is.
#[derive(Clone, Copy, PartialEq, Eq, Debug, Structural)]
pub enum Resolution {
    Left,
    Right,
    Both,
    Unresolved,
}

/// A contiguous run of changed rows together with its chosen resolution.
#[derive(Debug)]
pub struct Block {
    /// Half-open range of row indices the block covers.
    pub rows: std::ops::Range<usize>,
    /// Which side this block contributes to the result.
    pub resolution: Resolution,
}

/// Where the run of changed rows from row `i` ends.
pub open spec fn changed_end(rows: Seq<DiffRow>, i: int) -> int
    decreases rows.len() - i,
{
    if i >= rows.len() || i < 0 {
        rows.len() as int
    } else if !changed(rows[i]) {
        i
    } else {
        changed_end(rows, i + 1)
    }
}

/// Every changed row lies in one of the blocks.
pub open spec fn blocks_cover(rows: Seq<DiffRow>, blocks: Seq<Block>) -> bool {
    forall|i: int| 0 <= i < rows.len() && changed(#[trigger] rows[i]) ==> exists|k: int|
        0 <= k < blocks.len() && (#[trigger] blocks[k]).rows.start <= i < blocks[k].rows.end
}

/// Where the run of changed rows holding row `i` begins.
pub open spec fn run_start(rows: Seq<DiffRow>, i: int) -> int
    decreases i,
{
    if i <= 0 || !changed(rows[i - 1]) {
        i
    } else {
        run_start(rows, i - 1)
    }
}

proof fn run_start_ok(rows: Seq<DiffRow>, i: int)
    requires
        0 <= i < rows.len(),
        changed(rows[i]),
    ensures
        block_start(rows, run_start(rows, i)),
        0 <= run_start(rows, i) <= i,
        forall|q: int| run_start(rows, i) <= q <= i ==> changed(#[trigger] rows[q]),
    decreases i,
{
    if i > 0 && changed(rows[i - 1]) {
        run_start_ok(rows, i - 1);
    }
}

proof fn changed_end_from(rows: Seq<DiffRow>, j: int)
    requires
        0 <= j <= rows.len(),
    ensures
        changed_end(rows, j) >= j,
    decreases rows.len() - j,
{
    if j < rows.len() && changed(rows[j]) {
        changed_end_from(rows, j + 1);
    }
}

proof fn changed_end_past(rows: Seq<DiffRow>, j: int, i: int)
    requires
        0 <= j <= i < rows.len(),
        forall|q: int| j <= q <= i ==> changed(#[trigger] rows[q]),
    ensures
        changed_end(rows, j) > i,
    decreases i - j,
{
    assert(changed(rows[j]));
    if j < i {
        changed_end_past(rows, j + 1, i);
    } else {
        changed_end_from(rows, j + 1);
    }
}

/// Turn the aligned rows into change blocks, one per run of changed rows,
/// each defaulting to the right side so the result starts as the working
/// text.
pub fn compute_blocks(rows: &[DiffRow]) -> (blocks: Vec<Block>)
    ensures
        blocks@.len() == starts_upto(rows@, rows@.len() as int).len(),
        forall|k: int| 0 <= k < blocks@.len() ==> (#[trigger] blocks@[k]).rows.start == starts_upto(rows@, rows@.len() as int)[k],
        forall|k: int| 0 <= k < blocks@.len() ==> (#[trigger] blocks@[k]).rows.end == changed_end(rows@, blocks@[k].rows.start as int),
        forall|k: int| 0 <= k < blocks@.len() ==> (#[trigger] blocks@[k]).resolution == Resolution::Right,
        forall|k: int| 0 <= k < blocks@.len() ==> (#[trigger] blocks@[k]).rows.start <= blocks@[k].rows.end <= rows@.len(),
        blocks_cover(rows@, blocks@),
{
    let starts = change_blocks(rows);
    let n = rows.len();
    proof {
        starts_are_runs(rows@, rows@.len() as int);
    }
    let mut blocks: Vec<Block> = Vec::new();
    let mut k: usize = 0;
    while k < starts.len()
        invariant
            k <= starts@.len(),
            blocks@.len() == k,
            forall|j: int| 0 <= j < starts@.len() ==> #[trigger] starts@[j] < rows@.len(),
            forall|j: int| 0 <= j < k ==> (#[trigger] blocks@[j]).rows.start == starts@[j],
            forall|j: int| 0 <= j < k ==> (#[trigger] blocks@[j]).rows.end == changed_end(rows@, blocks@[j].rows.start as int),
            forall|j: int| 0 <= j < k ==> (#[trigger] blocks@[j]).resolution == Resolution::Right,
            forall|j: int| 0 <= j < k ==> (#[trigger] blocks@[j]).rows.start <= blocks@[j].rows.end <= rows@.len(),
        decreases starts@.len() - k,
    {
        let start = starts[k];
        let mut end = start;
        while end < rows.len() && rows[end].kind != RowKind::Unchanged
            invariant
                start <= end <= rows@.len(),
                changed_end(rows@, end as int) == changed_end(rows@, start as int),
            decreases rows@.len() - end,
        {
            end = end + 1;
        }
        blocks.push(Block { rows: std::ops::Range { start, end }, resolution: Resolution::Right });
        assert(blocks@[k as int].rows.start == start && blocks@[k as int].rows.end == end);
        k = k + 1;
    }
    proof {
        let st = starts_upto(rows@, rows@.len() as int);
        assert forall|i: int| 0 <= i < rows@.len() && changed(#[trigger] rows@[i]) implies exists|k: int|
            0 <= k < blocks@.len() && (#[trigger] blocks@[k]).rows.start <= i < blocks@[k].rows.end by {
            run_start_ok(rows@, i);
            let j = run_start(rows@, i);
            assert(st.contains(j as usize));
            let k = choose|k: int| 0 <= k < st.len() && st[k] == j as usize;
            changed_end_past(rows@, j, i);
            assert(blocks@[k].rows.start == j);
        }
    }
    blocks
}

/// The resolution covering row `i`: that of the last block whose range holds
/// it, if any.
pub open spec fn row_resolution(blocks: Seq<Block>, i: int) -> Option<Resolution>
    decreases blocks.len(),
{
    if blocks.len() == 0 {
        Option::None
    } else if blocks.last().rows.start <= i < blocks.last().rows.end {
        Option::Some(blocks.last().resolution)
    } else {
        row_resolution(blocks.drop_last(), i)
    }
}

/// Line `at` of `lines` with its newline, or nothing when `at` is missing or
/// outside `lines`.
pub open spec fn line_out(lines: Seq<Seq<char>>, at: Option<usize>) -> Seq<char> {
    match at {
        Option::Some(x) => if x < lines.len() { lines[x as int] + seq!['\n'] } else { Seq::empty() },
        Option::None => Seq::empty(),
    }
}

/// What one row contributes to the result: an unchanged row its working
/// line (else its base line); a row resolved to the left its base line; any
/// other its working line.
pub open spec fn row_out(row: DiffRow, res: Option<Resolution>, base: Seq<Seq<char>>, doc: Seq<Seq<char>>) -> Seq<char> {
    match res {
        Option::None => if line_out(doc, row.right).len() > 0 { line_out(doc, row.right) } else { line_out(base, row.left) },
        Option::Some(Resolution::Left) => line_out(base, row.left),
        Option::Some(_) => line_out(doc, row.right),
    }
}

/// The result text of the first `n` rows.
pub open spec fn rows_out(rows: Seq<DiffRow>, blocks: Seq<Block>, base: Seq<Seq<char>>, doc: Seq<Seq<char>>, n: int) -> Seq<char>
    decreases n,
{
    if n <= 0 {
        Seq::empty()
    } else {
        rows_out(rows, blocks, base, doc, n - 1) + row_out(rows[n - 1], row_resolution(blocks, n - 1), base, doc)
    }
}

/// Append line `at` of `lines` and a newline when it is there; whether it was.
fn push_line(out: &mut String, lines: &[String], at: Option<usize>) -> (pushed: bool)
    ensures
        final(out)@ == old(out)@ + line_out(views(lines@), at),
        pushed == (line_out(views(lines@), at).len() > 0),
{
    proof {
        reveal_strlit("\n");
    }
    match at {
        Option::Some(x) => {
            if x < lines.len() {
                out.append(lines[x].as_str());
                out.append("\n");
                assert(views(lines@)[x as int] == lines@[x as int]@);
                true
            } else {
                false
            }
        },
        Option::None => false,
    }
}

/// The resolved result text from the alignment and the per-block
/// resolutions: unchanged rows emit their line, rows inside a block emit the
/// chosen side's actual line and skip blank fillers, each line ending in a
/// newline. Every block's range lies within the rows.
pub fn result_text(rows: &[DiffRow], blocks: &[Block], base_lines: &[String], doc_lines: &[String]) -> (out: String)
    requires
        forall|k: int| 0 <= k < blocks@.len() ==> (#[trigger] blocks@[k]).rows.start >= blocks@[k].rows.end
            || blocks@[k].rows.end <= rows@.len(),
    ensures
        out@ == rows_out(rows@, blocks@, views(base_lines@), views(doc_lines@), rows@.len() as int),
{
    let mut row_res: Vec<Option<Resolution>> = Vec::new();
    let mut i: usize = 0;
    while i < rows.len()
        invariant
            i <= rows@.len(),
            row_res@.len() == i,
            forall|j: int| 0 <= j < i ==> #[trigger] row_res@[j] is None,
        decreases rows@.len() - i,
    {
        row_res.push(Option::None);
        i = i + 1;
    }
    assert(blocks@.take(0) =~= Seq::<Block>::empty());
    let mut bk: usize = 0;
    while bk < blocks.len()
        invariant
            bk <= blocks@.len(),
            row_res@.len() == rows@.len(),
            forall|k: int| 0 <= k < blocks@.len() ==> (#[trigger] blocks@[k]).rows.start >= blocks@[k].rows.end
                || blocks@[k].rows.end <= rows@.len(),
            forall|j: int| 0 <= j < rows@.len() ==> #[trigger] row_res@[j] == row_resolution(blocks@.take(bk as int), j),
        decreases blocks@.len() - bk,
    {
        let start = blocks[bk].rows.start;
        let end = blocks[bk].rows.end;
        let res = blocks[bk].resolution;
        let ghost done = blocks@.take(bk as int);
        let ghost next = blocks@.take(bk as int + 1);
        assert(next.drop_last() =~= done);
        assert(next.last() == blocks@[bk as int]);
        if start < end {
        let mut j = start;
        while j < end
            invariant
                start <= j <= end,
                end <= rows@.len(),
                row_res@.len() == rows@.len(),
                next.drop_last() == done,
                next.last().rows.start == start && next.last().rows.end == end && next.last().resolution == res,
                forall|x: int| 0 <= x < rows@.len() ==> #[trigger] row_res@[x] == (if start <= x < j {
                    Option::Some(res)
                } else {
                    row_resolution(done, x)
                }),
            decreases end - j,
        {
            row_res.set(j, Option::Some(res));
            j = j + 1;
        }
        }
        bk = bk + 1;
    }
    assert(blocks@.take(blocks@.len() as int) =~= blocks@);
    let ghost base = views(base_lines@);
    let ghost doc = views(doc_lines@);
    let mut out = String::new();
    let mut r: usize = 0;
    while r < rows.len()
        invariant
            r <= rows@.len(),
            row_res@.len() == rows@.len(),
            base == views(base_lines@),
            doc == views(doc_lines@),
            forall|j: int| 0 <= j < rows@.len() ==> #[trigger] row_res@[j] == row_resolution(blocks@, j),
            out@ == rows_out(rows@, blocks@, base, doc, r as int),
        decreases rows@.len() - r,
    {
        let row = rows[r];
        match row_res[r] {
            Option::None => {
                if !push_line(&mut out, doc_lines, row.right) {
                    push_line(&mut out, base_lines, row.left);
                }
            },
            Option::Some(Resolution::Left) => {
                push_line(&mut out, base_lines, row.left);
            },
            Option::Some(_) => {
                push_line(&mut out, doc_lines, row.right);
            },
        }
        r = r + 1;
    }
    out
}

/// The lines, each followed by a newline.
pub open spec fn joined(lines: Seq<Seq<char>>) -> Seq<char>
    decreases lines.len(),
{
    if lines.len() == 0 {
        Seq::empty()
    } else {
        joined(lines.drop_last()) + lines.last() + seq!['\n']
    }
}

/// The text a conflict resolves to.
pub open spec fn conflict_out(o: Seq<Seq<char>>, b: Seq<Seq<char>>, t: Seq<Seq<char>>, res: Resolution) -> Seq<char> {
    match res {
        Resolution::Left => joined(o),
        Resolution::Right => joined(t),
        Resolution::Both => joined(o) + joined(t),
        Resolution::Unresolved => {
            let base_part = if b.len() > 0 { "|||||||\n"@ + joined(b) } else { Seq::empty() };
            "<<<<<<<\n"@ + joined(o) + base_part + "=======\n"@ + joined(t) + ">>>>>>>\n"@
        },
    }
}

/// The resolved text of the segments, the `k`-th conflict taking the `k`-th
/// resolution and staying unresolved where there is none.
pub open spec fn segments_out(segs: Seq<SegmentModel>, res: Seq<Resolution>) -> Seq<char>
    decreases segs.len(),
{
    if segs.len() == 0 {
        Seq::empty()
    } else {
        match segs[0] {
            SegmentModel::Context(l) => joined(l) + segments_out(segs.drop_first(), res),
            SegmentModel::Conflict(o, b, t) => {
                let r = if res.len() > 0 { res[0] } else { Resolution::Unresolved };
                let rest = if res.len() > 0 { res.drop_first() } else { res };
                conflict_out(o, b, t, r) + segments_out(segs.drop_first(), rest)
            },
        }
    }
}

/// The resolutions of a list of blocks.
pub open spec fn resolutions(blocks: Seq<Block>) -> Seq<Resolution> {
    blocks.map_values(|b: Block| b.resolution)
}

/// Append each line and a newline.
fn emit(out: &mut String, lines: &Vec<String>)
    ensures
        final(out)@ == old(out)@ + joined(views(lines@)),
{
    proof {
        reveal_strlit("\n");
    }
    let mut i: usize = 0;
    while i < lines.len()
        invariant
            i <= lines@.len(),
            out@ == old(out)@ + joined(views(lines@).take(i as int)),
        decreases lines@.len() - i,
    {
        let ghost before = out@;
        out.append(lines[i].as_str());
        out.append("\n");
        proof {
            reveal_strlit("\n");
            let l = views(lines@);
            assert(l.take(i as int + 1).drop_last() =~= l.take(i as int));
            assert(l.take(i as int + 1).last() == lines@[i as int]@);
            assert(out@ =~= old(out)@ + joined(l.take(i as int + 1)));
        }
        i = i + 1;
    }
    assert(views(lines@).take(lines@.len() as int) =~= views(lines@));
}

/// Append the text a conflict resolves to.
fn emit_conflict(out: &mut String, ours: &Vec<String>, base: &Vec<String>, theirs: &Vec<String>, res: Resolution)
    ensures
        final(out)@ == old(out)@ + conflict_out(views(ours@), views(base@), views(theirs@), res),
{
    proof {
        reveal_strlit("<<<<<<<\n");
        reveal_strlit("|||||||\n");
        reveal_strlit("=======\n");
        reveal_strlit(">>>>>>>\n");
    }
    match res {
        Resolution::Left => emit(out, ours),
        Resolution::Right => emit(out, theirs),
        Resolution::Both => {
            emit(out, ours);
            emit(out, theirs);
        },
        Resolution::Unresolved => {
            emit_str(out, "<<<<<<<\n");
            emit(out, ours);
            if base.len() > 0 {
                emit_str(out, "|||||||\n");
                emit(out, base);
            }
            emit_str(out, "=======\n");
            emit(out, theirs);
            emit_str(out, ">>>>>>>\n");
        },
    }
    assert(out@ =~= old(out)@ + conflict_out(views(ours@), views(base@), views(theirs@), res));
}

/// Append `s` to `out`.
fn emit_str(out: &mut String, s: &str)
    ensures
        final(out)@ == old(out)@ + s@,
{
    out.append(s);
}

/// The resolved text of a conflicted file from its segments and the
/// per-conflict resolutions held in `blocks`, one block per conflict in order:
/// `Left` takes ours, `Right` theirs, `Both` ours then theirs, and `Unresolved` (or a
/// missing block) re-emits the conflict with its markers, so a partial
/// resolution leaves the rest conflicted.
pub fn conflict_result_text(segments: &[Segment], blocks: &[Block]) -> (out: String)
    ensures
        out@ == segments_out(models(segments@), resolutions(blocks@)),
{
    let ghost all = models(segments@);
    let ghost rs = resolutions(blocks@);
    let mut out = String::new();
    let mut i: usize = 0;
    let mut c: usize = 0;
    assert(all.skip(0) =~= all);
    assert(rs.skip(0) =~= rs);
    assert(out@ =~= Seq::<char>::empty());
    while i < segments.len()
        invariant
            i <= segments@.len(),
            c <= blocks@.len(),
            all == models(segments@),
            rs == resolutions(blocks@),
            out@ + segments_out(all.skip(i as int), rs.skip(c as int)) == segments_out(all, rs),
        decreases segments@.len() - i,
    {
        let ghost before = out@;
        let ghost rest = all.skip(i as int);
        assert(rest[0] == segments@[i as int]@);
        assert(rest.drop_first() =~= all.skip(i as int + 1));
        match &segments[i] {
            Segment::Context(lines) => {
                emit(&mut out, lines);
                assert(out@ + segments_out(all.skip(i as int + 1), rs.skip(c as int)) =~= before + segments_out(rest, rs.skip(c as int)));
            },
            Segment::Conflict { ours, base, theirs } => {
                let res = if c < blocks.len() { blocks[c].resolution } else { Resolution::Unresolved };
                let ghost rrest = rs.skip(c as int);
                let ghost next_rs = if rrest.len() > 0 { rrest.drop_first() } else { rrest };
                proof {
                    if c < blocks@.len() {
                        assert(rrest[0] == res);
                        assert(next_rs =~= rs.skip(c as int + 1));
                    }
                }
                emit_conflict(&mut out, ours, base, theirs, res);
                assert(out@ =~= before + conflict_out(views(ours@), views(base@), views(theirs@), res));
                if c < blocks.len() {
                    c = c + 1;
                }
                assert(out@ + segments_out(all.skip(i as int + 1), rs.skip(c as int)) =~= before + segments_out(rest, rrest));
            },
        }
        i = i + 1;
    }
    assert(out@ =~= segments_out(all, rs));
    out
}

/// Each character as a one-character token.
pub open spec fn singles(s: Seq<char>) -> Seq<Seq<char>> {
    s.map_values(|c: char| seq![c])
}

/// The changed hunks of imara-diff's Myers diff of two character sequences
/// (`InternedInput` filled by `update_before`/`update_after`, `Diff::compute`,
/// `Diff::hunks`), in order: the result of the diff on the characters taken
/// one by one as tokens. The diff takes fewer than `i32::MAX` tokens a side.
#[verifier::external_body]
fn char_hunks(before: &Vec<char>, after: &Vec<char>) -> (r: Vec<Hunk>)
    requires
        before@.len() < 0x7fff_ffff,
        after@.len() < 0x7fff_ffff,
    ensures
        r@ == computed_hunks(true, singles(before@), singles(after@)),
{
    let mut input: imara_diff::InternedInput<char> = imara_diff::InternedInput::default();
    input.update_before(before.iter().copied());
    input.update_after(after.iter().copied());
    let diff = imara_diff::Diff::compute(imara_diff::Algorithm::Myers, &input);
    diff.hunks().map(|h| ((h.before.start, h.before.end), (h.after.start, h.after.end))).collect()
}

/// Characters `from..to` of `s`, `to` kept inside `s`; none when the range is
/// empty.
pub open spec fn chars_between(s: Seq<char>, from: int, to: int) -> Seq<char> {
    let end = least(to, s.len() as int);
    if 0 <= from < end { s.subrange(from, end) } else { Seq::empty() }
}

/// A run of text, when there is any.
pub open spec fn run_of(t: Seq<char>, emph: bool) -> Seq<(Seq<char>, bool)> {
    if t.len() > 0 { seq![(t, emph)] } else { Seq::empty() }
}

/// The runs of one side of a line from hunk `h` on, the next unshown
/// character being `p`: before each hunk its common stretch, then its
/// differing stretch emphasised, and after the last the common tail. `after`
/// picks the hunks' second side.
pub open spec fn side_runs(c: Seq<char>, hunks: Seq<Hunk>, after: bool, h: int, p: int) -> Seq<(Seq<char>, bool)>
    decreases hunks.len() - h,
{
    if h >= hunks.len() || h < 0 {
        run_of(chars_between(c, p, c.len() as int), false)
    } else {
        let (s, e) = if after { hunks[h].1 } else { hunks[h].0 };
        run_of(chars_between(c, p, s as int), false) + run_of(chars_between(c, s as int, e as int), true)
            + side_runs(c, hunks, after, h + 1, e as int)
    }
}

/// The characters of a text.
fn chars_of(s: &str) -> (r: Vec<char>)
    ensures
        r@ == s@,
{
    let n = s.unicode_len();
    let mut out: Vec<char> = Vec::new();
    let mut i: usize = 0;
    while i < n
        invariant
            i <= n,
            n == s@.len(),
            out@ == s@.take(i as int),
        decreases n - i,
    {
        out.push(s.get_char(i));
        i = i + 1;
        assert(out@ =~= s@.take(i as int));
    }
    assert(out@ =~= s@);
    out
}

/// Append characters `from..to` of `chars` as one run, when there are any.
fn push_run(out: &mut Vec<(String, bool)>, chars: &Vec<char>, from: usize, to: usize, emph: bool)
    ensures
        run_views(final(out)@) == run_views(old(out)@) + run_of(chars_between(chars@, from as int, to as int), emph),
{
    let end: usize = if to <= chars.len() { to } else { chars.len() };
    let start = from;
    if start >= end {
        assert(run_views(out@) =~= run_views(old(out)@) + run_of(chars_between(chars@, from as int, to as int), emph));
        return;
    }
    let mut text = String::new();
    let mut i = start;
    while i < end
        invariant
            start <= i <= end <= chars@.len(),
            text@ == chars@.subrange(start as int, i as int),
        decreases end - i,
    {
        let one = char_text(chars[i]);
        text.append(one.as_str());
        i = i + 1;
        assert(text@ =~= chars@.subrange(start as int, i as int));
    }
    let ghost t = text@;
    out.push((text, emph));
    assert(run_views(out@) =~= run_views(old(out)@) + run_of(chars_between(chars@, from as int, to as int), emph));
}

/// The two sides' runs of a char-level diff from its hunks: per side, before
/// each hunk the common stretch, then the differing stretch emphasised, and
/// after the last hunk the common tail. Empty stretches give no run.
pub fn spans_from_hunks(old_chars: &Vec<char>, new_chars: &Vec<char>, hunks: &Vec<Hunk>) -> (r: (Vec<(String, bool)>, Vec<(String, bool)>))
    ensures
        run_views(r.0@) == side_runs(old_chars@, hunks@, false, 0, 0),
        run_views(r.1@) == side_runs(new_chars@, hunks@, true, 0, 0),
{
    let mut left: Vec<(String, bool)> = Vec::new();
    let mut right: Vec<(String, bool)> = Vec::new();
    let mut o: u32 = 0;
    let mut n: u32 = 0;
    let mut h: usize = 0;
    assert(run_views(left@) =~= Seq::<(Seq<char>, bool)>::empty());
    assert(run_views(right@) =~= Seq::<(Seq<char>, bool)>::empty());
    while h < hunks.len()
        invariant
            h <= hunks@.len(),
            run_views(left@) + side_runs(old_chars@, hunks@, false, h as int, o as int) == side_runs(old_chars@, hunks@, false, 0, 0),
            run_views(right@) + side_runs(new_chars@, hunks@, true, h as int, n as int) == side_runs(new_chars@, hunks@, true, 0, 0),
        decreases hunks@.len() - h,
    {
        let ((bs, be), (a_s, a_e)) = hunks[h];
        let ghost l0 = run_views(left@);
        let ghost r0 = run_views(right@);
        push_run(&mut left, old_chars, o as usize, bs as usize, false);
        push_run(&mut right, new_chars, n as usize, a_s as usize, false);
        push_run(&mut left, old_chars, bs as usize, be as usize, true);
        push_run(&mut right, new_chars, a_s as usize, a_e as usize, true);
        proof {
            let lh = run_of(chars_between(old_chars@, o as int, bs as int), false) + run_of(chars_between(old_chars@, bs as int, be as int), true);
            let rh = run_of(chars_between(new_chars@, n as int, a_s as int), false) + run_of(chars_between(new_chars@, a_s as int, a_e as int), true);
            let lt = side_runs(old_chars@, hunks@, false, h as int + 1, be as int);
            let rt = side_runs(new_chars@, hunks@, true, h as int + 1, a_e as int);
            assert(side_runs(old_chars@, hunks@, false, h as int, o as int) == lh + lt);
            assert(side_runs(new_chars@, hunks@, true, h as int, n as int) == rh + rt);
            assert(run_views(left@) =~= l0 + lh);
            assert(run_views(right@) =~= r0 + rh);
            assert(l0 + lh + lt =~= l0 + (lh + lt));
            assert(r0 + rh + rt =~= r0 + (rh + rt));
        }
        o = be;
        n = a_e;
        h = h + 1;
    }
    // The common tails after the last hunk.
    push_run(&mut left, old_chars, o as usize, old_chars.len(), false);
    push_run(&mut right, new_chars, n as usize, new_chars.len(), false);
    (left, right)
}

/// Char-level diff of two single lines: one run list per side, each run
/// `(text, emphasised)`, the emphasised runs being the characters that differ
/// (a deletion on the left, an insertion on the right) by the Myers diff over
/// characters. Common stretches come back plain.
pub fn inline_spans(old: &str, new: &str) -> (r: (Vec<(String, bool)>, Vec<(String, bool)>))
    requires
        old@.len() < 0x7fff_ffff,
        new@.len() < 0x7fff_ffff,
    ensures
        run_views(r.0@) == side_runs(old@, computed_hunks(true, singles(old@), singles(new@)), false, 0, 0),
        run_views(r.1@) == side_runs(new@, computed_hunks(true, singles(old@), singles(new@)), true, 0, 0),
{
    let old_chars = chars_of(old);
    let new_chars = chars_of(new);
    let hunks = char_hunks(&old_chars, &new_chars);
    spans_from_hunks(&old_chars, &new_chars, &hunks)
}

/// The display width of a line: four columns per tab, one per other
/// character.
pub open spec fn width_of(t: Seq<char>) -> int
    decreases t.len(),
{
    if t.len() == 0 {
        0
    } else {
        width_of(t.drop_last()) + if t.last() == '\t' { 4int } else { 1int }
    }
}

/// The display width of a line in columns, a tab counting four; used to
/// clamp horizontal scrolling.
pub fn line_width(s: &str) -> (w: usize)
    requires
        4 * s@.len() <= usize::MAX,
    ensures
        w == width_of(s@),
{
    let n = s.unicode_len();
    let mut w: usize = 0;
    let mut i: usize = 0;
    while i < n
        invariant
            i <= n,
            n == s@.len(),
            4 * n <= usize::MAX,
            w == width_of(s@.take(i as int)),
            w <= 4 * i,
        decreases n - i,
    {
        let c = s.get_char(i);
        w = w + if c == '\t' { 4 } else { 1 };
        assert(s@.take(i as int + 1).drop_last() =~= s@.take(i as int));
        i = i + 1;
    }
    assert(s@.take(n as int) =~= s@);
    w
}

/// `s` cut to its first `width` characters, or padded with spaces to
/// exactly `width`.
pub fn truncate_pad(s: &mut String, width: usize)
    ensures
        final(s)@ == (if old(s)@.len() > width {
            old(s)@.take(width as int)
        } else {
            old(s)@ + Seq::new((width - old(s)@.len()) as nat, |i: int| ' ')
        }),
{
    let count = s.as_str().unicode_len();
    if count > width {
        let cut = String::from_str(s.as_str().substring_char(0, width));
        *s = cut;
    } else {
        proof {
            reveal_strlit(" ");
        }
        let ghost start = s@;
        let mut k: usize = count;
        while k < width
            invariant
                count <= k <= width,
                count == start.len(),
                s@ == start + Seq::new((k - count) as nat, |i: int| ' '),
            decreases width - k,
        {
            proof {
                reveal_strlit(" ");
            }
            s.append(" ");
            k = k + 1;
            assert(s@ =~= start + Seq::new((k - count) as nat, |i: int| ' '));
        }
    }
}

/// A line's width grows by its last character's columns.
pub proof fn width_of_grows(t: Seq<char>)
    requires
        t.len() > 0,
    ensures
        width_of(t) == width_of(t.drop_last()) + if t.last() == '\t' { 4int } else { 1int },
        width_of(t.drop_last()) >= 0,
{
    width_of_nonneg(t.drop_last());
}

/// A width is never negative.
pub proof fn width_of_nonneg(t: Seq<char>)
    ensures
        width_of(t) >= 0,
    decreases t.len(),
{
    if t.len() > 0 {
        width_of_nonneg(t.drop_last());
    }
}

/// A line that reads back as itself once written out with a newline: it
/// holds no newline and does not end in a carriage return.
pub open spec fn plain(l: Seq<char>) -> bool {
    &&& forall|k: int| 0 <= k < l.len() ==> l[k] != '\n'
    &&& !(l.len() > 0 && l.last() == '\r')
}

/// A line ends at the first newline of a text that holds one from `from` on,
/// whatever follows the text.
proof fn line_end_prefix(a: Seq<char>, b: Seq<char>, from: int)
    requires
        0 <= from < a.len(),
        a.last() == '\n',
    ensures
        line_end(a + b, from) == line_end(a, from),
    decreases a.len() - from,
{
    assert((a + b)[from] == a[from]);
    if a[from] != '\n' {
        line_end_prefix(a, b, from + 1);
    }
}

/// Two texts, the first empty or ending in a newline, split into the first's
/// line tokens followed by the second's.
pub proof fn line_tokens_concat(a: Seq<char>, b: Seq<char>)
    requires
        a.len() == 0 || a.last() == '\n',
    ensures
        line_tokens(a + b) == line_tokens(a) + line_tokens(b),
    decreases a.len(),
{
    if a.len() == 0 {
        assert(a + b =~= b);
        assert(line_tokens(a) =~= Seq::<Seq<char>>::empty());
        assert(line_tokens(a) + line_tokens(b) =~= line_tokens(b));
    } else {
        line_end_prefix(a, b, 0);
        line_end_bounds(a, 0);
        let n = line_end(a, 0);
        assert((a + b).take(n) =~= a.take(n));
        assert((a + b).skip(n) =~= a.skip(n) + b);
        let rest = a.skip(n);
        if rest.len() > 0 {
            assert(rest.last() == a.last());
        }
        line_tokens_concat(rest, b);
        assert(line_tokens(a + b) =~= seq![a.take(n)] + (line_tokens(rest) + line_tokens(b)));
        assert(line_tokens(a) =~= seq![a.take(n)] + line_tokens(rest));
    }
}

/// A plain line with its newline is one line token.
proof fn plain_line_token(l: Seq<char>)
    requires
        plain(l),
    ensures
        line_tokens(l + seq!['\n']) == seq![l + seq!['\n']],
{
    let t = l + seq!['\n'];
    assert forall|k: int| 0 <= k < l.len() implies t[k] != '\n' by {
        assert(t[k] == l[k]);
    }
    line_end_run(t, 0, l.len() as int);
    assert(t.take(t.len() as int) =~= t);
    assert(t.skip(t.len() as int) =~= Seq::<char>::empty());
    assert(line_tokens(t.skip(t.len() as int)) == Seq::<Seq<char>>::empty());
    assert(line_tokens(t) == seq![t.take(t.len() as int)] + line_tokens(t.skip(t.len() as int)));
    assert(line_tokens(t) =~= seq![t]);
}

/// No newline from `from` up to `k`: the line runs on to where it runs from
/// `k`.
proof fn line_end_run(t: Seq<char>, from: int, k: int)
    requires
        0 <= from <= k < t.len(),
        forall|j: int| from <= j < k ==> t[j] != '\n',
        t[k] == '\n',
    ensures
        line_end(t, from) == k + 1,
    decreases k - from,
{
    if from < k {
        line_end_run(t, from + 1, k);
    }
}

/// Plain lines written out, each with its newline, read back as the same
/// lines.
pub proof fn written_lines_read_back(ls: Seq<Seq<char>>)
    requires
        forall|k: int| 0 <= k < ls.len() ==> plain(#[trigger] ls[k]),
    ensures
        text_lines(joined(ls)) == ls,
    decreases ls.len(),
{
    if ls.len() == 0 {
        assert(line_tokens(Seq::<char>::empty()) =~= Seq::<Seq<char>>::empty());
        assert(text_lines(joined(ls)) =~= ls);
    } else {
        let init = ls.drop_last();
        let l = ls.last();
        written_lines_read_back(init);
        let a = joined(init);
        assert(joined(ls) =~= a + (l + seq!['\n']));
        if init.len() > 0 {
            assert(a.last() == '\n');
        }
        line_tokens_concat(a, l + seq!['\n']);
        plain_line_token(l);
        let toks = line_tokens(a) + seq![l + seq!['\n']];
        assert(line_tokens(joined(ls)) == toks);
        assert((l + seq!['\n']).drop_last() =~= l);
        assert(strip_eol(l + seq!['\n']) == l);
        assert(text_lines(joined(ls)) =~= text_lines(a).push(l));
        assert(init.push(l) =~= ls);
    }
}

/// A conflict marker line: seven `c`s.
pub open spec fn marker(c: char) -> Seq<char> {
    seq![c, c, c, c, c, c, c]
}

/// The lines a segment is written out as when its conflicts stay
/// unresolved: context as it is, a conflict between its markers.
pub open spec fn piece(m: SegmentModel) -> Seq<Seq<char>> {
    match m {
        SegmentModel::Context(l) => l,
        SegmentModel::Conflict(o, b, t) => seq![marker('<')] + o + (if b.len() > 0 {
            seq![marker('|')] + b
        } else {
            Seq::empty()
        }) + seq![marker('=')] + t + seq![marker('>')],
    }
}

/// The lines of the segments written out with their conflicts unresolved.
pub open spec fn flat(ms: Seq<SegmentModel>) -> Seq<Seq<char>>
    decreases ms.len(),
{
    if ms.len() == 0 {
        Seq::empty()
    } else {
        piece(ms[0]) + flat(ms.drop_first())
    }
}

/// A line that reads back as itself and is no conflict marker.
pub open spec fn quiet(l: Seq<char>) -> bool {
    plain(l) && !marked(l, '<') && !marked(l, '|') && !marked(l, '=') && !marked(l, '>')
}

/// Every line of every segment is quiet.
pub open spec fn quiet_segments(ms: Seq<SegmentModel>) -> bool {
    forall|k: int| 0 <= k < ms.len() ==> match #[trigger] ms[k] {
        SegmentModel::Context(l) => forall|j: int| 0 <= j < l.len() ==> quiet(#[trigger] l[j]),
        SegmentModel::Conflict(o, b, t) => (forall|j: int| 0 <= j < o.len() ==> quiet(#[trigger] o[j]))
            && (forall|j: int| 0 <= j < b.len() ==> quiet(#[trigger] b[j]))
            && (forall|j: int| 0 <= j < t.len() ==> quiet(#[trigger] t[j])),
    }
}

/// Context segments hold lines and each is followed by a conflict or ends
/// the file.
pub open spec fn contexts_apart(ms: Seq<SegmentModel>) -> bool {
    forall|k: int| 0 <= k < ms.len() ==> (#[trigger] ms[k] matches SegmentModel::Context(l) ==> l.len() > 0
        && (k + 1 == ms.len() || ms[k + 1] is Conflict))
}

/// The lines joined, the two lists run together.
pub proof fn joined_concat(x: Seq<Seq<char>>, y: Seq<Seq<char>>)
    ensures
        joined(x + y) == joined(x) + joined(y),
    decreases y.len(),
{
    if y.len() == 0 {
        assert(x + y =~= x);
        assert(joined(y) =~= Seq::<char>::empty());
        assert(joined(x) + joined(y) =~= joined(x));
    } else {
        joined_concat(x, y.drop_last());
        assert((x + y).drop_last() =~= x + y.drop_last());
        assert((x + y).last() == y.last());
        assert(joined(x + y) =~= joined(x) + joined(y));
    }
}

/// One line joined.
proof fn joined_one(l: Seq<char>)
    ensures
        joined(seq![l]) == l + seq!['\n'],
{
    assert(seq![l].drop_last() =~= Seq::<Seq<char>>::empty());
    assert(joined(seq![l].drop_last()) =~= Seq::<char>::empty());
    assert(joined(seq![l]) =~= l + seq!['\n']);
}

/// A segment's text with its conflicts unresolved is its lines joined.
proof fn piece_text(m: SegmentModel)
    ensures
        match m {
            SegmentModel::Context(l) => joined(l) == joined(piece(m)),
            SegmentModel::Conflict(o, b, t) => conflict_out(o, b, t, Resolution::Unresolved) == joined(piece(m)),
        },
{
    reveal_strlit("<<<<<<<\n");
    reveal_strlit("|||||||\n");
    reveal_strlit("=======\n");
    reveal_strlit(">>>>>>>\n");
    match m {
        SegmentModel::Context(l) => {},
        SegmentModel::Conflict(o, b, t) => {
            let lt = seq![marker('<')];
            let bar = seq![marker('|')];
            let eq = seq![marker('=')];
            let gt = seq![marker('>')];
            let mid = if b.len() > 0 { bar + b } else { Seq::empty() };
            joined_one(marker('<'));
            joined_one(marker('|'));
            joined_one(marker('='));
            joined_one(marker('>'));
            assert("<<<<<<<\n"@ =~= joined(lt));
            assert("|||||||\n"@ =~= joined(bar));
            assert("=======\n"@ =~= joined(eq));
            assert(">>>>>>>\n"@ =~= joined(gt));
            joined_concat(lt, o);
            joined_concat(lt + o, mid);
            joined_concat(lt + o + mid, eq);
            joined_concat(lt + o + mid + eq, t);
            joined_concat(lt + o + mid + eq + t, gt);
            joined_concat(bar, b);
            assert(joined(Seq::<Seq<char>>::empty()) =~= Seq::<char>::empty());
            let base_part = if b.len() > 0 { "|||||||\n"@ + joined(b) } else { Seq::empty() };
            assert(joined(mid) =~= base_part);
            assert(conflict_out(o, b, t, Resolution::Unresolved) =~= joined(piece(m)));
        },
    }
}

/// The segments' text with every conflict unresolved is their lines joined.
pub proof fn unresolved_text(ms: Seq<SegmentModel>)
    ensures
        segments_out(ms, Seq::empty()) == joined(flat(ms)),
    decreases ms.len(),
{
    if ms.len() > 0 {
        unresolved_text(ms.drop_first());
        piece_text(ms[0]);
        joined_concat(piece(ms[0]), flat(ms.drop_first()));
    } else {
        assert(joined(flat(ms)) =~= Seq::<char>::empty());
    }
}

/// Context lines not opening a conflict gather into the pending context.
proof fn context_run(ls: Seq<Seq<char>>, i: int, ctx: Seq<Seq<char>>, l: Seq<Seq<char>>)
    requires
        0 <= i,
        i + l.len() <= ls.len(),
        ls.subrange(i, i + l.len()) == l,
        forall|j: int| 0 <= j < l.len() ==> !marked(#[trigger] l[j], '<'),
    ensures
        parse_from(ls, i, ctx) == parse_from(ls, i + l.len(), ctx + l),
    decreases l.len(),
{
    if l.len() == 0 {
        assert(ctx + l =~= ctx);
    } else {
        assert(ls[i] == l[0]);
        let rest = l.drop_first();
        assert(ls.subrange(i + 1, i + 1 + rest.len()) =~= rest);
        assert forall|j: int| 0 <= j < rest.len() implies !marked(#[trigger] rest[j], '<') by {
            assert(rest[j] == l[j + 1]);
        }
        context_run(ls, i + 1, ctx.push(l[0]), rest);
        assert(ctx.push(l[0]) + rest =~= ctx + l);
    }
}

/// A run of lines that do not stop it ends at the line after them that
/// does.
proof fn run_to(ls: Seq<Seq<char>>, s: int, x: Seq<Seq<char>>, level: int)
    requires
        0 <= s,
        s + x.len() < ls.len(),
        ls.subrange(s, s + x.len()) == x,
        forall|j: int| 0 <= j < x.len() ==> !stops(#[trigger] x[j], level),
        stops(ls[s + x.len()], level),
    ensures
        run_end(ls, s, level) == s + x.len(),
    decreases x.len(),
{
    if x.len() > 0 {
        assert(ls[s] == x[0]);
        let rest = x.drop_first();
        assert(ls.subrange(s + 1, s + 1 + rest.len()) =~= rest);
        assert forall|j: int| 0 <= j < rest.len() implies !stops(#[trigger] rest[j], level) by {
            assert(rest[j] == x[j + 1]);
        }
        run_to(ls, s + 1, rest, level);
    }
}

/// A conflict marker is marked by its own character only.
proof fn marker_marks(c: char, d: char)
    ensures
        marked(marker(c), d) == (c == d),
{
    assert(marker(c)[0] == c);
}

/// Every line quiet.
pub open spec fn all_quiet(x: Seq<Seq<char>>) -> bool {
    forall|j: int| 0 <= j < x.len() ==> quiet(#[trigger] x[j])
}

/// Quiet lines stop no run.
proof fn quiet_runs_on(x: Seq<Seq<char>>, level: int)
    requires
        all_quiet(x),
    ensures
        forall|j: int| 0 <= j < x.len() ==> !stops(#[trigger] x[j], level),
{
    assert forall|j: int| 0 <= j < x.len() implies !stops(#[trigger] x[j], level) by {
        assert(quiet(x[j]));
    }
}

/// A conflict written out with its markers reads back as the same conflict,
/// the parse going on just after its closing marker.
proof fn conflict_reads_back(ls: Seq<Seq<char>>, i: int, o: Seq<Seq<char>>, b: Seq<Seq<char>>, t: Seq<Seq<char>>)
    requires
        0 <= i,
        i + piece(SegmentModel::Conflict(o, b, t)).len() <= ls.len(),
        ls.subrange(i, i + piece(SegmentModel::Conflict(o, b, t)).len()) == piece(SegmentModel::Conflict(o, b, t)),
        all_quiet(o),
        all_quiet(b),
        all_quiet(t),
    ensures
        conflict_at(ls, i) == (o, b, t, i + piece(SegmentModel::Conflict(o, b, t)).len()),
{
    let p = piece(SegmentModel::Conflict(o, b, t));
    let mid: Seq<Seq<char>> = if b.len() > 0 { seq![marker('|')] + b } else { Seq::empty() };
    let lt = seq![marker('<')];
    let eqm = seq![marker('=')];
    let gtm = seq![marker('>')];
    assert(p == lt + o + mid + eqm + t + gtm);
    let n = ls.len() as int;
    let no = o.len() as int;
    let nm = mid.len() as int;
    let nt = t.len() as int;
    assert(p.len() == 1 + no + nm + 1 + nt + 1);
    assert forall|k: int| 0 <= k < p.len() implies ls[i + k] == #[trigger] p[k] by {
        assert(ls.subrange(i, i + p.len())[k] == ls[i + k]);
    }
    marker_marks('|', '|');
    marker_marks('=', '|');
    marker_marks('=', '=');
    marker_marks('>', '>');
    marker_marks('>', '|');
    marker_marks('>', '=');
    // ours runs from the line after the opening marker to the next marker.
    let oe = i + 1 + no;
    assert(ls.subrange(i + 1, oe) =~= o) by {
        assert forall|j: int| 0 <= j < no implies ls.subrange(i + 1, oe)[j] == o[j] by {
            assert(p[1 + j] == o[j]);
            assert(ls[i + 1 + j] == p[1 + j]);
        }
    }
    quiet_runs_on(o, 0);
    assert(ls[oe] == p[1 + no]);
    if b.len() > 0 {
        assert(p[1 + no] == marker('|'));
    } else {
        assert(p[1 + no] == marker('='));
    }
    run_to(ls, i + 1, o, 0);
    assert(run_end(ls, i + 1, 0) == oe);
    let has_base = oe < n && marked(ls[oe], '|');
    assert(has_base == (b.len() > 0));
    // the base section, when there is one.
    let j = if has_base { run_end(ls, oe + 1, 1) } else { oe };
    if b.len() > 0 {
        let be = oe + 1 + b.len();
        assert(ls.subrange(oe + 1, be) =~= b) by {
            assert forall|q: int| 0 <= q < b.len() implies ls.subrange(oe + 1, be)[q] == b[q] by {
                assert(p[1 + no + 1 + q] == b[q]);
                assert(ls[oe + 1 + q] == p[1 + no + 1 + q]);
            }
        }
        quiet_runs_on(b, 1);
        assert(ls[be] == p[1 + no + nm]);
        assert(p[1 + no + nm] == marker('='));
        run_to(ls, oe + 1, b, 1);
        assert(j == be);
    } else {
        assert(j == oe);
    }
    assert(j == i + 1 + no + nm);
    // theirs, between `=======` and `>>>>>>>`.
    assert(ls[j] == p[1 + no + nm]);
    assert(p[1 + no + nm] == marker('='));
    let te = j + 1 + nt;
    assert(ls.subrange(j + 1, te) =~= t) by {
        assert forall|q: int| 0 <= q < nt implies ls.subrange(j + 1, te)[q] == t[q] by {
            assert(p[1 + no + nm + 1 + q] == t[q]);
            assert(ls[j + 1 + q] == p[1 + no + nm + 1 + q]);
        }
    }
    quiet_runs_on(t, 2);
    assert(ls[te] == p[1 + no + nm + 1 + nt]);
    assert(p[1 + no + nm + 1 + nt] == marker('>'));
    run_to(ls, j + 1, t, 2);
    if b.len() > 0 {
        assert(conflict_at_j(ls, i) == j);
    }
}

/// Segments written out from line `i` on parse back as themselves, after
/// the pending context (which only a conflict or the end may follow).
proof fn segments_read_back(ls: Seq<Seq<char>>, i: int, ctx: Seq<Seq<char>>, ms: Seq<SegmentModel>)
    requires
        0 <= i <= ls.len(),
        ls.skip(i) == flat(ms),
        quiet_segments(ms),
        contexts_apart(ms),
        ctx.len() == 0 || ms.len() == 0 || ms[0] is Conflict,
    ensures
        parse_from(ls, i, ctx) == flushed(ctx) + ms,
    decreases ms.len(),
{
    if ms.len() == 0 {
        assert(ls.skip(i).len() == 0);
        assert(flushed(ctx) + ms =~= flushed(ctx));
    } else {
        let rest = ms.drop_first();
        let p = piece(ms[0]);
        assert(flat(ms) == p + flat(rest));
        assert(ls.subrange(i, i + p.len()) =~= p) by {
            assert forall|k: int| 0 <= k < p.len() implies ls.subrange(i, i + p.len())[k] == p[k] by {
                assert(ls.skip(i)[k] == flat(ms)[k]);
            }
        }
        assert(ls.skip(i + p.len()) =~= flat(rest)) by {
            assert forall|k: int| 0 <= k < flat(rest).len() implies ls.skip(i + p.len())[k] == flat(rest)[k] by {
                assert(ls.skip(i)[p.len() + k] == flat(ms)[p.len() + k]);
            }
        }
        assert(quiet_segments(rest)) by {
            assert forall|k: int| 0 <= k < rest.len() implies match #[trigger] rest[k] {
                SegmentModel::Context(l) => forall|j: int| 0 <= j < l.len() ==> quiet(#[trigger] l[j]),
                SegmentModel::Conflict(o, b, t) => (forall|j: int| 0 <= j < o.len() ==> quiet(#[trigger] o[j]))
                    && (forall|j: int| 0 <= j < b.len() ==> quiet(#[trigger] b[j]))
                    && (forall|j: int| 0 <= j < t.len() ==> quiet(#[trigger] t[j])),
            } by {
                assert(rest[k] == ms[k + 1]);
            }
        }
        assert(contexts_apart(rest)) by {
            assert forall|k: int| 0 <= k < rest.len() implies (#[trigger] rest[k] matches SegmentModel::Context(l) ==> l.len() > 0
                && (k + 1 == rest.len() || rest[k + 1] is Conflict)) by {
                assert(rest[k] == ms[k + 1]);
                if k + 1 < rest.len() {
                    assert(rest[k + 1] == ms[k + 2]);
                }
            }
        }
        assert(quiet_segments(ms));
        let m0 = ms[0];
        match m0 {
            SegmentModel::Context(l) => {
                assert(ctx.len() == 0);
                assert forall|j: int| 0 <= j < l.len() implies !marked(#[trigger] l[j], '<') by {
                    assert(quiet(l[j]));
                }
                context_run(ls, i, ctx, l);
                assert(ctx + l =~= l);
                assert(l.len() > 0);
                if rest.len() > 0 {
                    assert(rest[0] == ms[1]);
                }
                segments_read_back(ls, i + l.len(), l, rest);
                assert(flushed(ctx) =~= Seq::<SegmentModel>::empty());
                assert(flushed(l) + rest =~= flushed(ctx) + ms);
            },
            SegmentModel::Conflict(o, b, t) => {
                assert(all_quiet(o) && all_quiet(b) && all_quiet(t));
                conflict_reads_back(ls, i, o, b, t);
                assert(ls[i] == p[0]);
                marker_marks('<', '<');
                segments_read_back(ls, i + p.len(), Seq::empty(), rest);
                assert(flushed(Seq::<Seq<char>>::empty()) =~= Seq::<SegmentModel>::empty());
                assert(flushed(ctx) + seq![SegmentModel::Conflict(o, b, t)] + (Seq::<SegmentModel>::empty() + rest)
                    =~= flushed(ctx) + ms);
            },
        }
    }
}

/// A marker line is plain.
proof fn marker_plain(c: char)
    requires
        c != '\n',
        c != '\r',
    ensures
        plain(marker(c)),
{
    assert(marker(c).last() == c);
}

/// The lines of segments with quiet lines are plain.
proof fn flat_plain(ms: Seq<SegmentModel>)
    requires
        quiet_segments(ms),
    ensures
        forall|k: int| 0 <= k < flat(ms).len() ==> plain(#[trigger] flat(ms)[k]),
    decreases ms.len(),
{
    if ms.len() > 0 {
        let rest = ms.drop_first();
        assert(quiet_segments(rest)) by {
            assert forall|k: int| 0 <= k < rest.len() implies match #[trigger] rest[k] {
                SegmentModel::Context(l) => forall|j: int| 0 <= j < l.len() ==> quiet(#[trigger] l[j]),
                SegmentModel::Conflict(o, b, t) => (forall|j: int| 0 <= j < o.len() ==> quiet(#[trigger] o[j]))
                    && (forall|j: int| 0 <= j < b.len() ==> quiet(#[trigger] b[j]))
                    && (forall|j: int| 0 <= j < t.len() ==> quiet(#[trigger] t[j])),
            } by {
                assert(rest[k] == ms[k + 1]);
            }
        }
        flat_plain(rest);
        let p = piece(ms[0]);
        assert(quiet_segments(ms));
        marker_plain('<');
        marker_plain('|');
        marker_plain('=');
        marker_plain('>');
        assert forall|k: int| 0 <= k < p.len() implies plain(#[trigger] p[k]) by {
            match ms[0] {
                SegmentModel::Context(l) => {
                    assert(quiet(l[k]));
                },
                SegmentModel::Conflict(o, b, t) => {
                    let mid: Seq<Seq<char>> = if b.len() > 0 { seq![marker('|')] + b } else { Seq::empty() };
                    let lt = seq![marker('<')];
                    let eqm = seq![marker('=')];
                    let gtm = seq![marker('>')];
                    assert(p == lt + o + mid + eqm + t + gtm);
                    let no = o.len() as int;
                    let nm = mid.len() as int;
                    let nt = t.len() as int;
                    if k == 0 {
                        assert(p[k] == marker('<'));
                        assert(plain(marker('<')));
                    } else if k < 1 + no {
                        assert(p[k] == o[k - 1]);
                        assert(quiet(o[k - 1]));
                    } else if k < 1 + no + nm {
                        if k == 1 + no {
                            assert(p[k] == marker('|'));
                            assert(plain(marker('|')));
                        } else {
                            assert(p[k] == b[k - 2 - no]);
                            assert(quiet(b[k - 2 - no]));
                        }
                    } else if k == 1 + no + nm {
                        assert(p[k] == marker('='));
                        assert(plain(marker('=')));
                    } else if k < 2 + no + nm + nt {
                        assert(p[k] == t[k - 2 - no - nm]);
                        assert(quiet(t[k - 2 - no - nm]));
                    } else {
                        assert(p[k] == marker('>'));
                        assert(plain(marker('>')));
                    }
                },
            }
        }
        assert forall|k: int| 0 <= k < flat(ms).len() implies plain(#[trigger] flat(ms)[k]) by {
            assert(flat(ms) == p + flat(rest));
            if k < p.len() {
                assert(flat(ms)[k] == p[k]);
            } else {
                assert(flat(ms)[k] == flat(rest)[k - p.len()]);
            }
        }
    }
}

/// A conflicted file whose conflicts are all left unresolved reads back as
/// the same segments: written out with its markers by
/// `conflict_result_text`, its lines parse (`parse_conflicts`) into the
/// segments it was written from. This holds of segments whose lines are
/// quiet (no newline, no trailing carriage return, no marker) and whose
/// context segments are non-empty and each followed by a conflict or the end.
pub proof fn unresolved_conflicts_read_back(ms: Seq<SegmentModel>)
    requires
        quiet_segments(ms),
        contexts_apart(ms),
    ensures
        text_lines(segments_out(ms, Seq::empty())) == flat(ms),
        parse_from(text_lines(segments_out(ms, Seq::empty())), 0, Seq::empty()) == ms,
{
    unresolved_text(ms);
    flat_plain(ms);
    written_lines_read_back(flat(ms));
    let ls = flat(ms);
    assert(ls.skip(0) =~= ls);
    segments_read_back(ls, 0, Seq::empty(), ms);
    assert(flushed(Seq::<Seq<char>>::empty()) + ms =~= ms);
}

/// The cells of runs: each character of a run paired with the run's
/// emphasis, run after run.
pub open spec fn spread(runs: Seq<(Seq<char>, bool)>) -> Seq<(char, bool)>
    decreases runs.len(),
{
    if runs.len() == 0 {
        Seq::empty()
    } else {
        let r = runs.last();
        spread(runs.drop_last()) + r.0.map_values(|c: char| (c, r.1))
    }
}

/// Runs as a pane row draws them: none empty, and no two neighbours alike in
/// emphasis.
pub open spec fn coalesced(runs: Seq<(Seq<char>, bool)>) -> bool {
    &&& forall|k: int| 0 <= k < runs.len() ==> (#[trigger] runs[k]).0.len() > 0
    &&& forall|k: int| 0 <= k < runs.len() - 1 ==> (#[trigger] runs[k]).1 != runs[k + 1].1
}

/// Group laid-out cells into the runs a pane row draws: each maximal stretch
/// of cells alike in emphasis becomes one run.
pub fn cell_runs(cells: &Vec<(char, bool)>) -> (runs: Vec<(String, bool)>)
    ensures
        spread(run_views(runs@)) == cells@,
        coalesced(run_views(runs@)),
{
    let mut runs: Vec<(String, bool)> = Vec::new();
    let mut cur = String::new();
    let mut cur_emph = false;
    let mut i: usize = 0;
    assert(spread(run_views(runs@)) + cur@.map_values(|c: char| (c, cur_emph)) =~= cells@.take(0));
    while i < cells.len()
        invariant
            i <= cells@.len(),
            spread(run_views(runs@)) + cur@.map_values(|c: char| (c, cur_emph)) == cells@.take(i as int),
            coalesced(run_views(runs@)),
            i > 0 ==> cur@.len() > 0,
            i == 0 ==> runs@.len() == 0 && cur@.len() == 0,
            runs@.len() > 0 ==> run_views(runs@).last().1 != cur_emph,
        decreases cells@.len() - i,
    {
        let (ch, e) = cells[i];
        if cur.as_str().unicode_len() > 0 && e != cur_emph {
            let ghost before = run_views(runs@);
            let ghost done = (cur@, cur_emph);
            let mut fresh = String::new();
            std::mem::swap(&mut cur, &mut fresh);
            runs.push((fresh, cur_emph));
            proof {
                assert(run_views(runs@) =~= before.push(done));
                assert(run_views(runs@).drop_last() =~= before);
                assert(cur@.map_values(|c: char| (c, cur_emph)) =~= Seq::<(char, bool)>::empty());
                assert(spread(run_views(runs@)) + cur@.map_values(|c: char| (c, cur_emph)) =~= cells@.take(i as int));
            }
        }
        let ghost old_cur = cur@;
        let ghost old_emph = cur_emph;
        cur_emph = e;
        let cs = char_text(ch);
        cur.append(cs.as_str());
        proof {
            assert(cells@.take(i + 1) =~= cells@.take(i as int).push((ch, e)));
            if old_cur.len() > 0 {
                assert(old_emph == e);
            }
            assert(old_cur.map_values(|c: char| (c, old_emph)) =~= old_cur.map_values(|c: char| (c, e)));
            assert(cur@.map_values(|c: char| (c, cur_emph)) =~= old_cur.map_values(|c: char| (c, e)).push((ch, e)));
        }
        i = i + 1;
    }
    if cur.as_str().unicode_len() > 0 {
        let ghost before = run_views(runs@);
        let ghost done = (cur@, cur_emph);
        runs.push((cur, cur_emph));
        proof {
            assert(run_views(runs@) =~= before.push(done));
            assert(run_views(runs@).drop_last() =~= before);
        }
    } else {
        assert(cur@.map_values(|c: char| (c, cur_emph)) =~= Seq::<(char, bool)>::empty());
        assert(spread(run_views(runs@)) =~= spread(run_views(runs@)) + Seq::<(char, bool)>::empty());
    }
    assert(cells@.take(cells@.len() as int) =~= cells@);
    runs
}

/// A pane row's line-number gutter for line `i` (0-based): its 1-based
/// number right-aligned in one column less than the gutter, then a space.
pub open spec fn gutter_label_of(i: nat, gutter: nat) -> Seq<char> {
    pad_left(decimal(i + 1), if gutter > 0 { (gutter - 1) as nat } else { 0 }) + seq![' ']
}

/// The line-number gutter for line `i` of a pane `gutter` columns wide.
pub fn gutter_label(i: usize, gutter: usize) -> (r: String)
    requires
        i < usize::MAX,
    ensures
        r@ == gutter_label_of(i as nat, gutter as nat),
{
    proof {
        reveal_strlit(" ");
    }
    let num = decimal_string((i + 1) as u64);
    let width = if gutter > 0 { gutter - 1 } else { 0 };
    let mut r = String::new();
    push_padded(&mut r, num.as_str(), width);
    r.append(" ");
    assert(r@ =~= gutter_label_of(i as nat, gutter as nat));
    r
}

/// The arrow a Result row shows for its block's resolution: none on an
/// unchanged row, `◀` for the left side, `▶` for the right, `◆` for both, and
/// `?` for a conflict still open.
pub fn result_arrow(res: Option<Resolution>) -> (c: char)
    ensures
        c == (match res {
            None => ' ',
            Some(Resolution::Left) => '\u{25C0}',
            Some(Resolution::Right) => '\u{25B6}',
            Some(Resolution::Both) => '\u{25C6}',
            Some(Resolution::Unresolved) => '?',
        }),
{
    match res {
        None => ' ',
        Some(Resolution::Left) => '\u{25C0}',
        Some(Resolution::Right) => '\u{25B6}',
        Some(Resolution::Both) => '\u{25C6}',
        Some(Resolution::Unresolved) => '?',
    }
}

/// The select marker a Result row shows: `▌` on the selected block.
pub fn result_marker(selected: bool) -> (c: char)
    ensures
        c == (if selected { '\u{258C}' } else { ' ' }),
{
    if selected { '\u{258C}' } else { ' ' }
}

/// Which line a Result row previews, and whether from the right-hand text:
/// `Left` and `Right` pick their side; otherwise the row's right line when it
/// has one, else its left line.
pub open spec fn result_source_of(row: DiffRow, res: Option<Resolution>) -> (Option<usize>, bool) {
    match res {
        Some(Resolution::Left) => (row.left, false),
        Some(Resolution::Right) => (row.right, true),
        _ => if row.right is Some { (row.right, true) } else { (row.left, false) },
    }
}

/// Which line a Result row previews, and whether from the right-hand text.
pub fn result_source(row: DiffRow, res: Option<Resolution>) -> (r: (Option<usize>, bool))
    ensures
        r == result_source_of(row, res),
{
    match res {
        Some(Resolution::Left) => (row.left, false),
        Some(Resolution::Right) => (row.right, true),
        _ => if row.right.is_some() { (row.right, true) } else { (row.left, false) },
    }
}

/// What the rows give when every row shows its right-hand line.
pub open spec fn right_out(rows: Seq<DiffRow>, doc: Seq<Seq<char>>) -> Seq<char>
    decreases rows.len(),
{
    if rows.len() == 0 {
        Seq::empty()
    } else {
        right_out(rows.drop_last(), doc) + line_out(doc, rows.last().right)
    }
}

proof fn right_out_concat(x: Seq<DiffRow>, y: Seq<DiffRow>, doc: Seq<Seq<char>>)
    ensures
        right_out(x + y, doc) == right_out(x, doc) + right_out(y, doc),
    decreases y.len(),
{
    if y.len() == 0 {
        assert(x + y =~= x);
        assert(right_out(x, doc) + right_out(y, doc) =~= right_out(x, doc));
    } else {
        right_out_concat(x, y.drop_last(), doc);
        assert((x + y).drop_last() =~= x + y.drop_last());
        assert((x + y).last() == y.last());
        assert(right_out(x + y, doc) =~= right_out(x, doc) + right_out(y, doc));
    }
}

/// The lines `d..e` of `doc` and then `e..f` are the lines `d..f`.
proof fn joined_runs(doc: Seq<Seq<char>>, d: int, e: int, f: int)
    requires
        0 <= d <= e <= f <= doc.len(),
    ensures
        joined(doc.subrange(d, e)) + joined(doc.subrange(e, f)) == joined(doc.subrange(d, f)),
{
    joined_concat(doc.subrange(d, e), doc.subrange(e, f));
    assert(doc.subrange(d, e) + doc.subrange(e, f) =~= doc.subrange(d, f));
}

/// One more line after the lines `d..e`.
proof fn joined_step(doc: Seq<Seq<char>>, d: int, e: int)
    requires
        0 <= d < e <= doc.len(),
    ensures
        joined(doc.subrange(d, e)) == joined(doc.subrange(d, e - 1)) + doc[e - 1] + seq!['\n'],
{
    assert(doc.subrange(d, e).drop_last() =~= doc.subrange(d, e - 1));
}

proof fn right_out_paired(b: int, d: int, m: int, kind: RowKind, doc: Seq<Seq<char>>)
    requires
        0 <= b,
        0 <= d,
        0 <= m,
        b + m <= u32::MAX,
        d + m <= doc.len() <= u32::MAX,
    ensures
        right_out(paired(b, d, m, kind), doc) == joined(doc.subrange(d, d + m)),
    decreases m,
{
    reveal(paired);
    if m == 0 {
        assert(paired(b, d, m, kind) =~= Seq::<DiffRow>::empty());
        assert(doc.subrange(d, d) =~= Seq::<Seq<char>>::empty());
    } else {
        right_out_paired(b, d, m - 1, kind, doc);
        reveal(paired);
        assert(paired(b, d, m, kind).drop_last() =~= paired(b, d, m - 1, kind));
        joined_step(doc, d, d + m);
    }
}

proof fn right_out_added(d: int, m: int, doc: Seq<Seq<char>>)
    requires
        0 <= d,
        0 <= m,
        d + m <= doc.len() <= u32::MAX,
    ensures
        right_out(added_rows(d, m), doc) == joined(doc.subrange(d, d + m)),
    decreases m,
{
    reveal(added_rows);
    if m == 0 {
        assert(added_rows(d, m) =~= Seq::<DiffRow>::empty());
        assert(doc.subrange(d, d) =~= Seq::<Seq<char>>::empty());
    } else {
        right_out_added(d, m - 1, doc);
        reveal(added_rows);
        assert(added_rows(d, m).drop_last() =~= added_rows(d, m - 1));
        joined_step(doc, d, d + m);
    }
}

proof fn right_out_removed(b: int, m: int, doc: Seq<Seq<char>>)
    requires
        0 <= m,
    ensures
        right_out(removed_rows(b, m), doc) == Seq::<char>::empty(),
    decreases m,
{
    reveal(removed_rows);
    if m == 0 {
        assert(removed_rows(b, m) =~= Seq::<DiffRow>::empty());
    } else {
        right_out_removed(b, m - 1, doc);
        reveal(removed_rows);
        assert(removed_rows(b, m).drop_last() =~= removed_rows(b, m - 1));
    }
}

/// The rows of one hunk standing after a kept stretch show the right-hand
/// lines from the stretch's start to the hunk's end, and leave both sides at
/// the hunk's end.
proof fn hunk_rights(nb: int, nd: int, hk: Hunk, bb: int, dd: int, doc: Seq<Seq<char>>)
    requires
        0 <= bb <= hk.0.0 <= hk.0.1 <= nb <= u32::MAX,
        0 <= dd <= hk.1.0 <= hk.1.1 <= nd <= u32::MAX,
        hk.0.0 - bb == hk.1.0 - dd,
        doc.len() == nd,
    ensures
        hunk_rows(nb, nd, hk, bb, dd).1 == hk.0.1,
        hunk_rows(nb, nd, hk, bb, dd).2 == hk.1.1,
        right_out(hunk_rows(nb, nd, hk, bb, dd).0, doc) == joined(doc.subrange(dd, hk.1.1 as int)),
{
    let (bs, be, as_, ae) = (hk.0.0 as int, hk.0.1 as int, hk.1.0 as int, hk.1.1 as int);
    let common = least(be - bs, ae - as_);
    let (m1, m2, m3, m4) = hunk_runs(nb, nd, hk, bb, dd);
    assert(m1 == bs - bb);
    assert(m2 == common);
    assert(m3 == be - bs - common);
    assert(m4 == ae - as_ - common);
    let p1 = paired(bb, dd, m1, RowKind::Unchanged);
    let p2 = paired(bb + m1, dd + m1, m2, RowKind::Changed);
    let p3 = removed_rows(bb + m1 + m2, m3);
    let p4 = added_rows(dd + m1 + m2, m4);
    right_out_paired(bb, dd, m1, RowKind::Unchanged, doc);
    right_out_paired(bb + m1, dd + m1, m2, RowKind::Changed, doc);
    right_out_removed(bb + m1 + m2, m3, doc);
    right_out_added(dd + m1 + m2, m4, doc);
    right_out_concat(p1, p2, doc);
    right_out_concat(p1 + p2, p3, doc);
    right_out_concat(p1 + p2 + p3, p4, doc);
    joined_runs(doc, dd, as_, as_ + common);
    joined_runs(doc, dd, as_ + common, ae);
}

/// Laid out from hunk `h` on, the rows show the right-hand text's lines from
/// where that hunk's kept stretch begins, in order, each once.
proof fn aligned_rights(a: Seq<Seq<char>>, b: Seq<Seq<char>>, hs: Seq<Hunk>, h: int, doc: Seq<Seq<char>>)
    requires
        hunks_follow(hs, a, b),
        0 <= h <= hs.len(),
        a.len() <= u32::MAX,
        b.len() <= u32::MAX,
        doc.len() == b.len(),
    ensures
        0 <= gap_start(hs, h).0 <= a.len(),
        0 <= gap_start(hs, h).1 <= b.len(),
        right_out(align_rows(a.len() as int, b.len() as int, hs, h, gap_start(hs, h).0, gap_start(hs, h).1), doc)
            == joined(doc.subrange(gap_start(hs, h).1, b.len() as int)),
    decreases hs.len() - h,
{
    let (nb, nd) = (a.len() as int, b.len() as int);
    let (bb, dd) = gap_start(hs, h);
    if h > 0 {
        let prev = hs[h - 1];
        assert(prev.0.1 <= a.len() && prev.1.1 <= b.len());
    }
    if h == hs.len() {
        right_out_paired(bb, dd, nd - dd, RowKind::Unchanged, doc);
    } else {
        let hk = hs[h];
        assert(bb <= hk.0.0 <= hk.0.1 <= a.len() && dd <= hk.1.0 <= hk.1.1 <= b.len() && hk.0.0 - bb == hk.1.0 - dd);
        hunk_rights(nb, nd, hk, bb, dd, doc);
        assert(gap_start(hs, h + 1) == (hk.0.1 as int, hk.1.1 as int));
        aligned_rights(a, b, hs, h + 1, doc);
        let rest = align_rows(nb, nd, hs, h + 1, hk.0.1 as int, hk.1.1 as int);
        right_out_concat(hunk_rows(nb, nd, hk, bb, dd).0, rest, doc);
        joined_runs(doc, dd, hk.1.1 as int, nd);
    }
}

/// With every block taken as `r`, a row's resolution is `r` when a block
/// holds it and none otherwise.
proof fn resolution_of(blocks: Seq<Block>, i: int, r: Resolution)
    requires
        forall|k: int| 0 <= k < blocks.len() ==> (#[trigger] blocks[k]).resolution == r,
    ensures
        row_resolution(blocks, i) is None || row_resolution(blocks, i) == Some(r),
        (exists|k: int| 0 <= k < blocks.len() && (#[trigger] blocks[k]).rows.start <= i < blocks[k].rows.end)
            ==> row_resolution(blocks, i) == Some(r),
    decreases blocks.len(),
{
    if blocks.len() > 0 {
        let rest = blocks.drop_last();
        assert forall|k: int| 0 <= k < rest.len() implies (#[trigger] rest[k]).resolution == r by {
            assert(rest[k] == blocks[k]);
        }
        resolution_of(rest, i, r);
        if exists|k: int| 0 <= k < blocks.len() && (#[trigger] blocks[k]).rows.start <= i < blocks[k].rows.end {
            let k = choose|k: int| 0 <= k < blocks.len() && (#[trigger] blocks[k]).rows.start <= i < blocks[k].rows.end;
            if k < blocks.len() - 1 {
                assert(rest[k] == blocks[k]);
            }
        }
    }
}

/// With every block taken Right, the result text is every row's right-hand
/// line in turn.
proof fn rows_out_right(rows: Seq<DiffRow>, blocks: Seq<Block>, base: Seq<Seq<char>>, doc: Seq<Seq<char>>, n: int)
    requires
        0 <= n <= rows.len(),
        forall|i: int| 0 <= i < rows.len() ==> row_ok(#[trigger] rows[i], base.len(), doc.len()),
        blocks_cover(rows, blocks),
        forall|k: int| 0 <= k < blocks.len() ==> (#[trigger] blocks[k]).resolution == Resolution::Right,
    ensures
        rows_out(rows, blocks, base, doc, n) == right_out(rows.take(n), doc),
    decreases n,
{
    if n > 0 {
        rows_out_right(rows, blocks, base, doc, n - 1);
        assert(rows.take(n).drop_last() =~= rows.take(n - 1));
        let row = rows[n - 1];
        assert(row_ok(row, base.len(), doc.len()));
        resolution_of(blocks, n - 1, Resolution::Right);
        if changed(row) {
            assert(exists|k: int| 0 <= k < blocks.len() && (#[trigger] blocks[k]).rows.start <= n - 1 < blocks[k].rows.end);
        }
    }
}

/// Taking every block of the rows the line diff lays out Right gives back the
/// working text, line for line: the right-hand lines stand in the rows each
/// once and in order, and every changed row lies in a block.
pub proof fn every_block_right_gives_the_working_text(base: Seq<char>, doc: Seq<char>, hunks: Seq<Hunk>, blocks: Seq<Block>)
    requires
        hunks_follow(hunks, line_tokens(base), line_tokens(doc)),
        line_tokens(base).len() <= u32::MAX,
        line_tokens(doc).len() <= u32::MAX,
        blocks_cover(align_rows(text_lines(base).len() as int, text_lines(doc).len() as int, hunks, 0, 0, 0), blocks),
        forall|k: int| 0 <= k < blocks.len() ==> (#[trigger] blocks[k]).resolution == Resolution::Right,
    ensures
        ({
            let rows = align_rows(text_lines(base).len() as int, text_lines(doc).len() as int, hunks, 0, 0, 0);
            rows_out(rows, blocks, text_lines(base), text_lines(doc), rows.len() as int) == joined(text_lines(doc))
        }),
{
    let (a, b) = (line_tokens(base), line_tokens(doc));
    let rows = align_rows(text_lines(base).len() as int, text_lines(doc).len() as int, hunks, 0, 0, 0);
    aligned_rights(a, b, hunks, 0, text_lines(doc));
    align_rows_ok(a.len() as int, b.len() as int, hunks, 0, 0, 0);
    rows_out_right(rows, blocks, text_lines(base), text_lines(doc), rows.len() as int);
    assert(rows.take(rows.len() as int) =~= rows);
    assert(text_lines(doc).subrange(0, b.len() as int) =~= text_lines(doc));
}

/// What the rows give when every row shows its left-hand line.
pub open spec fn left_out(rows: Seq<DiffRow>, base: Seq<Seq<char>>) -> Seq<char>
    decreases rows.len(),
{
    if rows.len() == 0 {
        Seq::empty()
    } else {
        left_out(rows.drop_last(), base) + line_out(base, rows.last().left)
    }
}

proof fn left_out_concat(x: Seq<DiffRow>, y: Seq<DiffRow>, base: Seq<Seq<char>>)
    ensures
        left_out(x + y, base) == left_out(x, base) + left_out(y, base),
    decreases y.len(),
{
    if y.len() == 0 {
        assert(x + y =~= x);
        assert(left_out(x, base) + left_out(y, base) =~= left_out(x, base));
    } else {
        left_out_concat(x, y.drop_last(), base);
        assert((x + y).drop_last() =~= x + y.drop_last());
        assert((x + y).last() == y.last());
        assert(left_out(x + y, base) =~= left_out(x, base) + left_out(y, base));
    }
}

proof fn left_out_paired(b: int, d: int, m: int, kind: RowKind, base: Seq<Seq<char>>)
    requires
        0 <= b,
        0 <= d,
        0 <= m,
        d + m <= u32::MAX,
        b + m <= base.len() <= u32::MAX,
    ensures
        left_out(paired(b, d, m, kind), base) == joined(base.subrange(b, b + m)),
    decreases m,
{
    reveal(paired);
    if m == 0 {
        assert(paired(b, d, m, kind) =~= Seq::<DiffRow>::empty());
        assert(base.subrange(b, b) =~= Seq::<Seq<char>>::empty());
    } else {
        left_out_paired(b, d, m - 1, kind, base);
        reveal(paired);
        assert(paired(b, d, m, kind).drop_last() =~= paired(b, d, m - 1, kind));
        joined_step(base, b, b + m);
    }
}

proof fn left_out_removed(b: int, m: int, base: Seq<Seq<char>>)
    requires
        0 <= b,
        0 <= m,
        b + m <= base.len() <= u32::MAX,
    ensures
        left_out(removed_rows(b, m), base) == joined(base.subrange(b, b + m)),
    decreases m,
{
    reveal(removed_rows);
    if m == 0 {
        assert(removed_rows(b, m) =~= Seq::<DiffRow>::empty());
        assert(base.subrange(b, b) =~= Seq::<Seq<char>>::empty());
    } else {
        left_out_removed(b, m - 1, base);
        reveal(removed_rows);
        assert(removed_rows(b, m).drop_last() =~= removed_rows(b, m - 1));
        joined_step(base, b, b + m);
    }
}

proof fn left_out_added(d: int, m: int, base: Seq<Seq<char>>)
    requires
        0 <= m,
    ensures
        left_out(added_rows(d, m), base) == Seq::<char>::empty(),
    decreases m,
{
    reveal(added_rows);
    if m == 0 {
        assert(added_rows(d, m) =~= Seq::<DiffRow>::empty());
    } else {
        left_out_added(d, m - 1, base);
        reveal(added_rows);
        assert(added_rows(d, m).drop_last() =~= added_rows(d, m - 1));
    }
}

/// The rows of one hunk standing after a kept stretch show the left-hand
/// lines from the stretch's start to the hunk's end; its unchanged rows pair
/// lines that are the same on both sides.
proof fn hunk_lefts(a: Seq<Seq<char>>, b: Seq<Seq<char>>, hk: Hunk, bb: int, dd: int, base: Seq<Seq<char>>)
    requires
        0 <= bb <= hk.0.0 <= hk.0.1 <= a.len() <= u32::MAX,
        0 <= dd <= hk.1.0 <= hk.1.1 <= b.len() <= u32::MAX,
        hk.0.0 - bb == hk.1.0 - dd,
        a.subrange(bb, hk.0.0 as int) == b.subrange(dd, hk.1.0 as int),
        base.len() == a.len(),
    ensures
        hunk_rows(a.len() as int, b.len() as int, hk, bb, dd).1 == hk.0.1,
        hunk_rows(a.len() as int, b.len() as int, hk, bb, dd).2 == hk.1.1,
        left_out(hunk_rows(a.len() as int, b.len() as int, hk, bb, dd).0, base) == joined(base.subrange(bb, hk.0.1 as int)),
        forall|k: int| 0 <= k < hunk_rows(a.len() as int, b.len() as int, hk, bb, dd).0.len()
            && (#[trigger] hunk_rows(a.len() as int, b.len() as int, hk, bb, dd).0[k]).kind == RowKind::Unchanged
            ==> a[hunk_rows(a.len() as int, b.len() as int, hk, bb, dd).0[k].left->0 as int]
                == b[hunk_rows(a.len() as int, b.len() as int, hk, bb, dd).0[k].right->0 as int],
{
    let (nb, nd) = (a.len() as int, b.len() as int);
    let (bs, be, as_, ae) = (hk.0.0 as int, hk.0.1 as int, hk.1.0 as int, hk.1.1 as int);
    let common = least(be - bs, ae - as_);
    let (m1, m2, m3, m4) = hunk_runs(nb, nd, hk, bb, dd);
    assert(m1 == bs - bb);
    assert(m2 == common);
    assert(m3 == be - bs - common);
    assert(m4 == ae - as_ - common);
    let p1 = paired(bb, dd, m1, RowKind::Unchanged);
    let p2 = paired(bb + m1, dd + m1, m2, RowKind::Changed);
    let p3 = removed_rows(bb + m1 + m2, m3);
    let p4 = added_rows(dd + m1 + m2, m4);
    left_out_paired(bb, dd, m1, RowKind::Unchanged, base);
    left_out_paired(bb + m1, dd + m1, m2, RowKind::Changed, base);
    left_out_removed(bb + m1 + m2, m3, base);
    left_out_added(dd + m1 + m2, m4, base);
    left_out_concat(p1, p2, base);
    left_out_concat(p1 + p2, p3, base);
    left_out_concat(p1 + p2 + p3, p4, base);
    joined_runs(base, bb, bs, bs + common);
    joined_runs(base, bb, bs + common, be);
    let r = hunk_rows(nb, nd, hk, bb, dd).0;
    reveal(paired);
    reveal(removed_rows);
    reveal(added_rows);
    assert forall|k: int| 0 <= k < r.len() && (#[trigger] r[k]).kind == RowKind::Unchanged
        implies a[r[k].left->0 as int] == b[r[k].right->0 as int] by {
        if k < m1 {
            assert(r[k] == p1[k]);
            assert(a.subrange(bb, bs)[k] == b.subrange(dd, as_)[k]);
        } else if k < m1 + m2 {
            assert(r[k] == p2[k - m1]);
        } else if k < m1 + m2 + m3 {
            assert(r[k] == p3[k - m1 - m2]);
        } else {
            assert(r[k] == p4[k - m1 - m2 - m3]);
        }
    }
}

/// Laid out from hunk `h` on, the rows show the left-hand text's lines from
/// where that hunk's kept stretch begins, in order, each once.
proof fn aligned_lefts(a: Seq<Seq<char>>, b: Seq<Seq<char>>, hs: Seq<Hunk>, h: int, base: Seq<Seq<char>>)
    requires
        hunks_follow(hs, a, b),
        0 <= h <= hs.len(),
        a.len() <= u32::MAX,
        b.len() <= u32::MAX,
        base.len() == a.len(),
    ensures
        left_out(align_rows(a.len() as int, b.len() as int, hs, h, gap_start(hs, h).0, gap_start(hs, h).1), base)
            == joined(base.subrange(gap_start(hs, h).0, a.len() as int)),
    decreases hs.len() - h,
{
    let (nb, nd) = (a.len() as int, b.len() as int);
    let (bb, dd) = gap_start(hs, h);
    if h > 0 {
        let prev = hs[h - 1];
        assert(prev.0.1 <= a.len() && prev.1.1 <= b.len());
    }
    if h == hs.len() {
        left_out_paired(bb, dd, nb - bb, RowKind::Unchanged, base);
    } else {
        let hk = hs[h];
        assert(bb <= hk.0.0 <= hk.0.1 <= a.len() && dd <= hk.1.0 <= hk.1.1 <= b.len() && hk.0.0 - bb == hk.1.0 - dd);
        assert(a.subrange(bb, hk.0.0 as int) == b.subrange(dd, hk.1.0 as int));
        hunk_lefts(a, b, hk, bb, dd, base);
        assert(gap_start(hs, h + 1) == (hk.0.1 as int, hk.1.1 as int));
        aligned_lefts(a, b, hs, h + 1, base);
        let rest = align_rows(nb, nd, hs, h + 1, hk.0.1 as int, hk.1.1 as int);
        left_out_concat(hunk_rows(nb, nd, hk, bb, dd).0, rest, base);
        joined_runs(base, bb, hk.0.1 as int, nb);
    }
}

/// The tail of kept lines pairs lines that are the same on both sides.
proof fn tail_same(a: Seq<Seq<char>>, b: Seq<Seq<char>>, bb: int, dd: int)
    requires
        0 <= bb <= a.len() <= u32::MAX,
        0 <= dd <= b.len() <= u32::MAX,
        a.len() - bb == b.len() - dd,
        a.subrange(bb, a.len() as int) == b.subrange(dd, b.len() as int),
    ensures
        ({
            let rows = paired(bb, dd, a.len() - bb, RowKind::Unchanged);
            forall|k: int| 0 <= k < rows.len() && (#[trigger] rows[k]).kind == RowKind::Unchanged
                ==> a[rows[k].left->0 as int] == b[rows[k].right->0 as int]
        }),
{
    reveal(paired);
    let rows = paired(bb, dd, a.len() - bb, RowKind::Unchanged);
    assert forall|k: int| 0 <= k < rows.len() && (#[trigger] rows[k]).kind == RowKind::Unchanged
        implies a[rows[k].left->0 as int] == b[rows[k].right->0 as int] by {
        assert(a.subrange(bb, a.len() as int)[k] == b.subrange(dd, b.len() as int)[k]);
    }
}

/// Laid out from hunk `h` on, the unchanged rows pair lines that are the
/// same on both sides.
proof fn aligned_same(a: Seq<Seq<char>>, b: Seq<Seq<char>>, hs: Seq<Hunk>, h: int)
    requires
        hunks_follow(hs, a, b),
        0 <= h <= hs.len(),
        a.len() <= u32::MAX,
        b.len() <= u32::MAX,
    ensures
        ({
            let rows = align_rows(a.len() as int, b.len() as int, hs, h, gap_start(hs, h).0, gap_start(hs, h).1);
            forall|k: int| 0 <= k < rows.len() && (#[trigger] rows[k]).kind == RowKind::Unchanged
                ==> a[rows[k].left->0 as int] == b[rows[k].right->0 as int]
        }),
    decreases hs.len() - h,
{
    let (nb, nd) = (a.len() as int, b.len() as int);
    let (bb, dd) = gap_start(hs, h);
    if h > 0 {
        let prev = hs[h - 1];
        assert(prev.0.1 <= a.len() && prev.1.1 <= b.len());
    }
    let rows = align_rows(nb, nd, hs, h, bb, dd);
    if h == hs.len() {
        tail_same(a, b, bb, dd);
    } else {
        let hk = hs[h];
        assert(bb <= hk.0.0 <= hk.0.1 <= a.len() && dd <= hk.1.0 <= hk.1.1 <= b.len() && hk.0.0 - bb == hk.1.0 - dd);
        assert(a.subrange(bb, hk.0.0 as int) == b.subrange(dd, hk.1.0 as int));
        hunk_lefts(a, b, hk, bb, dd, a);
        assert(gap_start(hs, h + 1) == (hk.0.1 as int, hk.1.1 as int));
        aligned_same(a, b, hs, h + 1);
        let r = hunk_rows(nb, nd, hk, bb, dd).0;
        let rest = align_rows(nb, nd, hs, h + 1, hk.0.1 as int, hk.1.1 as int);
        assert(rows == r + rest);
        assert forall|k: int| 0 <= k < rows.len() && (#[trigger] rows[k]).kind == RowKind::Unchanged
            implies a[rows[k].left->0 as int] == b[rows[k].right->0 as int] by {
            if k < r.len() {
                assert(rows[k] == r[k]);
            } else {
                assert(rows[k] == rest[k - r.len()]);
            }
        }
    }
}

/// With every block taken Left, the result text is every row's left-hand
/// line in turn, when each unchanged row pairs the same line on both sides.
proof fn rows_out_left(rows: Seq<DiffRow>, blocks: Seq<Block>, base: Seq<Seq<char>>, doc: Seq<Seq<char>>, n: int)
    requires
        0 <= n <= rows.len(),
        forall|i: int| 0 <= i < rows.len() ==> row_ok(#[trigger] rows[i], base.len(), doc.len()),
        forall|i: int| 0 <= i < rows.len() && (#[trigger] rows[i]).kind == RowKind::Unchanged
            ==> base[rows[i].left->0 as int] == doc[rows[i].right->0 as int],
        blocks_cover(rows, blocks),
        forall|k: int| 0 <= k < blocks.len() ==> (#[trigger] blocks[k]).resolution == Resolution::Left,
    ensures
        rows_out(rows, blocks, base, doc, n) == left_out(rows.take(n), base),
    decreases n,
{
    if n > 0 {
        rows_out_left(rows, blocks, base, doc, n - 1);
        assert(rows.take(n).drop_last() =~= rows.take(n - 1));
        let row = rows[n - 1];
        assert(row_ok(row, base.len(), doc.len()));
        resolution_of(blocks, n - 1, Resolution::Left);
        if changed(row) {
            assert(exists|k: int| 0 <= k < blocks.len() && (#[trigger] blocks[k]).rows.start <= n - 1 < blocks[k].rows.end);
        } else {
            assert(base[row.left->0 as int] == doc[row.right->0 as int]);
        }
    }
}

/// Taking every block of the rows the line diff lays out Left gives back the
/// base text, line for line: the left-hand lines stand in the rows each once
/// and in order, every changed row lies in a block, and the rows left out of
/// every block pair the same line on both sides.
pub proof fn every_block_left_gives_the_base_text(base: Seq<char>, doc: Seq<char>, hunks: Seq<Hunk>, blocks: Seq<Block>)
    requires
        hunks_follow(hunks, line_tokens(base), line_tokens(doc)),
        line_tokens(base).len() <= u32::MAX,
        line_tokens(doc).len() <= u32::MAX,
        blocks_cover(align_rows(text_lines(base).len() as int, text_lines(doc).len() as int, hunks, 0, 0, 0), blocks),
        forall|k: int| 0 <= k < blocks.len() ==> (#[trigger] blocks[k]).resolution == Resolution::Left,
    ensures
        ({
            let rows = align_rows(text_lines(base).len() as int, text_lines(doc).len() as int, hunks, 0, 0, 0);
            rows_out(rows, blocks, text_lines(base), text_lines(doc), rows.len() as int) == joined(text_lines(base))
        }),
{
    let (a, b) = (line_tokens(base), line_tokens(doc));
    let (bl, dl) = (text_lines(base), text_lines(doc));
    let rows = align_rows(bl.len() as int, dl.len() as int, hunks, 0, 0, 0);
    aligned_lefts(a, b, hunks, 0, bl);
    aligned_same(a, b, hunks, 0);
    align_rows_ok(a.len() as int, b.len() as int, hunks, 0, 0, 0);
    assert forall|i: int| 0 <= i < rows.len() && (#[trigger] rows[i]).kind == RowKind::Unchanged
        implies bl[rows[i].left->0 as int] == dl[rows[i].right->0 as int] by {
        assert(row_ok(rows[i], bl.len(), dl.len()));
        assert(a[rows[i].left->0 as int] == b[rows[i].right->0 as int]);
    }
    rows_out_left(rows, blocks, bl, dl, rows.len() as int);
    assert(rows.take(rows.len() as int) =~= rows);
    assert(bl.subrange(0, a.len() as int) =~= bl);
}

/// The rows go down both texts: a later row stands at a later line on each
/// side it shows.
pub open spec fn ordered(rows: Seq<DiffRow>) -> bool {
    forall|j: int, k: int| 0 <= j < k < rows.len() ==> {
        &&& ((#[trigger] rows[j]).left is Some && (#[trigger] rows[k]).left is Some ==> rows[j].left->0 < rows[k].left->0)
        &&& (rows[j].right is Some && rows[k].right is Some ==> rows[j].right->0 < rows[k].right->0)
    }
}

/// The rows show left lines in `l0..l1` and right lines in `r0..r1`.
pub open spec fn spans(rows: Seq<DiffRow>, l0: int, l1: int, r0: int, r1: int) -> bool {
    forall|k: int| 0 <= k < rows.len() ==> {
        &&& ((#[trigger] rows[k]).left is Some ==> l0 <= rows[k].left->0 < l1)
        &&& (rows[k].right is Some ==> r0 <= rows[k].right->0 < r1)
    }
}

proof fn ordered_concat(x: Seq<DiffRow>, y: Seq<DiffRow>, l0: int, l1: int, l2: int, r0: int, r1: int, r2: int)
    requires
        l0 <= l1 <= l2,
        r0 <= r1 <= r2,
        ordered(x),
        ordered(y),
        spans(x, l0, l1, r0, r1),
        spans(y, l1, l2, r1, r2),
    ensures
        ordered(x + y),
        spans(x + y, l0, l2, r0, r2),
{
    let z = x + y;
    assert forall|j: int, k: int| 0 <= j < k < z.len() implies {
        &&& ((#[trigger] z[j]).left is Some && (#[trigger] z[k]).left is Some ==> z[j].left->0 < z[k].left->0)
        &&& (z[j].right is Some && z[k].right is Some ==> z[j].right->0 < z[k].right->0)
    } by {
        if k < x.len() {
            assert(z[j] == x[j] && z[k] == x[k]);
        } else if j >= x.len() {
            assert(z[j] == y[j - x.len()] && z[k] == y[k - x.len()]);
        } else {
            assert(z[j] == x[j] && z[k] == y[k - x.len()]);
        }
    }
    assert forall|k: int| 0 <= k < z.len() implies {
        &&& ((#[trigger] z[k]).left is Some ==> l0 <= z[k].left->0 < l2)
        &&& (z[k].right is Some ==> r0 <= z[k].right->0 < r2)
    } by {
        if k < x.len() {
            assert(z[k] == x[k]);
        } else {
            assert(z[k] == y[k - x.len()]);
        }
    }
}

proof fn paired_ordered(b: int, d: int, m: int, kind: RowKind)
    requires
        0 <= b,
        0 <= d,
        0 <= m,
        b + m <= u32::MAX,
        d + m <= u32::MAX,
    ensures
        ordered(paired(b, d, m, kind)),
        spans(paired(b, d, m, kind), b, b + m, d, d + m),
{
    reveal(paired);
}

proof fn removed_ordered(b: int, m: int, r0: int)
    requires
        0 <= b,
        0 <= m,
        b + m <= u32::MAX,
    ensures
        ordered(removed_rows(b, m)),
        spans(removed_rows(b, m), b, b + m, r0, r0),
{
    reveal(removed_rows);
}

proof fn added_ordered(d: int, m: int, l0: int)
    requires
        0 <= d,
        0 <= m,
        d + m <= u32::MAX,
    ensures
        ordered(added_rows(d, m)),
        spans(added_rows(d, m), l0, l0, d, d + m),
{
    reveal(added_rows);
}

/// The rows of one hunk after a kept stretch go down both texts, from the
/// stretch's start to the hunk's end.
proof fn hunk_ordered(nb: int, nd: int, hk: Hunk, bb: int, dd: int)
    requires
        0 <= bb <= hk.0.0 <= hk.0.1 <= nb <= u32::MAX,
        0 <= dd <= hk.1.0 <= hk.1.1 <= nd <= u32::MAX,
        hk.0.0 - bb == hk.1.0 - dd,
    ensures
        ordered(hunk_rows(nb, nd, hk, bb, dd).0),
        spans(hunk_rows(nb, nd, hk, bb, dd).0, bb, hk.0.1 as int, dd, hk.1.1 as int),
{
    let (bs, be, as_, ae) = (hk.0.0 as int, hk.0.1 as int, hk.1.0 as int, hk.1.1 as int);
    let common = least(be - bs, ae - as_);
    let (m1, m2, m3, m4) = hunk_runs(nb, nd, hk, bb, dd);
    assert(m1 == bs - bb);
    assert(m2 == common);
    assert(m3 == be - bs - common);
    assert(m4 == ae - as_ - common);
    let p1 = paired(bb, dd, m1, RowKind::Unchanged);
    let p2 = paired(bs, as_, m2, RowKind::Changed);
    let p3 = removed_rows(bs + common, m3);
    let p4 = added_rows(as_ + common, m4);
    paired_ordered(bb, dd, m1, RowKind::Unchanged);
    paired_ordered(bs, as_, m2, RowKind::Changed);
    removed_ordered(bs + common, m3, as_ + common);
    added_ordered(as_ + common, m4, be);
    ordered_concat(p1, p2, bb, bs, bs + common, dd, as_, as_ + common);
    ordered_concat(p1 + p2, p3, bb, bs + common, be, dd, as_ + common, as_ + common);
    ordered_concat(p1 + p2 + p3, p4, bb, be, be, dd, as_ + common, ae);
}

/// Laid out from hunk `h` on, the rows go down both texts from where that
/// hunk's kept stretch begins.
#[verifier::rlimit(60)]
proof fn aligned_ordered(a: Seq<Seq<char>>, b: Seq<Seq<char>>, hs: Seq<Hunk>, h: int)
    requires
        hunks_follow(hs, a, b),
        0 <= h <= hs.len(),
        a.len() <= u32::MAX,
        b.len() <= u32::MAX,
    ensures
        ordered(align_rows(a.len() as int, b.len() as int, hs, h, gap_start(hs, h).0, gap_start(hs, h).1)),
        spans(align_rows(a.len() as int, b.len() as int, hs, h, gap_start(hs, h).0, gap_start(hs, h).1),
            gap_start(hs, h).0, a.len() as int, gap_start(hs, h).1, b.len() as int),
    decreases hs.len() - h,
{
    let (nb, nd) = (a.len() as int, b.len() as int);
    let (bb, dd) = gap_start(hs, h);
    if h > 0 {
        let prev = hs[h - 1];
        assert(prev.0.1 <= a.len() && prev.1.1 <= b.len());
    }
    if h == hs.len() {
        paired_ordered(bb, dd, nb - bb, RowKind::Unchanged);
    } else {
        let hk = hs[h];
        assert(bb <= hk.0.0 <= hk.0.1 <= a.len() && dd <= hk.1.0 <= hk.1.1 <= b.len() && hk.0.0 - bb == hk.1.0 - dd);
        hunk_ordered(nb, nd, hk, bb, dd);
        assert(gap_start(hs, h + 1) == (hk.0.1 as int, hk.1.1 as int));
        aligned_ordered(a, b, hs, h + 1);
        let rest = align_rows(nb, nd, hs, h + 1, hk.0.1 as int, hk.1.1 as int);
        ordered_concat(hunk_rows(nb, nd, hk, bb, dd).0, rest, bb, hk.0.1 as int, nb, dd, hk.1.1 as int, nd);
    }
}

/// Every line a match map records stands on an unchanged row of the rows it
/// was read off.
proof fn matches_from_rows(rows: Seq<DiffRow>, n: nat, r: int)
    requires
        0 <= r <= rows.len(),
    ensures
        matches_upto(rows, n, r).len() == n,
        forall|i: int| 0 <= i < n && (#[trigger] matches_upto(rows, n, r)[i]) is Some ==> exists|k: int|
            0 <= k < r && (#[trigger] rows[k]).kind == RowKind::Unchanged && rows[k].left == Some(i as usize)
                && rows[k].right == matches_upto(rows, n, r)[i],
    decreases r,
{
    if r > 0 {
        matches_from_rows(rows, n, r - 1);
        let m = matches_upto(rows, n, r - 1);
        let cur = matches_upto(rows, n, r);
        assert forall|i: int| 0 <= i < n && (#[trigger] matches_upto(rows, n, r)[i]) is Some implies exists|k: int|
            0 <= k < r && (#[trigger] rows[k]).kind == RowKind::Unchanged && rows[k].left == Some(i as usize)
                && rows[k].right == matches_upto(rows, n, r)[i] by {
            let row = rows[r - 1];
            if row.kind == RowKind::Unchanged && row.right is Some && (row.left matches Some(l) && l < n) && i == row.left->0 {
                assert(rows[r - 1].left == Some(i as usize));
            } else {
                assert(cur[i] == m[i]);
                let k = choose|k: int| 0 <= k < r - 1 && (#[trigger] rows[k]).kind == RowKind::Unchanged
                    && rows[k].left == Some(i as usize) && rows[k].right == m[i];
                assert(rows[k].left == Some(i as usize));
            }
        }
    }
}

/// A match map read off rows that go down both texts goes down them too.
proof fn match_map_ordered(rows: Seq<DiffRow>, n: nat)
    requires
        ordered(rows),
        n <= u32::MAX,
    ensures
        forall|i: int, j: int| 0 <= i < j < n && (#[trigger] match_map(rows, n)[i]) is Some && (#[trigger] match_map(rows, n)[j]) is Some
            ==> match_map(rows, n)[i]->0 < match_map(rows, n)[j]->0,
{
    matches_from_rows(rows, n, rows.len() as int);
    let m = match_map(rows, n);
    assert forall|i: int, j: int| 0 <= i < j < n && (#[trigger] match_map(rows, n)[i]) is Some && (#[trigger] match_map(rows, n)[j]) is Some
        implies match_map(rows, n)[i]->0 < match_map(rows, n)[j]->0 by {
        let k1 = choose|k: int| 0 <= k < rows.len() && (#[trigger] rows[k]).kind == RowKind::Unchanged && rows[k].left == Some(i as usize)
            && rows[k].right == m[i];
        let k2 = choose|k: int| 0 <= k < rows.len() && (#[trigger] rows[k]).kind == RowKind::Unchanged && rows[k].left == Some(j as usize)
            && rows[k].right == m[j];
        if k2 < k1 {
            assert(rows[k2].left->0 < rows[k1].left->0);
        }
        assert(k1 != k2);
    }
}

/// Rows pairing every line with itself match every line with itself.
proof fn matches_itself(n: nat, r: int)
    requires
        0 <= r <= n <= u32::MAX,
    ensures
        forall|i: int| 0 <= i < n ==> #[trigger] matches_upto(paired(0, 0, n as int, RowKind::Unchanged), n, r)[i]
            == (if i < r { Some(i as usize) } else { None }),
    decreases r,
{
    reveal(paired);
    let rows = paired(0, 0, n as int, RowKind::Unchanged);
    if r > 0 {
        matches_itself(n, r - 1);
        matches_from_rows(rows, n, r - 1);
        assert(rows[r - 1] == DiffRow { left: Some((r - 1) as usize), right: Some((r - 1) as usize), kind: RowKind::Unchanged });
        let m = matches_upto(rows, n, r - 1);
        assert(matches_upto(rows, n, r) == m.update(r - 1, Some((r - 1) as usize)));
        assert forall|i: int| 0 <= i < n implies #[trigger] matches_upto(rows, n, r)[i]
            == (if i < r { Some(i as usize) } else { None }) by {
            assert(m[i] == (if i < r - 1 { Some(i as usize) } else { None }));
        }
    } else {
        assert forall|i: int| 0 <= i < n implies #[trigger] matches_upto(rows, n, r)[i]
            == (if i < r { Some(i as usize) } else { None }) by {
            matches_from_rows(rows, n, 0);
        }
    }
}

/// Where a stable run ends when theirs leaves every base line standing where
/// it was: ours goes on in step, and each base line of the run stands as the
/// matching line of ours.
proof fn stable_run_theirs(om: Seq<Option<usize>>, tm: Seq<Option<usize>>, n: int, cb: int, co: int)
    requires
        0 <= cb < n == om.len() == tm.len(),
        forall|i: int| 0 <= i < n ==> (#[trigger] tm[i]) is Some && tm[i]->0 == i,
        om[cb] is Some && om[cb]->0 == co,
    ensures
        ({
            let (e, eo, et) = stable_end(om, tm, n, cb, co, cb);
            &&& cb < e <= n
            &&& et == e
            &&& eo == co + (e - cb)
            &&& forall|j: int| cb <= j < e ==> (#[trigger] om[j]) is Some && om[j]->0 == co + j - cb
        }),
    decreases n - cb,
{
    if cb + 1 < n && (om[cb + 1] matches Some(x) && x == co + 1) && (tm[cb + 1] matches Some(y) && y == cb + 1) {
        stable_run_theirs(om, tm, n, cb + 1, co + 1);
    }

}

/// Where a stable run ends when ours leaves every base line standing where
/// it was.
proof fn stable_run_ours(om: Seq<Option<usize>>, tm: Seq<Option<usize>>, n: int, cb: int, ct: int)
    requires
        0 <= cb < n == om.len() == tm.len(),
        forall|i: int| 0 <= i < n ==> (#[trigger] om[i]) is Some && om[i]->0 == i,
        tm[cb] is Some && tm[cb]->0 == ct,
    ensures
        ({
            let (e, eo, et) = stable_end(om, tm, n, cb, cb, ct);
            &&& cb < e <= n
            &&& eo == e
            &&& et == ct + (e - cb)
            &&& forall|j: int| cb <= j < e ==> (#[trigger] tm[j]) is Some && tm[j]->0 == ct + j - cb
        }),
    decreases n - cb,
{
    if cb + 1 < n && (om[cb + 1] matches Some(x) && x == cb + 1) && (tm[cb + 1] matches Some(y) && y == ct + 1) {
        stable_run_ours(om, tm, n, cb + 1, ct + 1);
    }

}

/// Ours's matches go down ours, each base line standing as the line of ours
/// it is matched to.
pub open spec fn matches_ok(om: Seq<Option<usize>>, base: Seq<Seq<char>>, ours: Seq<Seq<char>>) -> bool {
    &&& om.len() == base.len()
    &&& forall|i: int| 0 <= i < om.len() && (#[trigger] om[i]) is Some ==> om[i]->0 < ours.len() && base[i] == ours[om[i]->0 as int]
    &&& forall|i: int, j: int| 0 <= i < j < om.len() && (#[trigger] om[i]) is Some && (#[trigger] om[j]) is Some ==> om[i]->0 < om[j]->0
}

/// The walk of a three-way merge whose theirs is the base, every base line
/// matched to itself: every region takes ours, so the pending context grows
/// into the whole of ours and ends as its one context segment.
proof fn walk_theirs_kept(base: Seq<Seq<char>>, ours: Seq<Seq<char>>, om: Seq<Option<usize>>, tm: Seq<Option<usize>>, bi: int, b: int, o: int)
    requires
        matches_ok(om, base, ours),
        tm.len() == base.len(),
        forall|i: int| 0 <= i < base.len() ==> (#[trigger] tm[i]) is Some && tm[i]->0 == i,
        0 <= b <= bi,
        b <= base.len(),
        0 <= o <= ours.len(),
        forall|j: int| bi <= j < base.len() && (#[trigger] om[j]) is Some ==> om[j]->0 >= o,
    ensures
        merge_walk(base, ours, base, om, tm, bi, b, o, b, Seq::empty(), ours.subrange(0, o)) == flushed(ours),
    decreases base.len() - bi,
{
    let ctx = ours.subrange(0, o);
    if bi >= base.len() {
        assert(ctx + between(ours, o, ours.len() as int) =~= ours);
        let (s2, c2) = resolved(Seq::empty(), ctx, between(ours, o, ours.len() as int), between(base, b, base.len() as int),
            between(base, b, base.len() as int));
        assert(c2 == ctx + between(ours, o, ours.len() as int));
        assert(s2 + flushed(c2) =~= flushed(ours));
    } else if om[bi] is Some && tm[bi] is Some {
        let oi = om[bi]->0 as int;
        assert(tm[bi]->0 == bi);
        let (s2, c2) = resolved(Seq::empty(), ctx, between(ours, o, oi), between(base, b, bi), between(base, b, bi));
        assert(c2 == ctx + between(ours, o, oi));
        assert(c2 =~= ours.subrange(0, oi));
        stable_run_theirs(om, tm, base.len() as int, bi, oi);
        let (cb, co, ct) = stable_end(om, tm, base.len() as int, bi, oi, bi);
        assert(om[cb - 1] is Some && om[cb - 1]->0 == oi + cb - 1 - bi);
        assert(co - 1 < ours.len());
        assert(base.subrange(bi, cb) =~= ours.subrange(oi, co)) by {
            assert forall|j: int| 0 <= j < cb - bi implies base.subrange(bi, cb)[j] == ours.subrange(oi, co)[j] by {
                assert(om[bi + j] is Some && om[bi + j]->0 == oi + j);
            }
        }
        assert(c2 + base.subrange(bi, cb) =~= ours.subrange(0, co));
        assert forall|j: int| cb <= j < base.len() && (#[trigger] om[j]) is Some implies om[j]->0 >= co by {
            assert(om[cb - 1] is Some);
        }
        walk_theirs_kept(base, ours, om, tm, cb, cb, co);
        assert(merge_walk(base, ours, base, om, tm, bi, b, o, b, Seq::empty(), ctx)
            == merge_walk(base, ours, base, om, tm, cb, cb, co, ct, s2, c2 + base.subrange(bi, cb)));
    } else {
        walk_theirs_kept(base, ours, om, tm, bi + 1, b, o);
    }
}

/// The walk of a three-way merge whose ours is the base, every base line
/// matched to itself: every region takes theirs, so the pending context
/// grows into the whole of theirs and ends as its one context segment.
proof fn walk_ours_kept(base: Seq<Seq<char>>, theirs: Seq<Seq<char>>, om: Seq<Option<usize>>, tm: Seq<Option<usize>>, bi: int, b: int, t: int)
    requires
        matches_ok(tm, base, theirs),
        om.len() == base.len(),
        forall|i: int| 0 <= i < base.len() ==> (#[trigger] om[i]) is Some && om[i]->0 == i,
        0 <= b <= bi,
        b <= base.len(),
        0 <= t <= theirs.len(),
        forall|j: int| bi <= j < base.len() && (#[trigger] tm[j]) is Some ==> tm[j]->0 >= t,
    ensures
        merge_walk(base, base, theirs, om, tm, bi, b, b, t, Seq::empty(), theirs.subrange(0, t)) == flushed(theirs),
    decreases base.len() - bi,
{
    let ctx = theirs.subrange(0, t);
    if bi >= base.len() {
        assert(ctx + between(theirs, t, theirs.len() as int) =~= theirs);
        let (s2, c2) = resolved(Seq::empty(), ctx, between(base, b, base.len() as int), between(base, b, base.len() as int),
            between(theirs, t, theirs.len() as int));
        assert(c2 == ctx + between(theirs, t, theirs.len() as int));
        assert(s2 + flushed(c2) =~= flushed(theirs));
    } else if om[bi] is Some && tm[bi] is Some {
        let ti = tm[bi]->0 as int;
        assert(om[bi]->0 == bi);
        let (s2, c2) = resolved(Seq::empty(), ctx, between(base, b, bi), between(base, b, bi), between(theirs, t, ti));
        assert(c2 == ctx + between(theirs, t, ti));
        assert(c2 =~= theirs.subrange(0, ti));
        stable_run_ours(om, tm, base.len() as int, bi, ti);
        let (cb, co, ct) = stable_end(om, tm, base.len() as int, bi, bi, ti);
        assert(tm[cb - 1] is Some && tm[cb - 1]->0 == ti + cb - 1 - bi);
        assert(ct - 1 < theirs.len());
        assert(base.subrange(bi, cb) =~= theirs.subrange(ti, ct)) by {
            assert forall|j: int| 0 <= j < cb - bi implies base.subrange(bi, cb)[j] == theirs.subrange(ti, ct)[j] by {
                assert(tm[bi + j] is Some && tm[bi + j]->0 == ti + j);
            }
        }
        assert(c2 + base.subrange(bi, cb) =~= theirs.subrange(0, ct));
        assert forall|j: int| cb <= j < base.len() && (#[trigger] tm[j]) is Some implies tm[j]->0 >= ct by {
            assert(tm[cb - 1] is Some);
        }
        walk_ours_kept(base, theirs, om, tm, cb, cb, ct);
        assert(merge_walk(base, base, theirs, om, tm, bi, b, b, t, Seq::empty(), ctx)
            == merge_walk(base, base, theirs, om, tm, cb, cb, co, ct, s2, c2 + base.subrange(bi, cb)));
    } else {
        walk_ours_kept(base, theirs, om, tm, bi + 1, b, t);
    }
}


/// The match map of a base text against another, read off their aligned
/// rows, is a matching of the two texts' lines: in order, and each base
/// line standing as the line it is matched to.
proof fn match_map_ok(base: Seq<char>, other: Seq<char>)
    requires
        hunks_follow(computed_hunks(false, line_tokens(base), line_tokens(other)), line_tokens(base), line_tokens(other)),
        line_tokens(base).len() <= u32::MAX,
        line_tokens(other).len() <= u32::MAX,
    ensures
        matches_ok(match_map(aligned(base, other), text_lines(base).len()), text_lines(base), text_lines(other)),
{
    let (a, b) = (line_tokens(base), line_tokens(other));
    let (bl, ol) = (text_lines(base), text_lines(other));
    let hs = computed_hunks(false, a, b);
    let n = bl.len();
    let rows = aligned(base, other);
    assert(gap_start(hs, 0) == (0int, 0int));
    aligned_ordered(a, b, hs, 0);
    aligned_same(a, b, hs, 0);
    align_rows_ok(a.len() as int, b.len() as int, hs, 0, 0, 0);
    matches_from_rows(rows, n, rows.len() as int);
    match_map_ordered(rows, n);
    let m = match_map(rows, n);
    assert forall|i: int| 0 <= i < m.len() && (#[trigger] m[i]) is Some implies m[i]->0 < ol.len() && bl[i] == ol[m[i]->0 as int] by {
        let k = choose|k: int| 0 <= k < rows.len() && (#[trigger] rows[k]).kind == RowKind::Unchanged && rows[k].left == Some(i as usize)
            && rows[k].right == m[i];
        assert(row_ok(rows[k], bl.len(), ol.len()));
        assert(a[i] == b[m[i]->0 as int]);
    }
}

/// A text diffed with itself without hunks matches every line with itself.
proof fn match_map_itself(base: Seq<char>)
    requires
        computed_hunks(false, line_tokens(base), line_tokens(base)).len() == 0,
        line_tokens(base).len() <= u32::MAX,
    ensures
        forall|i: int| 0 <= i < text_lines(base).len() ==> #[trigger] match_map(aligned(base, base), text_lines(base).len())[i]
            == Some(i as usize),
{
    let n = text_lines(base).len();
    let rows = aligned(base, base);
    assert(rows == paired(0, 0, n as int, RowKind::Unchanged));
    reveal(paired);
    assert(rows.len() == n);
    matches_itself(n, n as int);
}


/// A three-way merge whose theirs is the base itself, each base line matched
/// to itself, takes ours whole: for any matching of the base into ours, the
/// walk ends in one context segment holding all of ours (none when ours is
/// empty), and never in a conflict.
pub proof fn an_unchanged_theirs_merges_ours_whole(base: Seq<Seq<char>>, ours: Seq<Seq<char>>, om: Seq<Option<usize>>, tm: Seq<Option<usize>>)
    requires
        matches_ok(om, base, ours),
        tm.len() == base.len(),
        forall|i: int| 0 <= i < base.len() ==> (#[trigger] tm[i]) is Some && tm[i]->0 == i,
    ensures
        merge_walk(base, ours, base, om, tm, 0, 0, 0, 0, Seq::empty(), Seq::empty()) == flushed(ours),
{
    assert(ours.subrange(0, 0) =~= Seq::<Seq<char>>::empty());
    walk_theirs_kept(base, ours, om, tm, 0, 0, 0);
}

/// A three-way merge whose ours is the base itself, each base line matched
/// to itself, takes theirs whole.
pub proof fn an_unchanged_ours_merges_theirs_whole(base: Seq<Seq<char>>, theirs: Seq<Seq<char>>, om: Seq<Option<usize>>, tm: Seq<Option<usize>>)
    requires
        matches_ok(tm, base, theirs),
        om.len() == base.len(),
        forall|i: int| 0 <= i < base.len() ==> (#[trigger] om[i]) is Some && om[i]->0 == i,
    ensures
        merge_walk(base, base, theirs, om, tm, 0, 0, 0, 0, Seq::empty(), Seq::empty()) == flushed(theirs),
{
    assert(theirs.subrange(0, 0) =~= Seq::<Seq<char>>::empty());
    walk_ours_kept(base, theirs, om, tm, 0, 0, 0);
}

} // verus!
