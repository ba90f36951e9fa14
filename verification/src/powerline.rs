//! The vim-airline powerline status bar: what each pill says and where the
//! pills fall on the row. The left cluster runs from the left edge, each pill
//! followed by a separator; the right cluster is laid from the right edge
//! leftwards and stops before it would collide with the left one.

use vstd::prelude::*;
use vstd::string::StrSliceExecFns;
use vstd::string::StringExecFns;

use crate::merge::least;
use crate::text::{decimal, decimal_string};

verus! {

/// Everything the bar draws, snapshotted once per frame.
pub struct Status {
    /// 0 Normal, 1 Select/Visual, 2 Insert.
    pub mode: u8,
    pub modified: bool,
    pub branch: String,
    pub path: String,
    /// 1-based slot of the current file among the project's harpoon marks.
    pub harpoon_slot: Option<usize>,
    pub harpoon_total: usize,
    pub carets: usize,
    /// Total selected chars across all ranges.
    pub sel: usize,
    /// Lines touched by the non-empty ranges.
    pub sel_lines: usize,
    pub lang: String,
    pub encoding: String,
    /// Scroll position through the buffer, 0..=100.
    pub pct: u16,
    /// 1-based (line, column) of the primary cursor.
    pub lncol: (usize, usize),
}

impl Default for Status {
    fn default() -> (st: Self)
        ensures
            st.mode == 0 && !st.modified && st.branch@.len() == 0 && st.path@.len() == 0,
            st.harpoon_slot is None && st.harpoon_total == 0 && st.carets == 0,
            st.sel == 0 && st.sel_lines == 0 && st.lang@.len() == 0 && st.encoding@.len() == 0,
            st.pct == 0 && st.lncol == (0usize, 0usize),
    {
        Status {
            mode: 0,
            modified: false,
            branch: String::new(),
            path: String::new(),
            harpoon_slot: None,
            harpoon_total: 0,
            carets: 0,
            sel: 0,
            sel_lines: 0,
            lang: String::new(),
            encoding: String::new(),
            pct: 0,
            lncol: (0, 0),
        }
    }
}

/// The colour a pill takes from the theme.
#[derive(Clone, Copy, PartialEq, Eq, Debug, Structural)]
pub enum Tone {
    /// The mode's own colour, bold.
    Mode,
    /// The warning colour on the mode's text colour, bold.
    Warn,
    /// The statusline colour.
    Gray,
    /// The inactive statusline colour.
    Dark,
}

/// A number written in decimal, as a spec sequence.
pub open spec fn dec(n: int) -> Seq<char> {
    decimal(n as nat)
}

/// The cursor coordinates the position pill shows: `line:column` with both
/// modes on, the line alone, `:column` alone, or nothing.
pub open spec fn coords(ln: int, co: int, line_mode: bool, col_mode: bool) -> Option<Seq<char>> {
    if line_mode && col_mode {
        Some(dec(ln) + seq![':'] + dec(co))
    } else if line_mode {
        Some(dec(ln))
    } else if col_mode {
        Some(seq![':'] + dec(co))
    } else {
        None
    }
}

/// The position pill, honouring Emacs's `line-number-mode` and
/// `column-number-mode`: the scroll percentage goes with the line mode, the
/// glyph and the coordinates with either, and with both off there is no pill.
pub open spec fn position_text(pct: int, ln: int, co: int, glyph: Seq<char>, line_mode: bool, col_mode: bool) -> Option<Seq<char>> {
    match coords(ln, co, line_mode, col_mode) {
        Some(c) => if line_mode {
            Some(seq![' '] + dec(pct) + seq!['%', ' ', ' '] + glyph + seq![' '] + c + seq![' '])
        } else {
            Some(seq![' '] + glyph + seq![' '] + c + seq![' '])
        },
        None => if line_mode { Some(seq![' '] + dec(pct) + seq!['%', ' ']) } else { None },
    }
}

/// `n` in decimal.
fn num(n: usize) -> (r: String)
    ensures
        r@ == dec(n as int),
{
    decimal_string(n as u64)
}

/// The position pill for `st`, `ln_glyph` being the caller's line-number
/// glyph.
pub fn position_segment(st: &Status, ln_glyph: &str, line_number_mode: bool, column_number_mode: bool) -> (r: Option<String>)
    ensures
        match r {
            Some(s) => position_text(st.pct as int, st.lncol.0 as int, st.lncol.1 as int, ln_glyph@, line_number_mode, column_number_mode)
                == Some(s@),
            None => position_text(st.pct as int, st.lncol.0 as int, st.lncol.1 as int, ln_glyph@, line_number_mode, column_number_mode)
                is None,
        },
{
    proof {
        reveal_strlit(":");
        reveal_strlit(" ");
        reveal_strlit("%  ");
        reveal_strlit("% ");
    }
    let (ln, co) = st.lncol;
    let c: Option<String> = if line_number_mode && column_number_mode {
        let mut s = num(ln);
        s.append(":");
        s.append(num(co).as_str());
        Some(s)
    } else if line_number_mode {
        Some(num(ln))
    } else if column_number_mode {
        let mut s = String::from_str(":");
        s.append(num(co).as_str());
        Some(s)
    } else {
        None
    };
    match c {
        Some(c) => {
            let mut s = String::from_str(" ");
            if line_number_mode {
                s.append(num(st.pct as usize).as_str());
                s.append("%  ");
            }
            s.append(ln_glyph);
            s.append(" ");
            s.append(c.as_str());
            s.append(" ");
            assert(position_text(st.pct as int, st.lncol.0 as int, st.lncol.1 as int, ln_glyph@, line_number_mode, column_number_mode)
                =~= Some(s@)) by {
                let cc = coords(ln as int, co as int, line_number_mode, column_number_mode);
                assert(cc == Some(c@));
            }
            Some(s)
        },
        None => {
            if line_number_mode {
                let mut s = String::from_str(" ");
                s.append(num(st.pct as usize).as_str());
                s.append("% ");
                Some(s)
            } else {
                None
            }
        },
    }
}

/// The mode pill's label.
pub open spec fn mode_label(mode: u8) -> Seq<char> {
    if mode == 2 {
        seq!['I', 'N', 'S', 'E', 'R', 'T']
    } else if mode == 1 {
        seq!['V', 'I', 'S', 'U', 'A', 'L']
    } else {
        seq!['N', 'O', 'R', 'M', 'A', 'L']
    }
}

/// A pill, when `on`.
pub open spec fn pill_if(on: bool, text: Seq<char>, tone: Tone) -> Seq<(Seq<char>, Tone)> {
    if on { seq![(text, tone)] } else { Seq::empty() }
}

/// Text padded with a space on either side.
pub open spec fn padded(t: Seq<char>) -> Seq<char> {
    seq![' '] + t + seq![' ']
}

/// The left cluster, in order: the mode, the modified flag, the git branch
/// behind its glyph, and the path; empty texts give no pill.
pub open spec fn left_pills(st: Status) -> Seq<(Seq<char>, Tone)> {
    seq![(padded(mode_label(st.mode)), Tone::Mode)]
        + pill_if(st.modified, seq![' ', '+', ' '], Tone::Warn)
        + pill_if(st.branch@.len() > 0, padded(seq!['\u{e0a0}', ' '] + st.branch@), Tone::Gray)
        + pill_if(st.path@.len() > 0, padded(st.path@), Tone::Dark)
}

/// The harpoon pill's text: the file's slot out of the total when the file
/// is marked, else the total.
pub open spec fn harpoon_text(st: Status) -> Seq<char> {
    match st.harpoon_slot {
        Some(n) => padded(seq!['\u{2693}', ' '] + dec(n as int) + seq!['/'] + dec(st.harpoon_total as int)),
        None => padded(seq!['\u{2693}', ' '] + dec(st.harpoon_total as int)),
    }
}

/// The selection pill: the caret count when there are several carets, else
/// in select mode with something selected the lines (at least one) and
/// characters selected, else nothing.
pub open spec fn stats_pill(st: Status) -> Seq<(Seq<char>, Tone)> {
    if st.carets > 1 {
        seq![(padded(dec(st.carets as int) + seq![' ', '\u{2336}']), Tone::Warn)]
    } else if st.mode == 1 && st.sel > 0 {
        let lines = if st.sel_lines > 1 { st.sel_lines as int } else { 1int };
        seq![(padded(dec(lines) + seq!['L', ' '] + dec(st.sel as int) + seq![' ', 's', 'e', 'l']), Tone::Warn)]
    } else {
        Seq::empty()
    }
}

/// The right cluster in display order: harpoon marks, selection stats,
/// language, encoding and the position pill; empty ones give no pill.
pub open spec fn right_pills(st: Status, line_mode: bool, col_mode: bool) -> Seq<(Seq<char>, Tone)> {
    let pos = position_text(st.pct as int, st.lncol.0 as int, st.lncol.1 as int, seq!['\u{e0a1}'], line_mode, col_mode);
    pill_if(st.harpoon_total > 0, harpoon_text(st), Tone::Gray) + stats_pill(st)
        + pill_if(st.lang@.len() > 0, padded(st.lang@), Tone::Dark)
        + pill_if(st.encoding@.len() > 0, padded(st.encoding@), Tone::Gray)
        + pill_if(pos is Some, pos.unwrap_or(Seq::empty()), Tone::Mode)
}

/// The pills by their texts' views.
pub open spec fn pill_views(v: Seq<(String, Tone)>) -> Seq<(Seq<char>, Tone)> {
    v.map_values(|p: (String, Tone)| (p.0@, p.1))
}

/// Append a pill.
fn push_pill(out: &mut Vec<(String, Tone)>, text: String, tone: Tone)
    ensures
        pill_views(final(out)@) == pill_views(old(out)@).push((text@, tone)),
{
    out.push((text, tone));
    assert(pill_views(out@) =~= pill_views(old(out)@).push((text@, tone)));
}

/// `t` with a space on either side.
fn pad(t: &str) -> (r: String)
    ensures
        r@ == padded(t@),
{
    proof {
        reveal_strlit(" ");
    }
    let mut s = String::from_str(" ");
    s.append(t);
    s.append(" ");
    s
}

/// The left cluster's pills.
pub fn left_segments(st: &Status) -> (pills: Vec<(String, Tone)>)
    ensures
        pill_views(pills@) == left_pills(*st),
{
    proof {
        reveal_strlit("INSERT");
        reveal_strlit("VISUAL");
        reveal_strlit("NORMAL");
        reveal_strlit(" + ");
        reveal_strlit("\u{e0a0} ");
    }
    let mut pills: Vec<(String, Tone)> = Vec::new();
    let label = if st.mode == 2 { "INSERT" } else if st.mode == 1 { "VISUAL" } else { "NORMAL" };
    assert(label@ =~= mode_label(st.mode));
    assert(pill_views(pills@) =~= Seq::<(Seq<char>, Tone)>::empty());
    push_pill(&mut pills, pad(label), Tone::Mode);
    let ghost p1 = pill_views(pills@);
    assert(p1 =~= seq![(padded(mode_label(st.mode)), Tone::Mode)]);
    if st.modified {
        let t = String::from_str(" + ");
        assert(t@ =~= seq![' ', '+', ' ']);
        push_pill(&mut pills, t, Tone::Warn);
    }
    let ghost p2 = pill_views(pills@);
    assert(p2 =~= p1 + pill_if(st.modified, seq![' ', '+', ' '], Tone::Warn));
    if st.branch.as_str().unicode_len() > 0 {
        let mut b = String::from_str("\u{e0a0} ");
        b.append(st.branch.as_str());
        let t = pad(b.as_str());
        assert(t@ =~= padded(seq!['\u{e0a0}', ' '] + st.branch@));
        push_pill(&mut pills, t, Tone::Gray);
    }
    let ghost p3 = pill_views(pills@);
    assert(p3 =~= p2 + pill_if(st.branch@.len() > 0, padded(seq!['\u{e0a0}', ' '] + st.branch@), Tone::Gray));
    if st.path.as_str().unicode_len() > 0 {
        push_pill(&mut pills, pad(st.path.as_str()), Tone::Dark);
    }
    assert(pill_views(pills@) =~= p3 + pill_if(st.path@.len() > 0, padded(st.path@), Tone::Dark));
    pills
}

/// The right cluster's pills in display order, with Emacs's line and column
/// number modes deciding the position pill.
pub fn right_segments(st: &Status, line_number_mode: bool, column_number_mode: bool) -> (pills: Vec<(String, Tone)>)
    ensures
        pill_views(pills@) == right_pills(*st, line_number_mode, column_number_mode),
{
    proof {
        reveal_strlit("\u{2693} ");
        reveal_strlit("/");
        reveal_strlit(" \u{2336}");
        reveal_strlit("L ");
        reveal_strlit(" sel");
        reveal_strlit("\u{e0a1}");
    }
    let mut pills: Vec<(String, Tone)> = Vec::new();
    assert(pill_views(pills@) =~= Seq::<(Seq<char>, Tone)>::empty());
    if st.harpoon_total > 0 {
        let mut t = String::from_str("\u{2693} ");
        match st.harpoon_slot {
            Some(n) => {
                t.append(num(n).as_str());
                t.append("/");
                t.append(num(st.harpoon_total).as_str());
            },
            None => {
                t.append(num(st.harpoon_total).as_str());
            },
        }
        let p = pad(t.as_str());
        assert(p@ =~= harpoon_text(*st));
        push_pill(&mut pills, p, Tone::Gray);
    }
    let ghost p1 = pill_views(pills@);
    assert(p1 =~= pill_if(st.harpoon_total > 0, harpoon_text(*st), Tone::Gray));
    if st.carets > 1 {
        let mut t = num(st.carets);
        t.append(" \u{2336}");
        let p = pad(t.as_str());
        assert(p@ =~= padded(dec(st.carets as int) + seq![' ', '\u{2336}']));
        push_pill(&mut pills, p, Tone::Warn);
    } else if st.mode == 1 && st.sel > 0 {
        let lines = if st.sel_lines > 1 { st.sel_lines } else { 1 };
        let mut t = num(lines);
        t.append("L ");
        t.append(num(st.sel).as_str());
        t.append(" sel");
        let p = pad(t.as_str());
        assert(p@ =~= padded(dec(lines as int) + seq!['L', ' '] + dec(st.sel as int) + seq![' ', 's', 'e', 'l']));
        push_pill(&mut pills, p, Tone::Warn);
    }
    let ghost p2 = pill_views(pills@);
    assert(p2 =~= p1 + stats_pill(*st));
    if st.lang.as_str().unicode_len() > 0 {
        push_pill(&mut pills, pad(st.lang.as_str()), Tone::Dark);
    }
    let ghost p3 = pill_views(pills@);
    assert(p3 =~= p2 + pill_if(st.lang@.len() > 0, padded(st.lang@), Tone::Dark));
    if st.encoding.as_str().unicode_len() > 0 {
        push_pill(&mut pills, pad(st.encoding.as_str()), Tone::Gray);
    }
    let ghost p4 = pill_views(pills@);
    assert(p4 =~= p3 + pill_if(st.encoding@.len() > 0, padded(st.encoding@), Tone::Gray));
    let glyph = "\u{e0a1}";
    assert(glyph@ =~= seq!['\u{e0a1}']);
    let pos = position_segment(st, glyph, line_number_mode, column_number_mode);
    match pos {
        Some(t) => push_pill(&mut pills, t, Tone::Mode),
        None => {},
    }
    let ghost posv = position_text(st.pct as int, st.lncol.0 as int, st.lncol.1 as int, seq!['\u{e0a1}'], line_number_mode, column_number_mode);
    assert(pill_views(pills@) =~= p4 + pill_if(posv is Some, posv.unwrap_or(Seq::empty()), Tone::Mode));
    pills
}

/// Where a pill is drawn: its first column and how many columns it gets,
/// and whether a separator follows it (a left pill's at its right end, a
/// right pill's just before it).
#[derive(Clone, Copy, PartialEq, Eq, Debug, Structural)]
pub struct Placed {
    pub x: u16,
    pub width: u16,
    pub sep: bool,
}

/// A placement in plain numbers.
pub open spec fn placed(x: int, w: int, sep: bool) -> Placed {
    Placed { x: x as u16, width: w as u16, sep }
}

/// The left cluster laid from column `x` on, pill `i` onwards, the row ending
/// before `edge`: each pill gets its width (cut at the edge) and, when room is
/// left, a separator column after it; the last column used is returned too.
pub open spec fn left_layout(ws: Seq<u16>, i: int, x: int, edge: int) -> (Seq<Placed>, int)
    decreases ws.len() - i,
{
    if i < 0 || i >= ws.len() || x >= edge {
        (Seq::empty(), x)
    } else {
        let w = least(ws[i] as int, edge - x);
        let x1 = x + w;
        if x1 >= edge {
            (seq![placed(x, w, false)], x1)
        } else {
            let (rest, xe) = left_layout(ws, i + 1, x1 + 1, edge);
            (seq![placed(x, w, true)] + rest, xe)
        }
    }
}

/// The right cluster laid leftwards from pill `i` down, ending just before
/// column `rx`: a pill that would reach the left cluster's end `x` stops the
/// cluster; otherwise it is drawn whole, with a separator before it when
/// there is room.
pub open spec fn right_layout(ws: Seq<u16>, i: int, rx: int, x: int) -> Seq<Placed>
    decreases i + 1,
{
    if i < 0 || i >= ws.len() {
        Seq::empty()
    } else {
        let w = ws[i] as int;
        if rx <= x + w {
            Seq::empty()
        } else {
            let r1 = rx - w;
            if r1 <= x {
                seq![placed(r1, w, false)]
            } else {
                seq![placed(r1, w, true)] + right_layout(ws, i - 1, r1 - 1, x)
            }
        }
    }
}

/// Lay the two clusters out on a row of `width` columns from column `x0`,
/// given each pill's display width: the left pills from the left edge, the
/// right pills (rightmost first) from the right edge, never reaching the
/// left cluster.
pub fn layout(left_widths: &Vec<u16>, right_widths: &Vec<u16>, x0: u16, width: u16) -> (r: (Vec<Placed>, Vec<Placed>))
    requires
        x0 + width <= u16::MAX,
    ensures
        r.0@ == left_layout(left_widths@, 0, x0 as int, x0 + width).0,
        r.1@ == right_layout(
            right_widths@,
            right_widths@.len() - 1,
            x0 + width,
            left_layout(left_widths@, 0, x0 as int, x0 + width).1,
        ),
{
    let edge: u16 = x0 + width;
    let mut left: Vec<Placed> = Vec::new();
    let mut x: u16 = x0;
    let mut i: usize = 0;
    let ghost whole = left_layout(left_widths@, 0, x0 as int, edge as int);
    loop
        invariant
            i <= left_widths@.len(),
            x0 <= x <= edge,
            left@ + left_layout(left_widths@, i as int, x as int, edge as int).0 == whole.0,
            left_layout(left_widths@, i as int, x as int, edge as int).1 == whole.1,
        ensures
            left@ == whole.0,
            x == whole.1,
        decreases left_widths@.len() - i,
    {
        if i >= left_widths.len() || x >= edge {
            assert(left@ =~= whole.0);
            break;
        }
        let room = edge - x;
        let w = if left_widths[i] <= room { left_widths[i] } else { room };
        let x1 = x + w;
        if x1 >= edge {
            left.push(Placed { x, width: w, sep: false });
            x = x1;
            assert(left@ =~= whole.0);
            break;
        }
        let ghost before = left@;
        left.push(Placed { x, width: w, sep: true });
        proof {
            let rest = left_layout(left_widths@, i as int + 1, x1 + 1, edge as int).0;
            assert(before + seq![placed(x as int, w as int, true)] + rest =~= before + (seq![placed(x as int, w as int, true)] + rest));
        }
        x = x1 + 1;
        i = i + 1;
    }
    let mut right: Vec<Placed> = Vec::new();
    let mut rx: u16 = edge;
    let mut j: usize = right_widths.len();
    let ghost rwhole = right_layout(right_widths@, right_widths@.len() - 1, edge as int, x as int);
    loop
        invariant
            j <= right_widths@.len(),
            rx <= edge,
            right@ + right_layout(right_widths@, j - 1, rx as int, x as int) == rwhole,
        ensures
            right@ == rwhole,
        decreases j,
    {
        if j == 0 {
            assert(right@ =~= rwhole);
            break;
        }
        let w = right_widths[j - 1];
        if (rx as u32) <= (x as u32) + (w as u32) {
            assert(right@ =~= rwhole);
            break;
        }
        let r1 = rx - w;
        if r1 <= x {
            right.push(Placed { x: r1, width: w, sep: false });
            assert(right@ =~= rwhole);
            break;
        }
        let ghost before = right@;
        right.push(Placed { x: r1, width: w, sep: true });
        proof {
            let rest = right_layout(right_widths@, j - 2, r1 - 1, x as int);
            assert(before + seq![placed(r1 as int, w as int, true)] + rest =~= before + (seq![placed(r1 as int, w as int, true)] + rest));
        }
        rx = r1 - 1;
        j = j - 1;
    }
    (left, right)
}

/// Nothing of the left cluster is drawn past the row: every pill starts at
/// or after where the cluster starts and ends by the edge, and the cluster's
/// last column lies between its start and the edge.
pub proof fn left_cluster_stays_on_the_row(ws: Seq<u16>, i: int, x: int, edge: int)
    requires
        0 <= x <= edge <= u16::MAX,
    ensures
        x <= left_layout(ws, i, x, edge).1 <= edge,
        forall|k: int|
            0 <= k < left_layout(ws, i, x, edge).0.len() ==> x <= (#[trigger] left_layout(ws, i, x, edge).0[k]).x
                && left_layout(ws, i, x, edge).0[k].x + left_layout(ws, i, x, edge).0[k].width <= edge,
    decreases ws.len() - i,
{
    if !(i < 0 || i >= ws.len() || x >= edge) {
        let w = least(ws[i] as int, edge - x);
        let x1 = x + w;
        if x1 < edge {
            left_cluster_stays_on_the_row(ws, i + 1, x1 + 1, edge);
            let (rest, xe) = left_layout(ws, i + 1, x1 + 1, edge);
            let all = left_layout(ws, i, x, edge).0;
            assert(all == seq![placed(x, w, true)] + rest);
            assert forall|k: int| 0 <= k < all.len() implies x <= (#[trigger] all[k]).x && all[k].x + all[k].width <= edge by {
                if k > 0 {
                    assert(all[k] == rest[k - 1]);
                }
            }
        }
    }
}

/// The right cluster never reaches the left one: every right pill lies
/// after the left cluster's end `x` and before `rx`.
pub proof fn right_cluster_clear_of_left(ws: Seq<u16>, i: int, rx: int, x: int)
    requires
        0 <= x,
        rx <= u16::MAX,
    ensures
        forall|k: int|
            0 <= k < right_layout(ws, i, rx, x).len() ==> x < (#[trigger] right_layout(ws, i, rx, x)[k]).x
                && right_layout(ws, i, rx, x)[k].x + right_layout(ws, i, rx, x)[k].width <= rx,
    decreases i + 1,
{
    if !(i < 0 || i >= ws.len()) {
        let w = ws[i] as int;
        if rx > x + w {
            let r1 = rx - w;
            if r1 > x {
                right_cluster_clear_of_left(ws, i - 1, r1 - 1, x);
                let rest = right_layout(ws, i - 1, r1 - 1, x);
                let all = right_layout(ws, i, rx, x);
                assert(all == seq![placed(r1, w, true)] + rest);
                assert forall|k: int| 0 <= k < all.len() implies x < (#[trigger] all[k]).x && all[k].x + all[k].width <= rx by {
                    if k > 0 {
                        assert(all[k] == rest[k - 1]);
                    }
                }
            }
        }
    }
}

/// The branch a `.git/HEAD` names: after `ref: refs/heads/` when it points
/// at a branch, else the first seven characters of the detached hash.
pub open spec fn branch_named(head: Seq<char>) -> Seq<char> {
    let t = crate::text::trim_both(head);
    let prefix = "ref: refs/heads/"@;
    if prefix.is_prefix_of(t) {
        t.skip(prefix.len() as int)
    } else if t.len() > 7 {
        t.take(7)
    } else {
        t
    }
}

/// The branch shown for a `.git/HEAD` file's content.
pub fn branch_from_head(content: &str) -> (r: String)
    ensures
        r@ == branch_named(content@),
{
    proof {
        reveal_strlit("ref: refs/heads/");
    }
    let t = crate::text::trim_text(content);
    let prefix = "ref: refs/heads/";
    let n = t.as_str().unicode_len();
    let m = prefix.unicode_len();
    let mut is_ref = m <= n;
    let mut i: usize = 0;
    while is_ref && i < m
        invariant
            i <= m,
            m == prefix@.len(),
            n == t@.len(),
            is_ref ==> m <= n,
            is_ref ==> forall|k: int| 0 <= k < i ==> prefix@[k] == t@[k],
            !is_ref ==> !prefix@.is_prefix_of(t@),
        decreases m - i,
    {
        if prefix.get_char(i) != t.as_str().get_char(i) {
            is_ref = false;
        }
        i = i + 1;
    }
    if is_ref {
        assert(prefix@.is_prefix_of(t@));
        String::from_str(t.as_str().substring_char(m, n))
    } else if n > 7 {
        String::from_str(t.as_str().substring_char(0, 7))
    } else {
        t
    }
}

} // verus!
