//! The three-pane merge viewer's state: the aligned rows of a working-tree
//! diff or of a conflicted file, its change blocks and their resolutions, and
//! the selection and scrolling over them. Drawing it, and writing the
//! resolved text back, is the caller's part.

use vstd::prelude::*;
use vstd::string::StrSliceExecFns;

use crate::keys::Key;
use crate::text::{byte_len, decimal, decimal_string, utf8_len};
use crate::merge::{align, least, align_rows, changed_end, compute_blocks, computed_hunks, conflict_result_text, line_tokens, models, result_text, rows_out, segments_out, resolutions, split_lines, starts_upto, text_lines, views, width_of, Block, DiffRow, Resolution, RowKind, Segment, SegmentModel};

verus! {

/// Whether the view shows a working-tree diff or resolves conflict markers.
#[derive(Clone, Copy, PartialEq, Eq, Debug, Structural)]
pub enum ViewKind {
    /// Working-tree diff against HEAD.
    Diff,
    /// Merge-conflict resolver over conflict markers.
    Conflict,
}

/// The merge viewer.
pub struct DiffView {
    pub kind: ViewKind,
    /// Display name of the file being diffed.
    pub file_name: String,
    /// HEAD / ours lines (left pane).
    pub base_lines: Vec<String>,
    /// Working-tree / theirs lines (right pane).
    pub doc_lines: Vec<String>,
    /// Conflict mode: the common-ancestor lines shown in the Base pane.
    pub base_pane_lines: Vec<String>,
    /// Per row, the Base pane line shown on it.
    pub row_base: Vec<Option<usize>>,
    /// Whether the Base pane is shown.
    pub show_base: bool,
    /// Whether some conflict carries a base.
    pub has_base: bool,
    pub rows: Vec<DiffRow>,
    /// Change blocks with their resolutions.
    pub blocks: Vec<Block>,
    /// Conflict mode: the parsed segments the result is rebuilt from.
    pub segments: Vec<Segment>,
    /// Index into `blocks` of the focused block.
    pub selected: usize,
    /// Index of the top visible row.
    pub scroll: usize,
    /// Horizontal scroll in display columns.
    pub hscroll: usize,
    /// Body rows visible in the last drawing.
    pub viewport: usize,
    /// Comparison only: applying never writes back.
    pub read_only: bool,
    /// Choosing a side moves on to the next difference.
    pub auto_advance: bool,
    /// Stepping between differences skips those already decided.
    pub skip_prefers: bool,
    /// Refine changed rows word by word.
    pub word_refine: bool,
}

/// Every block covers rows of the view, start to end.
pub open spec fn blocks_fit(blocks: Seq<Block>, n: nat) -> bool {
    forall|k: int| 0 <= k < blocks.len() ==> (#[trigger] blocks[k]).rows.start <= blocks[k].rows.end <= n
}

/// How many blocks have a resolution that `wanted` picks out.
pub open spec fn count_where(blocks: Seq<Block>, res: Resolution, equal: bool) -> nat
    decreases blocks.len(),
{
    if blocks.len() == 0 {
        0
    } else {
        count_where(blocks.drop_last(), res, equal) + if (blocks.last().resolution == res) == equal { 1nat } else { 0nat }
    }
}

/// `x` kept within `lo..=hi`.
pub open spec fn clamp(x: int, lo: int, hi: int) -> int {
    if x < lo { lo } else if x > hi { hi } else { x }
}

/// A line's display width, capped at what a `usize` holds.
pub open spec fn capped_width(t: Seq<char>) -> int {
    if width_of(t) > usize::MAX { usize::MAX as int } else { width_of(t) }
}

/// The widest of the lines, or nothing.
pub open spec fn widest(ls: Seq<Seq<char>>) -> int
    decreases ls.len(),
{
    if ls.len() == 0 {
        0
    } else {
        let w = capped_width(ls.last());
        let rest = widest(ls.drop_last());
        if w > rest { w } else { rest }
    }
}

/// The widest is never negative.
pub proof fn widest_nonneg(ls: Seq<Seq<char>>)
    ensures
        widest(ls) >= 0,
    decreases ls.len(),
{
    if ls.len() > 0 {
        widest_nonneg(ls.drop_last());
    }
}

/// The widest of two lists run together is the wider of their widest.
pub proof fn widest_concat(a: Seq<Seq<char>>, b: Seq<Seq<char>>)
    ensures
        widest(a + b) == (if widest(a) > widest(b) {
            widest(a)
        } else {
            widest(b)
        }),
    decreases b.len(),
{
    if b.len() > 0 {
        widest_concat(a, b.drop_last());
        assert((a + b).drop_last() =~= a + b.drop_last());
    } else {
        assert(a + b =~= a);
        widest_nonneg(a);
    }
}

/// The display width of a line, capped at `usize::MAX`.
fn capped_line_width(s: &str) -> (w: usize)
    ensures
        w == capped_width(s@),
{
    let n = s.unicode_len();
    let mut w: usize = 0;
    let mut i: usize = 0;
    let mut capped = false;
    while i < n
        invariant
            i <= n,
            n == s@.len(),
            capped ==> width_of(s@.take(i as int)) > usize::MAX,
            capped ==> w == usize::MAX,
            !capped ==> w == width_of(s@.take(i as int)),
        decreases n - i,
    {
        let c = s.get_char(i);
        let step: usize = if c == '\t' { 4 } else { 1 };
        assert(s@.take(i as int + 1).drop_last() =~= s@.take(i as int));
        proof {
            crate::merge::width_of_grows(s@.take(i as int + 1));
        }
        if !capped {
            if w > usize::MAX - step {
                capped = true;
                w = usize::MAX;
            } else {
                w = w + step;
            }
        }
        i = i + 1;
    }
    assert(s@.take(n as int) =~= s@);
    w
}

/// The widest line of a list, in capped display columns.
fn widest_of(lines: &Vec<String>) -> (w: usize)
    ensures
        w == widest(views(lines@)),
{
    let mut w: usize = 0;
    let mut i: usize = 0;
    while i < lines.len()
        invariant
            i <= lines@.len(),
            w == widest(views(lines@).take(i as int)),
        decreases lines@.len() - i,
    {
        let x = capped_line_width(lines[i].as_str());
        assert(views(lines@).take(i as int + 1).drop_last() =~= views(lines@).take(i as int));
        assert(views(lines@)[i as int] == lines@[i as int]@);
        if x > w {
            w = x;
        }
        i = i + 1;
    }
    assert(views(lines@).take(lines@.len() as int) =~= views(lines@));
    w
}

/// `after` is `before` with block `sel` (if there is one) taken as `res`.
pub open spec fn resolved_one(before: Seq<Block>, after: Seq<Block>, sel: int, res: Resolution) -> bool {
    &&& after.len() == before.len()
    &&& forall|k: int| 0 <= k < before.len() ==> (#[trigger] after[k]).rows == before[k].rows
        && after[k].resolution == (if k == sel { res } else { before[k].resolution })
}

/// `after` is `before` with every block taken as `res`.
pub open spec fn resolved_every(before: Seq<Block>, after: Seq<Block>, res: Resolution) -> bool {
    &&& after.len() == before.len()
    &&& forall|k: int| 0 <= k < before.len() ==> (#[trigger] after[k]).rows == before[k].rows && after[k].resolution == res
}

impl DiffView {
    /// The view's shape holds: a Base pane entry per row, and blocks inside
    /// the rows.
    pub open spec fn wf(&self) -> bool {
        &&& self.row_base@.len() == self.rows@.len()
        &&& blocks_fit(self.blocks@, self.rows@.len())
    }

    /// A diff of the HEAD text `base` against the working text `doc`: the
    /// aligned rows of their line diff, one block per run of changes, each
    /// keeping the working side.
    pub fn new(file_name: String, base: &str, doc: &str) -> (v: Self)
        requires
            base@.len() < 0x7fff_ffff,
            doc@.len() < 0x7fff_ffff,
        ensures
            v.wf(),
            v.kind == ViewKind::Diff,
            v.file_name@ == file_name@,
            v.rows@ == align_rows(
                text_lines(base@).len() as int,
                text_lines(doc@).len() as int,
                computed_hunks(false, line_tokens(base@), line_tokens(doc@)),
                0,
                0,
                0,
            ),
            v.blocks@.len() == starts_upto(v.rows@, v.rows@.len() as int).len(),
            forall|k: int| 0 <= k < v.blocks@.len() ==> (#[trigger] v.blocks@[k]).rows.start == starts_upto(v.rows@, v.rows@.len() as int)[k]
                && v.blocks@[k].rows.end == changed_end(v.rows@, v.blocks@[k].rows.start as int)
                && v.blocks@[k].resolution == Resolution::Right,
            views(v.base_lines@) == text_lines(base@),
            views(v.doc_lines@) == text_lines(doc@),
            v.base_pane_lines@.len() == 0,
            forall|k: int| 0 <= k < v.row_base@.len() ==> #[trigger] v.row_base@[k] is None,
            !v.show_base && !v.has_base && v.segments@.len() == 0,
            v.selected == 0 && v.scroll == 0 && v.hscroll == 0 && v.viewport == 1,
            !v.read_only && !v.auto_advance && !v.skip_prefers && !v.word_refine,
    {
        let rows = align(base, doc);
        let blocks = compute_blocks(rows.as_slice());
        let mut row_base: Vec<Option<usize>> = Vec::new();
        let mut i: usize = 0;
        while i < rows.len()
            invariant
                i <= rows@.len(),
                row_base@.len() == i,
                forall|k: int| 0 <= k < i ==> #[trigger] row_base@[k] is None,
            decreases rows@.len() - i,
        {
            row_base.push(None);
            i = i + 1;
        }
        DiffView {
            kind: ViewKind::Diff,
            file_name,
            base_lines: split_lines(base),
            doc_lines: split_lines(doc),
            base_pane_lines: Vec::new(),
            row_base,
            show_base: false,
            has_base: false,
            rows,
            blocks,
            segments: Vec::new(),
            selected: 0,
            scroll: 0,
            hscroll: 0,
            viewport: 1,
            read_only: false,
            auto_advance: false,
            skip_prefers: false,
            word_refine: false,
        }
    }

    /// Mark the view comparison-only: applying never writes back.
    pub fn read_only(self) -> (v: Self)
        ensures
            v.read_only,
            v.rows == self.rows && v.blocks == self.blocks && v.kind == self.kind,
            v.word_refine == self.word_refine && v.selected == self.selected,
    {
        let mut v = self;
        v.read_only = true;
        v
    }

    /// Ask for changed rows to be refined at word granularity. The flag is
    /// recorded; the refinement itself rests on the host editor's word
    /// classes and is not done by this library.
    pub fn wordwise(self) -> (v: Self)
        ensures
            v.word_refine,
            v.rows == self.rows && v.blocks == self.blocks && v.kind == self.kind,
            v.read_only == self.read_only && v.selected == self.selected,
    {
        let mut v = self;
        v.word_refine = true;
        v
    }

    /// Whether the two texts are the same: there is no block.
    pub fn is_unchanged(&self) -> (r: bool)
        ensures
            r == (self.blocks@.len() == 0),
    {
        self.blocks.len() == 0
    }

    /// How many blocks have (or, when `equal` is false, lack) resolution `res`.
    fn count(&self, res: Resolution, equal: bool) -> (n: usize)
        ensures
            n == count_where(self.blocks@, res, equal),
    {
        let mut n: usize = 0;
        let mut i: usize = 0;
        while i < self.blocks.len()
            invariant
                i <= self.blocks@.len(),
                n == count_where(self.blocks@.take(i as int), res, equal),
                n <= i,
            decreases self.blocks@.len() - i,
        {
            assert(self.blocks@.take(i as int + 1).drop_last() =~= self.blocks@.take(i as int));
            if (self.blocks[i].resolution == res) == equal {
                n = n + 1;
            }
            i = i + 1;
        }
        assert(self.blocks@.take(self.blocks@.len() as int) =~= self.blocks@);
        n
    }

    /// The number of decided blocks for the header: in a diff those taken
    /// to HEAD, in a conflict those resolved at all.
    pub fn resolved_count(&self) -> (n: usize)
        ensures
            n == (if self.kind == ViewKind::Diff {
                count_where(self.blocks@, Resolution::Left, true)
            } else {
                count_where(self.blocks@, Resolution::Unresolved, false)
            }),
    {
        match self.kind {
            ViewKind::Diff => self.count(Resolution::Left, true),
            ViewKind::Conflict => self.count(Resolution::Unresolved, false),
        }
    }

    /// The number of conflicts still unresolved.
    pub fn unresolved_count(&self) -> (n: usize)
        ensures
            n == count_where(self.blocks@, Resolution::Unresolved, true),
    {
        self.count(Resolution::Unresolved, true)
    }

    /// Whether every conflict has a resolution.
    pub fn all_resolved(&self) -> (r: bool)
        ensures
            r == (forall|k: int| 0 <= k < self.blocks@.len() ==> (#[trigger] self.blocks@[k]).resolution != Resolution::Unresolved),
    {
        let mut i: usize = 0;
        while i < self.blocks.len()
            invariant
                i <= self.blocks@.len(),
                forall|k: int| 0 <= k < i ==> (#[trigger] self.blocks@[k]).resolution != Resolution::Unresolved,
            decreases self.blocks@.len() - i,
        {
            if self.blocks[i].resolution == Resolution::Unresolved {
                return false;
            }
            i = i + 1;
        }
        true
    }

    /// The furthest the view scrolls: the rows less one screenful.
    pub fn max_scroll(&self) -> (m: usize)
        ensures
            m == (if self.rows@.len() > self.viewport { self.rows@.len() - self.viewport } else { 0 }),
    {
        if self.rows.len() > self.viewport { self.rows.len() - self.viewport } else { 0 }
    }

    /// Scroll by `delta` rows, kept between the top and `max_scroll`.
    pub fn scroll_by(&mut self, delta: isize)
        ensures
            final(self).scroll == clamp(
                old(self).scroll + delta,
                0,
                if old(self).rows@.len() > old(self).viewport { old(self).rows@.len() - old(self).viewport } else { 0 },
            ),
            final(self).rows == old(self).rows && final(self).blocks == old(self).blocks,
            final(self).selected == old(self).selected && final(self).viewport == old(self).viewport,
            final(self).row_base == old(self).row_base,
            *final(self) == (DiffView { scroll: final(self).scroll, ..*old(self) }),
    {
        let max = self.max_scroll();
        let next: i128 = self.scroll as i128 + delta as i128;
        self.scroll = if next < 0 { 0 } else if next > max as i128 { max } else { next as usize };
    }

    /// The widest line of all panes, in display columns, tabs counting four:
    /// how far the view scrolls sideways.
    pub fn max_line_width(&self) -> (w: usize)
        ensures
            w == widest(views(self.base_lines@) + views(self.doc_lines@) + views(self.base_pane_lines@)),
    {
        let a = widest_of(&self.base_lines);
        let b = widest_of(&self.doc_lines);
        let c = widest_of(&self.base_pane_lines);
        proof {
            widest_concat(views(self.base_lines@), views(self.doc_lines@));
            widest_concat(views(self.base_lines@) + views(self.doc_lines@), views(self.base_pane_lines@));
        }
        let ab = if a > b { a } else { b };
        if ab > c { ab } else { c }
    }

    /// Scroll sideways by `delta` columns, kept between the left edge and
    /// the widest line.
    pub fn hscroll_by(&mut self, delta: isize)
        ensures
            final(self).hscroll == clamp(
                old(self).hscroll + delta,
                0,
                widest(views(old(self).base_lines@) + views(old(self).doc_lines@) + views(old(self).base_pane_lines@)),
            ),
            final(self).scroll == old(self).scroll && final(self).rows == old(self).rows,
            final(self).blocks == old(self).blocks && final(self).selected == old(self).selected,
            final(self).row_base == old(self).row_base,
            *final(self) == (DiffView { hscroll: final(self).hscroll, ..*old(self) }),
    {
        let max = self.max_line_width();
        let next: i128 = self.hscroll as i128 + delta as i128;
        self.hscroll = if next < 0 { 0 } else if next > max as i128 { max } else { next as usize };
    }
}

/// The first undecided block from `k` on, or the number of blocks.
pub open spec fn next_undecided(blocks: Seq<Block>, k: int) -> int
    decreases blocks.len() - k,
{
    if k < 0 || k >= blocks.len() {
        blocks.len() as int
    } else if blocks[k].resolution == Resolution::Unresolved {
        k
    } else {
        next_undecided(blocks, k + 1)
    }
}

/// The last undecided block before `k`, or -1.
pub open spec fn prev_undecided(blocks: Seq<Block>, k: int) -> int
    decreases k,
{
    if k <= 0 || k > blocks.len() {
        -1
    } else if blocks[k - 1].resolution == Resolution::Unresolved {
        k - 1
    } else {
        prev_undecided(blocks, k - 1)
    }
}

/// Where the view scrolls to bring block `sel` into sight: up to its first
/// row, or down until that row is the last shown, then no further than the
/// furthest scroll.
pub open spec fn scrolled_to(blocks: Seq<Block>, sel: int, scroll: int, viewport: int, rows: int) -> int {
    if 0 <= sel < blocks.len() {
        let start = blocks[sel].rows.start as int;
        let s1 = if start < scroll {
            start
        } else if start >= scroll + viewport {
            let back = if viewport > 0 { viewport - 1 } else { 0 };
            if start > back { start - back } else { 0 }
        } else {
            scroll
        };
        let max = if rows > viewport { rows - viewport } else { 0 };
        if s1 < max { s1 } else { max }
    } else {
        scroll
    }
}

/// What the caller is to do after a key.
#[derive(Clone, PartialEq, Eq, Debug)]
pub enum DiffAction {
    /// Nothing beyond redrawing.
    Nothing,
    /// Close the view.
    Close,
    /// Write `text` back and close; in a conflict, report the conflicts left
    /// or stage the file once all are resolved.
    Apply { text: String, conflict: bool, all_resolved: bool, remaining: usize },
}

/// How far the view scrolls down: the rows past one screenful.
pub open spec fn scroll_room(v: DiffView) -> int {
    if v.rows@.len() > v.viewport { v.rows@.len() - v.viewport } else { 0 }
}

/// How far the view scrolls sideways: the widest line of all panes.
pub open spec fn side_room(v: DiffView) -> int {
    widest(views(v.base_lines@) + views(v.doc_lines@) + views(v.base_pane_lines@)) as int
}

/// The rows a page key moves: a screenful, at least one.
pub open spec fn page_of(v: DiffView) -> int {
    if v.viewport <= 1 { 1 } else if v.viewport > isize::MAX as usize { isize::MAX as int } else { v.viewport as int }
}

/// What a scrolling key does to the view, or `None` for a key that does not
/// scroll: a row, a page, to the top or the bottom, four columns sideways,
/// back to the left edge, or over to the widest line.
pub open spec fn scrolled(v: DiffView, key: Key) -> Option<DiffView> {
    match key {
        Key::Char('j') | Key::Down => Some(DiffView { scroll: clamp(v.scroll + 1, 0, scroll_room(v)) as usize, ..v }),
        Key::Char('k') | Key::Up => Some(DiffView { scroll: clamp(v.scroll - 1, 0, scroll_room(v)) as usize, ..v }),
        Key::PageDown | Key::Ctrl('d') | Key::Ctrl('f') => Some(
            DiffView { scroll: clamp(v.scroll + page_of(v), 0, scroll_room(v)) as usize, ..v },
        ),
        Key::PageUp | Key::Ctrl('u') | Key::Ctrl('b') => Some(
            DiffView { scroll: clamp(v.scroll - page_of(v), 0, scroll_room(v)) as usize, ..v },
        ),
        Key::Char('g') | Key::Home => Some(DiffView { scroll: 0, ..v }),
        Key::Char('G') | Key::End => Some(DiffView { scroll: scroll_room(v) as usize, ..v }),
        Key::Right => Some(DiffView { hscroll: clamp(v.hscroll + 4, 0, side_room(v)) as usize, ..v }),
        Key::Left => Some(DiffView { hscroll: clamp(v.hscroll - 4, 0, side_room(v)) as usize, ..v }),
        Key::Char('0') => Some(DiffView { hscroll: 0, ..v }),
        Key::Char('$') => Some(DiffView { hscroll: side_room(v) as usize, ..v }),
        _ => None,
    }
}

/// The keys the view answers to.
pub open spec fn view_key_used(key: Key) -> bool {
    match key {
        Key::Esc | Key::Ctrl('c') | Key::Enter | Key::Down | Key::Up | Key::PageDown | Key::PageUp | Key::Ctrl('d')
        | Key::Ctrl('f') | Key::Ctrl('u') | Key::Ctrl('b') | Key::Home | Key::End | Key::Right | Key::Left => true,
        Key::Char(c) => c == 'q' || c == 'a' || c == 'j' || c == 'k' || c == 'g' || c == 'G' || c == '0' || c == '$'
            || c == 'n' || c == 'p' || c == ',' || c == '[' || c == 'h' || c == '.' || c == ']' || c == 'l'
            || c == 'L' || c == 'R' || c == 'b' || c == 'u' || c == 'x' || c == 'B',
        _ => false,
    }
}

impl DiffView {
    /// Scroll so the selected block is in view.
    pub fn scroll_to_selected(&mut self)
        ensures
            final(self).scroll == scrolled_to(old(self).blocks@, old(self).selected as int, old(self).scroll as int,
                old(self).viewport as int, old(self).rows@.len() as int),
            final(self).rows == old(self).rows && final(self).blocks == old(self).blocks,
            final(self).selected == old(self).selected && final(self).viewport == old(self).viewport,
            final(self).row_base == old(self).row_base && final(self).hscroll == old(self).hscroll,
    {
        if self.selected < self.blocks.len() {
            let start = self.blocks[self.selected].rows.start;
            let s1: usize = if start < self.scroll {
                start
            } else if (start as u128) >= (self.scroll as u128) + (self.viewport as u128) {
                let back = if self.viewport > 0 { self.viewport - 1 } else { 0 };
                if start > back { start - back } else { 0 }
            } else {
                self.scroll
            };
            let max = self.max_scroll();
            self.scroll = if s1 < max { s1 } else { max };
        }
    }

    /// Focus the next block (the next undecided one when skipping decided
    /// ones) and bring it into view.
    pub fn next_change(&mut self)
        ensures
            ({
                let b = old(self).blocks@;
                let s = old(self).selected as int;
                let target = if old(self).skip_prefers { next_undecided(b, s + 1) } else { s + 1 };
                let sel = if target < b.len() { target } else { s };
                &&& final(self).selected == sel
                &&& final(self).scroll == scrolled_to(b, sel, old(self).scroll as int, old(self).viewport as int,
                    old(self).rows@.len() as int)
            }),
            final(self).rows == old(self).rows && final(self).blocks == old(self).blocks,
            final(self).viewport == old(self).viewport && final(self).row_base == old(self).row_base,
    {
        let n = self.blocks.len();
        if self.skip_prefers {
            if self.selected < n {
                let mut i = self.selected + 1;
                while i < n && self.blocks[i].resolution != Resolution::Unresolved
                    invariant
                        old(self).selected < i <= n,
                        n == self.blocks@.len(),
                        self.blocks == old(self).blocks && self.selected == old(self).selected,
                        next_undecided(self.blocks@, i as int) == next_undecided(self.blocks@, old(self).selected + 1),
                    decreases n - i,
                {
                    i = i + 1;
                }
                if i < n {
                    self.selected = i;
                }
            }
        } else if self.selected < n && self.selected + 1 < n {
            self.selected = self.selected + 1;
        }
        self.scroll_to_selected();
    }

    /// Focus the previous block (the previous undecided one when skipping
    /// decided ones) and bring it into view.
    pub fn prev_change(&mut self)
        ensures
            ({
                let b = old(self).blocks@;
                let s = old(self).selected as int;
                let target = if old(self).skip_prefers { prev_undecided(b, if s < b.len() { s } else { b.len() as int }) } else { s - 1 };
                let sel = if target >= 0 { target } else { s };
                &&& final(self).selected == sel
                &&& final(self).scroll == scrolled_to(b, sel, old(self).scroll as int, old(self).viewport as int,
                    old(self).rows@.len() as int)
            }),
            final(self).rows == old(self).rows && final(self).blocks == old(self).blocks,
            final(self).viewport == old(self).viewport && final(self).row_base == old(self).row_base,
    {
        if self.skip_prefers {
            let mut i = if self.selected < self.blocks.len() { self.selected } else { self.blocks.len() };
            let ghost start = i;
            while i > 0 && self.blocks[i - 1].resolution != Resolution::Unresolved
                invariant
                    i <= start <= self.blocks@.len(),
                    self.blocks == old(self).blocks && self.selected == old(self).selected,
                    start == (if old(self).selected < old(self).blocks@.len() { old(self).selected as int } else { old(self).blocks@.len() as int }),
                    prev_undecided(self.blocks@, i as int) == prev_undecided(self.blocks@, start as int),
                decreases i,
            {
                i = i - 1;
            }
            if i > 0 {
                self.selected = i - 1;
            }
        } else if self.selected > 0 {
            self.selected = self.selected - 1;
        }
        self.scroll_to_selected();
    }

    /// Flip whether choosing a side moves on by itself; the new setting.
    pub fn toggle_auto_advance(&mut self) -> (on: bool)
        ensures
            on == !old(self).auto_advance,
            final(self).auto_advance == on,
            final(self).skip_prefers == old(self).skip_prefers,
    {
        self.auto_advance = !self.auto_advance;
        self.auto_advance
    }

    /// Flip whether stepping skips decided blocks; the new setting.
    pub fn toggle_skip_prefers(&mut self) -> (on: bool)
        ensures
            on == !old(self).skip_prefers,
            final(self).skip_prefers == on,
            final(self).auto_advance == old(self).auto_advance,
    {
        self.skip_prefers = !self.skip_prefers;
        self.skip_prefers
    }

    /// Set the selected block's resolution; with auto-advance on, a decision
    /// moves on to the next block.
    pub fn resolve_selected(&mut self, resolution: Resolution)
        requires
            old(self).wf(),
        ensures
            final(self).wf(),
            final(self).blocks@.len() == old(self).blocks@.len(),
            forall|k: int| 0 <= k < old(self).blocks@.len() ==> (#[trigger] final(self).blocks@[k]).rows == old(self).blocks@[k].rows
                && final(self).blocks@[k].resolution == (if k == old(self).selected { resolution } else { old(self).blocks@[k].resolution }),
            !(old(self).auto_advance && resolution != Resolution::Unresolved) ==> final(self).selected == old(self).selected,
            final(self).rows == old(self).rows,
    {
        if self.selected < self.blocks.len() {
            let i = self.selected;
            let start = self.blocks[i].rows.start;
            let end = self.blocks[i].rows.end;
            self.blocks.set(i, Block { rows: std::ops::Range { start, end }, resolution });
        }
        if self.auto_advance && resolution != Resolution::Unresolved {
            self.next_change();
        }
    }

    /// Set every block's resolution.
    pub fn resolve_all(&mut self, resolution: Resolution)
        requires
            old(self).wf(),
        ensures
            final(self).wf(),
            final(self).blocks@.len() == old(self).blocks@.len(),
            forall|k: int| 0 <= k < old(self).blocks@.len() ==> (#[trigger] final(self).blocks@[k]).rows == old(self).blocks@[k].rows
                && final(self).blocks@[k].resolution == resolution,
            final(self).rows == old(self).rows && final(self).selected == old(self).selected,
    {
        let mut i: usize = 0;
        while i < self.blocks.len()
            invariant
                i <= self.blocks@.len(),
                self.blocks@.len() == old(self).blocks@.len(),
                self.rows == old(self).rows && self.selected == old(self).selected,
                self.row_base == old(self).row_base,
                forall|k: int| 0 <= k < self.blocks@.len() ==> (#[trigger] self.blocks@[k]).rows == old(self).blocks@[k].rows,
                forall|k: int| 0 <= k < i ==> (#[trigger] self.blocks@[k]).resolution == resolution,
                blocks_fit(old(self).blocks@, old(self).rows@.len()),
            decreases self.blocks@.len() - i,
        {
            let start = self.blocks[i].rows.start;
            let end = self.blocks[i].rows.end;
            self.blocks.set(i, Block { rows: std::ops::Range { start, end }, resolution });
            i = i + 1;
        }
    }

    /// The block holding row `i`, if any.
    pub fn block_at(&self, i: usize) -> (b: Option<usize>)
        ensures
            match b {
                Some(k) => k < self.blocks@.len() && self.blocks@[k as int].rows.start <= i < self.blocks@[k as int].rows.end
                    && forall|j: int| 0 <= j < k ==> !(#[trigger] self.blocks@[j].rows.start <= i < self.blocks@[j].rows.end),
                None => forall|j: int| 0 <= j < self.blocks@.len() ==> !(#[trigger] self.blocks@[j].rows.start <= i < self.blocks@[j].rows.end),
            },
    {
        let mut k: usize = 0;
        while k < self.blocks.len()
            invariant
                k <= self.blocks@.len(),
                forall|j: int| 0 <= j < k ==> !(#[trigger] self.blocks@[j].rows.start <= i < self.blocks@[j].rows.end),
            decreases self.blocks@.len() - k,
        {
            if self.blocks[k].rows.start <= i && i < self.blocks[k].rows.end {
                return Some(k);
            }
            k = k + 1;
        }
        None
    }

    /// The resolved text from the current resolutions: the rows' lines in a
    /// diff, the segments with their conflicts resolved in a conflict.
    pub fn result_text(&self) -> (t: String)
        requires
            self.wf(),
        ensures
            self.kind == ViewKind::Diff ==> t@ == rows_out(self.rows@, self.blocks@, views(self.base_lines@),
                views(self.doc_lines@), self.rows@.len() as int),
            self.kind == ViewKind::Conflict ==> t@ == segments_out(models(self.segments@), resolutions(self.blocks@)),
    {
        match self.kind {
            ViewKind::Diff => result_text(self.rows.as_slice(), self.blocks.as_slice(), self.base_lines.as_slice(), self.doc_lines.as_slice()),
            ViewKind::Conflict => conflict_result_text(self.segments.as_slice(), self.blocks.as_slice()),
        }
    }

    /// Read one key: scroll by rows, pages or columns, step between blocks,
    /// resolve the selected block or all of them, toggle the Base pane, close,
    /// or apply the resolved text.
    #[verifier::rlimit(100)]
    pub fn handle_key(&mut self, key: Key) -> (act: DiffAction)
        requires
            old(self).wf(),
        ensures
            final(self).wf(),
            final(self).rows == old(self).rows,
            (key == Key::Char('q') || key == Key::Esc || key == Key::Ctrl('c')) ==> act == DiffAction::Close,
            (key == Key::Enter || key == Key::Char('a')) && old(self).read_only ==> act == DiffAction::Close,
            (key == Key::Enter || key == Key::Char('a')) && !old(self).read_only ==> (act matches DiffAction::Apply { text, conflict, all_resolved, remaining }
                && conflict == (old(self).kind == ViewKind::Conflict)
                && remaining == count_where(old(self).blocks@, Resolution::Unresolved, true)
                && all_resolved == (remaining == 0)
                && (old(self).kind == ViewKind::Diff ==> text@ == rows_out(old(self).rows@, old(self).blocks@, views(old(self).base_lines@),
                    views(old(self).doc_lines@), old(self).rows@.len() as int))
                && (old(self).kind == ViewKind::Conflict ==> text@ == segments_out(models(old(self).segments@), resolutions(old(self).blocks@)))),
            key == Key::Char('g') || key == Key::Home ==> final(self).scroll == 0,
            key == Key::Char('n') ==> {
                let b = old(self).blocks@;
                let s = old(self).selected as int;
                let target = if old(self).skip_prefers { next_undecided(b, s + 1) } else { s + 1 };
                &&& final(self).selected == (if target < b.len() { target } else { s })
                &&& final(self).blocks == old(self).blocks
                &&& act == DiffAction::Nothing
            },
            key == Key::Char('p') ==> {
                let b = old(self).blocks@;
                let s = old(self).selected as int;
                let target = if old(self).skip_prefers { prev_undecided(b, if s < b.len() { s } else { b.len() as int }) } else { s - 1 };
                &&& final(self).selected == (if target >= 0 { target } else { s })
                &&& final(self).blocks == old(self).blocks
                &&& act == DiffAction::Nothing
            },
            (key == Key::Char(',') || key == Key::Char('[') || key == Key::Char('h'))
                ==> resolved_one(old(self).blocks@, final(self).blocks@, old(self).selected as int, Resolution::Left),
            (key == Key::Char('.') || key == Key::Char(']') || key == Key::Char('l'))
                ==> resolved_one(old(self).blocks@, final(self).blocks@, old(self).selected as int, Resolution::Right),
            key == Key::Char('L') ==> resolved_every(old(self).blocks@, final(self).blocks@, Resolution::Left),
            key == Key::Char('R') ==> resolved_every(old(self).blocks@, final(self).blocks@, Resolution::Right),
            key == Key::Char('b') && old(self).kind == ViewKind::Conflict
                ==> resolved_one(old(self).blocks@, final(self).blocks@, old(self).selected as int, Resolution::Both),
            (key == Key::Char('u') || key == Key::Char('x')) && old(self).kind == ViewKind::Conflict
                ==> resolved_one(old(self).blocks@, final(self).blocks@, old(self).selected as int, Resolution::Unresolved),
            key == Key::Char('B') ==> *final(self) == (DiffView {
                show_base: if old(self).kind == ViewKind::Conflict && old(self).has_base {
                    !old(self).show_base
                } else {
                    old(self).show_base
                },
                ..*old(self)
            }),
            scrolled(*old(self), key) matches Some(v) ==> *final(self) == v && act == DiffAction::Nothing,
            (key == Key::Char('q') || key == Key::Esc || key == Key::Ctrl('c') || key == Key::Enter || key == Key::Char('a'))
                ==> *final(self) == *old(self),
            !view_key_used(key) ==> *final(self) == *old(self) && act == DiffAction::Nothing,
    {
        let page: isize = if self.viewport <= 1 { 1 } else if self.viewport > isize::MAX as usize { isize::MAX } else { self.viewport as isize };
        match key {
            Key::Char('q') | Key::Esc | Key::Ctrl('c') => DiffAction::Close,
            Key::Enter | Key::Char('a') => {
                if self.read_only {
                    DiffAction::Close
                } else {
                    let remaining = self.unresolved_count();
                    let all = self.all_resolved();
                    proof {
                        count_zero_iff(self.blocks@);
                    }
                    DiffAction::Apply {
                        text: self.result_text(),
                        conflict: self.kind == ViewKind::Conflict,
                        all_resolved: all,
                        remaining,
                    }
                }
            },
            Key::Char('j') | Key::Down => {
                self.scroll_by(1);
                DiffAction::Nothing
            },
            Key::Char('k') | Key::Up => {
                self.scroll_by(-1);
                DiffAction::Nothing
            },
            Key::PageDown | Key::Ctrl('d') | Key::Ctrl('f') => {
                self.scroll_by(page);
                DiffAction::Nothing
            },
            Key::PageUp | Key::Ctrl('u') | Key::Ctrl('b') => {
                self.scroll_by(-page);
                DiffAction::Nothing
            },
            Key::Char('g') | Key::Home => {
                self.scroll = 0;
                DiffAction::Nothing
            },
            Key::Char('G') | Key::End => {
                self.scroll = self.max_scroll();
                DiffAction::Nothing
            },
            Key::Right => {
                self.hscroll_by(4);
                DiffAction::Nothing
            },
            Key::Left => {
                self.hscroll_by(-4);
                DiffAction::Nothing
            },
            Key::Char('0') => {
                self.hscroll = 0;
                DiffAction::Nothing
            },
            Key::Char('$') => {
                self.hscroll = self.max_line_width();
                DiffAction::Nothing
            },
            Key::Char('n') => {
                self.next_change();
                DiffAction::Nothing
            },
            Key::Char('p') => {
                self.prev_change();
                DiffAction::Nothing
            },
            Key::Char(',') | Key::Char('[') | Key::Char('h') => {
                self.resolve_selected(Resolution::Left);
                DiffAction::Nothing
            },
            Key::Char('.') | Key::Char(']') | Key::Char('l') => {
                self.resolve_selected(Resolution::Right);
                DiffAction::Nothing
            },
            Key::Char('L') => {
                self.resolve_all(Resolution::Left);
                DiffAction::Nothing
            },
            Key::Char('R') => {
                self.resolve_all(Resolution::Right);
                DiffAction::Nothing
            },
            Key::Char('b') => {
                if self.kind == ViewKind::Conflict {
                    self.resolve_selected(Resolution::Both);
                }
                DiffAction::Nothing
            },
            Key::Char('u') | Key::Char('x') => {
                if self.kind == ViewKind::Conflict {
                    self.resolve_selected(Resolution::Unresolved);
                }
                DiffAction::Nothing
            },
            Key::Char('B') => {
                if self.kind == ViewKind::Conflict && self.has_base {
                    self.show_base = !self.show_base;
                }
                DiffAction::Nothing
            },
            _ => DiffAction::Nothing,
        }
    }
}

/// No block is unresolved exactly when none counts as unresolved.
pub proof fn count_zero_iff(blocks: Seq<Block>)
    ensures
        (count_where(blocks, Resolution::Unresolved, true) == 0) == (forall|k: int| 0 <= k < blocks.len()
            ==> (#[trigger] blocks[k]).resolution != Resolution::Unresolved),
    decreases blocks.len(),
{
    if blocks.len() > 0 {
        count_zero_iff(blocks.drop_last());
        if count_where(blocks, Resolution::Unresolved, true) == 0 {
            assert forall|k: int| 0 <= k < blocks.len() implies (#[trigger] blocks[k]).resolution != Resolution::Unresolved by {
                if k < blocks.len() - 1 {
                    assert(blocks[k] == blocks.drop_last()[k]);
                }
            }
        } else {
            if blocks.last().resolution != Resolution::Unresolved {
                let k = choose|k: int| 0 <= k < blocks.drop_last().len() && (#[trigger] blocks.drop_last()[k]).resolution == Resolution::Unresolved;
                assert(blocks[k] == blocks.drop_last()[k]);
            }
        }
    }
}

/// The left pane of a conflicted file: context lines and each conflict's
/// ours lines.
pub open spec fn left_of(ms: Seq<SegmentModel>) -> Seq<Seq<char>>
    decreases ms.len(),
{
    if ms.len() == 0 {
        Seq::empty()
    } else {
        left_of(ms.drop_last()) + match ms.last() {
            SegmentModel::Context(l) => l,
            SegmentModel::Conflict(o, _, _) => o,
        }
    }
}

/// The right pane: context lines and each conflict's theirs lines.
pub open spec fn right_of(ms: Seq<SegmentModel>) -> Seq<Seq<char>>
    decreases ms.len(),
{
    if ms.len() == 0 {
        Seq::empty()
    } else {
        right_of(ms.drop_last()) + match ms.last() {
            SegmentModel::Context(l) => l,
            SegmentModel::Conflict(_, _, t) => t,
        }
    }
}

/// The Base pane: context lines and each conflict's base lines.
pub open spec fn pane_of(ms: Seq<SegmentModel>) -> Seq<Seq<char>>
    decreases ms.len(),
{
    if ms.len() == 0 {
        Seq::empty()
    } else {
        pane_of(ms.drop_last()) + match ms.last() {
            SegmentModel::Context(l) => l,
            SegmentModel::Conflict(_, b, _) => b,
        }
    }
}

/// How many conflicts the segments hold.
pub open spec fn conflict_count(ms: Seq<SegmentModel>) -> nat
    decreases ms.len(),
{
    if ms.len() == 0 {
        0
    } else {
        conflict_count(ms.drop_last()) + if ms.last() is Conflict { 1nat } else { 0nat }
    }
}

/// Whether some conflict carries base lines.
pub open spec fn any_base(ms: Seq<SegmentModel>) -> bool
    decreases ms.len(),
{
    if ms.len() == 0 {
        false
    } else {
        any_base(ms.drop_last()) || (ms.last() matches SegmentModel::Conflict(_, b, _) && b.len() > 0)
    }
}

/// Every row's lines stand inside the two panes.
pub open spec fn rows_in(rows: Seq<DiffRow>, nb: nat, nd: nat) -> bool {
    forall|k: int| 0 <= k < rows.len() ==> {
        &&& ((#[trigger] rows[k]).left matches Some(x) ==> x < nb)
        &&& (rows[k].right matches Some(y) ==> y < nd)
    }
}

/// Every Base pane entry stands inside the Base pane.
pub open spec fn panes_in(rb: Seq<Option<usize>>, np: nat) -> bool {
    forall|k: int| 0 <= k < rb.len() ==> (#[trigger] rb[k] matches Some(p) ==> p < np)
}

/// The panes, rows and blocks of a conflict view while it is laid out.
struct Layout {
    base_lines: Vec<String>,
    doc_lines: Vec<String>,
    pane: Vec<String>,
    row_base: Vec<Option<usize>>,
    rows: Vec<DiffRow>,
    blocks: Vec<Block>,
    has_base: bool,
}

impl Layout {
    /// Rows, Base pane entries and blocks stand inside what was laid out,
    /// and every block is unresolved.
    spec fn fits(&self) -> bool {
        &&& self.row_base@.len() == self.rows@.len()
        &&& rows_in(self.rows@, self.base_lines@.len(), self.doc_lines@.len())
        &&& panes_in(self.row_base@, self.pane@.len())
        &&& blocks_fit(self.blocks@, self.rows@.len())
        &&& forall|k: int| 0 <= k < self.blocks@.len() ==> (#[trigger] self.blocks@[k]).resolution == Resolution::Unresolved
    }
}

/// Rows stay inside the panes as the panes grow and a row inside them is
/// added.
proof fn rows_in_push(rows: Seq<DiffRow>, r: DiffRow, nb: nat, nd: nat, nb2: nat, nd2: nat)
    requires
        rows_in(rows, nb, nd),
        nb <= nb2,
        nd <= nd2,
        r.left matches Some(x) ==> x < nb2,
        r.right matches Some(y) ==> y < nd2,
    ensures
        rows_in(rows.push(r), nb2, nd2),
{
    assert forall|k: int| 0 <= k < rows.push(r).len() implies {
        &&& ((#[trigger] rows.push(r)[k]).left matches Some(x) ==> x < nb2)
        &&& (rows.push(r)[k].right matches Some(y) ==> y < nd2)
    } by {
        if k < rows.len() {
            assert(rows.push(r)[k] == rows[k]);
        }
    }
}

/// Base pane entries stay inside the pane as it grows and an entry inside it
/// is added or set.
proof fn panes_in_grow(rb: Seq<Option<usize>>, np: nat, np2: nat, p: Option<usize>)
    requires
        panes_in(rb, np),
        np <= np2,
        p matches Some(x) ==> x < np2,
    ensures
        panes_in(rb.push(p), np2),
        forall|i: int| 0 <= i < rb.len() ==> panes_in(#[trigger] rb.update(i, p), np2),
{
    assert forall|k: int| 0 <= k < rb.push(p).len() implies (#[trigger] rb.push(p)[k] matches Some(x) ==> x < np2) by {
        if k < rb.len() {
            assert(rb.push(p)[k] == rb[k]);
        }
    }
    assert forall|i: int| 0 <= i < rb.len() implies panes_in(#[trigger] rb.update(i, p), np2) by {
        assert forall|k: int| 0 <= k < rb.update(i, p).len() implies (#[trigger] rb.update(i, p)[k] matches Some(x) ==> x < np2) by {
            if k != i {
                assert(rb.update(i, p)[k] == rb[k]);
            }
        }
    }
}

/// Blocks inside the rows stay inside as rows are added.
proof fn blocks_fit_grow(blocks: Seq<Block>, n: nat, n2: nat)
    requires
        blocks_fit(blocks, n),
        n <= n2,
    ensures
        blocks_fit(blocks, n2),
{
}

/// Append a copy of `s`.
fn push_copy(v: &mut Vec<String>, s: &String)
    ensures
        views(final(v)@) == views(old(v)@).push(s@),
        final(v)@.len() == old(v)@.len() + 1,
{
    let c = s.clone();
    v.push(c);
    assert(views(v@) =~= views(old(v)@).push(s@));
}

/// Lay out context lines: each is a row shown unchanged in every pane.
fn lay_context(b: &mut Layout, lines: &Vec<String>)
    requires
        old(b).fits(),
    ensures
        final(b).fits(),
        views(final(b).base_lines@) == views(old(b).base_lines@) + views(lines@),
        views(final(b).doc_lines@) == views(old(b).doc_lines@) + views(lines@),
        views(final(b).pane@) == views(old(b).pane@) + views(lines@),
        final(b).blocks@ == old(b).blocks@,
        final(b).has_base == old(b).has_base,
{
    let mut j: usize = 0;
    while j < lines.len()
        invariant
            j <= lines@.len(),
            b.fits(),
            views(b.base_lines@) == views(old(b).base_lines@) + views(lines@).take(j as int),
            views(b.doc_lines@) == views(old(b).doc_lines@) + views(lines@).take(j as int),
            views(b.pane@) == views(old(b).pane@) + views(lines@).take(j as int),
            b.blocks@ == old(b).blocks@,
            b.has_base == old(b).has_base,
        decreases lines@.len() - j,
    {
        let bi = b.base_lines.len();
        let di = b.doc_lines.len();
        let pbi = b.pane.len();
        push_copy(&mut b.base_lines, &lines[j]);
        push_copy(&mut b.doc_lines, &lines[j]);
        push_copy(&mut b.pane, &lines[j]);
        let ghost r0 = b.rows@;
        let ghost rb0 = b.row_base@;
        b.rows.push(DiffRow { left: Some(bi), right: Some(di), kind: RowKind::Unchanged });
        b.row_base.push(Some(pbi));
        proof {
            rows_in_push(r0, b.rows@.last(), bi as nat, di as nat, b.base_lines@.len(), b.doc_lines@.len());
            assert(b.rows@ == r0.push(b.rows@.last()));
            panes_in_grow(rb0, pbi as nat, b.pane@.len(), Some(pbi));
            blocks_fit_grow(b.blocks@, r0.len(), b.rows@.len());
        }
        assert(views(lines@).take(j as int + 1) =~= views(lines@).take(j as int).push(lines@[j as int]@));
        j = j + 1;
    }
    assert(views(lines@).take(lines@.len() as int) =~= views(lines@));
}

/// Lay out one conflict: ours against theirs as changed rows, the longer
/// side spilling into removed or added rows, its base lines in the Base
/// pane beside them (with blank filler rows when the base is longer), and
/// one unresolved block over all its rows.
fn lay_conflict(b: &mut Layout, ours: &Vec<String>, base: &Vec<String>, theirs: &Vec<String>)
    requires
        old(b).fits(),
    ensures
        final(b).fits(),
        views(final(b).base_lines@) == views(old(b).base_lines@) + views(ours@),
        views(final(b).doc_lines@) == views(old(b).doc_lines@) + views(theirs@),
        views(final(b).pane@) == views(old(b).pane@) + views(base@),
        final(b).blocks@.len() == old(b).blocks@.len() + 1,
        final(b).blocks@.drop_last() == old(b).blocks@,
        final(b).has_base == (old(b).has_base || base@.len() > 0),
{
    if base.len() > 0 {
        b.has_base = true;
    }
    let start = b.rows.len();
    let common = if ours.len() <= theirs.len() { ours.len() } else { theirs.len() };
    let ghost b0 = views(b.base_lines@);
    let ghost d0 = views(b.doc_lines@);
    let ghost p0 = views(b.pane@);
    let ghost k0 = b.blocks@;
    let mut k: usize = 0;
    while k < common
        invariant
            k <= common,
            common <= ours@.len() && common <= theirs@.len(),
            b.fits(),
            start <= b.rows@.len(),
            views(b.base_lines@) == b0 + views(ours@).take(k as int),
            views(b.doc_lines@) == d0 + views(theirs@).take(k as int),
            views(b.pane@) == p0,
            b.blocks@ == k0,
            b.has_base == (old(b).has_base || base@.len() > 0),
        decreases common - k,
    {
        let bi = b.base_lines.len();
        let di = b.doc_lines.len();
        push_copy(&mut b.base_lines, &ours[k]);
        push_copy(&mut b.doc_lines, &theirs[k]);
        let ghost r0 = b.rows@;
        let ghost rb0 = b.row_base@;
        b.rows.push(DiffRow { left: Some(bi), right: Some(di), kind: RowKind::Changed });
        b.row_base.push(None);
        proof {
            rows_in_push(r0, b.rows@.last(), bi as nat, di as nat, b.base_lines@.len(), b.doc_lines@.len());
            assert(b.rows@ == r0.push(b.rows@.last()));
            panes_in_grow(rb0, b.pane@.len(), b.pane@.len(), None);
            blocks_fit_grow(b.blocks@, r0.len(), b.rows@.len());
        }
        assert(views(ours@).take(k as int + 1) =~= views(ours@).take(k as int).push(ours@[k as int]@));
        assert(views(theirs@).take(k as int + 1) =~= views(theirs@).take(k as int).push(theirs@[k as int]@));
        k = k + 1;
    }
    let mut k = common;
    while k < ours.len()
        invariant
            common <= k <= ours@.len(),
            b.fits(),
            start <= b.rows@.len(),
            views(b.base_lines@) == b0 + views(ours@).take(k as int),
            views(b.doc_lines@) == d0 + views(theirs@).take(common as int),
            views(b.pane@) == p0,
            b.blocks@ == k0,
            b.has_base == (old(b).has_base || base@.len() > 0),
        decreases ours@.len() - k,
    {
        let bi = b.base_lines.len();
        push_copy(&mut b.base_lines, &ours[k]);
        let ghost r0 = b.rows@;
        let ghost rb0 = b.row_base@;
        b.rows.push(DiffRow { left: Some(bi), right: None, kind: RowKind::Removed });
        b.row_base.push(None);
        proof {
            rows_in_push(r0, b.rows@.last(), bi as nat, b.doc_lines@.len(), b.base_lines@.len(), b.doc_lines@.len());
            assert(b.rows@ == r0.push(b.rows@.last()));
            panes_in_grow(rb0, b.pane@.len(), b.pane@.len(), None);
            blocks_fit_grow(b.blocks@, r0.len(), b.rows@.len());
        }
        assert(views(ours@).take(k as int + 1) =~= views(ours@).take(k as int).push(ours@[k as int]@));
        k = k + 1;
    }
    let mut k = common;
    while k < theirs.len()
        invariant
            common <= k <= theirs@.len(),
            b.fits(),
            start <= b.rows@.len(),
            views(b.base_lines@) == b0 + views(ours@),
            views(b.doc_lines@) == d0 + views(theirs@).take(k as int),
            views(b.pane@) == p0,
            b.blocks@ == k0,
            b.has_base == (old(b).has_base || base@.len() > 0),
        decreases theirs@.len() - k,
    {
        let di = b.doc_lines.len();
        push_copy(&mut b.doc_lines, &theirs[k]);
        let ghost r0 = b.rows@;
        let ghost rb0 = b.row_base@;
        b.rows.push(DiffRow { left: None, right: Some(di), kind: RowKind::Added });
        b.row_base.push(None);
        proof {
            rows_in_push(r0, b.rows@.last(), b.base_lines@.len(), di as nat, b.base_lines@.len(), b.doc_lines@.len());
            assert(b.rows@ == r0.push(b.rows@.last()));
            panes_in_grow(rb0, b.pane@.len(), b.pane@.len(), None);
            blocks_fit_grow(b.blocks@, r0.len(), b.rows@.len());
        }
        assert(views(theirs@).take(k as int + 1) =~= views(theirs@).take(k as int).push(theirs@[k as int]@));
        k = k + 1;
    }
    assert(views(ours@).take(ours@.len() as int) =~= views(ours@));
    assert(views(theirs@).take(theirs@.len() as int) =~= views(theirs@));
    let mut k: usize = 0;
    while k < base.len()
        invariant
            k <= base@.len(),
            b.fits(),
            start <= b.rows@.len(),
            views(b.base_lines@) == b0 + views(ours@),
            views(b.doc_lines@) == d0 + views(theirs@),
            views(b.pane@) == p0 + views(base@).take(k as int),
            b.blocks@ == k0,
            b.has_base == (old(b).has_base || base@.len() > 0),
        decreases base@.len() - k,
    {
        let pbi = b.pane.len();
        push_copy(&mut b.pane, &base[k]);
        let ghost r0 = b.rows@;
        let ghost rb0 = b.row_base@;
        proof {
            panes_in_grow(rb0, pbi as nat, b.pane@.len(), Some(pbi));
        }
        if start < b.rows.len() && k < b.rows.len() - start {
            b.row_base.set(start + k, Some(pbi));
        } else {
            b.rows.push(DiffRow { left: None, right: None, kind: RowKind::Changed });
            b.row_base.push(Some(pbi));
            proof {
                rows_in_push(r0, b.rows@.last(), b.base_lines@.len(), b.doc_lines@.len(), b.base_lines@.len(), b.doc_lines@.len());
                assert(b.rows@ == r0.push(b.rows@.last()));
                blocks_fit_grow(b.blocks@, r0.len(), b.rows@.len());
            }
        }
        assert(views(base@).take(k as int + 1) =~= views(base@).take(k as int).push(base@[k as int]@));
        k = k + 1;
    }
    assert(views(base@).take(base@.len() as int) =~= views(base@));
    let end = b.rows.len();
    b.blocks.push(Block { rows: std::ops::Range { start, end }, resolution: Resolution::Unresolved });
    assert(b.blocks@.drop_last() =~= k0);
}

/// The panes laid out for a prefix of the segments, one step further.
proof fn panes_step(ms: Seq<SegmentModel>, i: int)
    requires
        0 <= i < ms.len(),
    ensures
        ms.take(i + 1).drop_last() == ms.take(i),
        ms.take(i + 1).last() == ms[i],
{
    assert(ms.take(i + 1).drop_last() =~= ms.take(i));
}

impl DiffView {
    /// A conflict resolver over the parsed segments of a conflicted file:
    /// context lines become unchanged rows in all panes; each conflict
    /// becomes one unresolved block whose left side is ours and right side
    /// theirs, padded so the panes stay aligned, with its base in the Base
    /// pane; the Base pane shows when some conflict has a base.
    pub fn from_conflicts(file_name: String, segments: Vec<Segment>) -> (v: Self)
        ensures
            v.wf(),
            v.kind == ViewKind::Conflict,
            v.file_name@ == file_name@,
            models(v.segments@) == models(segments@),
            views(v.base_lines@) == left_of(models(segments@)),
            views(v.doc_lines@) == right_of(models(segments@)),
            views(v.base_pane_lines@) == pane_of(models(segments@)),
            rows_in(v.rows@, v.base_lines@.len(), v.doc_lines@.len()),
            panes_in(v.row_base@, v.base_pane_lines@.len()),
            v.blocks@.len() == conflict_count(models(segments@)),
            forall|k: int| 0 <= k < v.blocks@.len() ==> (#[trigger] v.blocks@[k]).resolution == Resolution::Unresolved,
            v.has_base == any_base(models(segments@)),
            v.show_base == v.has_base,
            v.selected == 0 && v.scroll == 0 && v.hscroll == 0 && v.viewport == 1,
            !v.read_only && !v.auto_advance && !v.skip_prefers && !v.word_refine,
    {
        let ghost ms = models(segments@);
        let mut b = Layout {
            base_lines: Vec::new(),
            doc_lines: Vec::new(),
            pane: Vec::new(),
            row_base: Vec::new(),
            rows: Vec::new(),
            blocks: Vec::new(),
            has_base: false,
        };
        assert(views(b.base_lines@) =~= Seq::<Seq<char>>::empty());
        assert(views(b.doc_lines@) =~= Seq::<Seq<char>>::empty());
        assert(views(b.pane@) =~= Seq::<Seq<char>>::empty());
        assert(ms.take(0) =~= Seq::<SegmentModel>::empty());
        let mut i: usize = 0;
        while i < segments.len()
            invariant
                i <= segments@.len(),
                ms == models(segments@),
                b.fits(),
                views(b.base_lines@) == left_of(ms.take(i as int)),
                views(b.doc_lines@) == right_of(ms.take(i as int)),
                views(b.pane@) == pane_of(ms.take(i as int)),
                b.blocks@.len() == conflict_count(ms.take(i as int)),
                b.has_base == any_base(ms.take(i as int)),
            decreases segments@.len() - i,
        {
            proof {
                panes_step(ms, i as int);
            }
            assert(ms[i as int] == segments@[i as int]@);
            match &segments[i] {
                Segment::Context(lines) => {
                    lay_context(&mut b, lines);
                },
                Segment::Conflict { ours, base, theirs } => {
                    lay_conflict(&mut b, ours, base, theirs);
                },
            }
            i = i + 1;
        }
        assert(ms.take(segments@.len() as int) =~= ms);
        let has_base = b.has_base;
        DiffView {
            kind: ViewKind::Conflict,
            file_name,
            base_lines: b.base_lines,
            doc_lines: b.doc_lines,
            base_pane_lines: b.pane,
            row_base: b.row_base,
            show_base: has_base,
            has_base,
            rows: b.rows,
            blocks: b.blocks,
            segments,
            selected: 0,
            scroll: 0,
            hscroll: 0,
            viewport: 1,
            read_only: false,
            auto_advance: false,
            skip_prefers: false,
            word_refine: false,
        }
    }
}

impl DiffView {
    /// The name the view goes by: `diff` for a two-way diff, `merge` for a
    /// conflict.
    pub fn id(&self) -> (r: Option<&'static str>)
        ensures
            r == (match self.kind {
                ViewKind::Diff => Some("diff"),
                ViewKind::Conflict => Some("merge"),
            }),
    {
        match self.kind {
            ViewKind::Diff => Some("diff"),
            ViewKind::Conflict => Some("merge"),
        }
    }
}

/// Columns left for `n` panes in `width` after a separator column between
/// each two.
pub open spec fn pane_room(width: int, n: int) -> int {
    if width >= n - 1 { width - (n - 1) } else { 0 }
}

/// The width of pane `i` of `n` sharing `room` columns: an equal share, the
/// remainder going one column each to the earliest panes.
pub open spec fn pane_width(room: int, n: int, i: int) -> int {
    room / n + if i < room % n { 1int } else { 0int }
}

/// How far pane `i` starts from the left edge: past the earlier panes and a
/// separator after each.
pub open spec fn pane_offset(room: int, n: int, i: int) -> int {
    i * (room / n) + least(i, room % n) + i
}

/// Each pane starts one column past the end of the one before it.
proof fn pane_step(room: int, n: int, i: int)
    requires
        n >= 1,
        room >= 0,
        0 <= i,
    ensures
        pane_offset(room, n, i + 1) == pane_offset(room, n, i) + pane_width(room, n, i) + 1,
{
    let q = room / n;
    assert((i + 1) * q == i * q + q) by (nonlinear_arith);
}

/// The panes and their separators tile an area: each pane starts one column
/// past the end of the one before it, the last pane ends at the area's right
/// edge, and the panes' widths differ by at most a column, the wider first.
pub proof fn panes_tile(width: int, n: int, i: int, j: int)
    requires
        n >= 1,
        width >= n - 1,
        0 <= i <= j < n,
    ensures
        ({
            let room = pane_room(width, n);
            &&& j + 1 < n ==> pane_offset(room, n, j + 1) == pane_offset(room, n, j) + pane_width(room, n, j) + 1
            &&& pane_offset(room, n, n - 1) + pane_width(room, n, n - 1) == width
            &&& pane_width(room, n, j) <= pane_width(room, n, i) <= pane_width(room, n, j) + 1
        }),
{
    let room = pane_room(width, n);
    let q = room / n;
    let r = room % n;
    vstd::arithmetic::div_mod::lemma_fundamental_div_mod(room, n);
    vstd::arithmetic::div_mod::lemma_mod_bound(room, n);
    pane_step(room, n, j);
    assert((n - 1) * q + q == n * q) by (nonlinear_arith);
    assert(n * q == q * n) by (nonlinear_arith);
}

/// Every pane ends inside the tiled span.
proof fn pane_end_bound(room: int, n: int, i: int)
    requires
        n >= 1,
        room >= 0,
        0 <= i < n,
    ensures
        pane_offset(room, n, i) + pane_width(room, n, i) <= room + n - 1,
        pane_offset(room, n, i) >= 0,
{
    let q = room / n;
    let r = room % n;
    vstd::arithmetic::div_mod::lemma_fundamental_div_mod(room, n);
    vstd::arithmetic::div_mod::lemma_mod_bound(room, n);
    assert(q >= 0) by (nonlinear_arith)
        requires
            room >= 0,
            n >= 1,
            q == room / n,
    ;
    assert((i + 1) * q <= n * q) by (nonlinear_arith)
        requires
            i + 1 <= n,
            q >= 0,
    ;
    assert((i + 1) * q == i * q + q) by (nonlinear_arith);
    assert(n * q == q * n) by (nonlinear_arith);
    assert(i * q >= 0) by (nonlinear_arith)
        requires
            i >= 0,
            q >= 0,
    ;
}

/// Split an area `width` columns wide starting at column `x` into `n` panes
/// with a one-column separator between each two: the panes (start, width)
/// and the separators' columns, left to right.
pub fn split_panes(x: u16, width: u16, n: u16) -> (r: (Vec<(u16, u16)>, Vec<u16>))
    requires
        n >= 1,
        x + (if width >= n - 1 { width as int } else { n - 1 }) <= u16::MAX,
    ensures
        r.0@.len() == n,
        r.1@.len() == n - 1,
        forall|i: int| 0 <= i < n ==> #[trigger] r.0@[i] == (
            (x + pane_offset(pane_room(width as int, n as int), n as int, i)) as u16,
            pane_width(pane_room(width as int, n as int), n as int, i) as u16,
        ),
        forall|i: int| 0 <= i < n - 1 ==> #[trigger] r.1@[i] == (x + pane_offset(pane_room(width as int, n as int), n as int, i)
            + pane_width(pane_room(width as int, n as int), n as int, i)) as u16,
{
    let room: u32 = if width >= n - 1 { (width - (n - 1)) as u32 } else { 0 };
    let share: u32 = room / (n as u32);
    let rem: u32 = room % (n as u32);
    let ghost nn = n as int;
    let mut panes: Vec<(u16, u16)> = Vec::new();
    let mut seps: Vec<u16> = Vec::new();
    let mut cur: u32 = x as u32;
    let mut i: u16 = 0;
    while i < n
        invariant
            i <= n,
            n >= 1,
            room == pane_room(width as int, nn),
            nn == n,
            share == (room as int) / nn,
            rem == (room as int) % nn,
            x + room + n - 1 <= u16::MAX,
            i < n ==> cur == x + pane_offset(room as int, nn, i as int),
            panes@.len() == i,
            seps@.len() == (if i == n { n - 1 } else { i as int }),
            forall|k: int| 0 <= k < i ==> #[trigger] panes@[k] == (
                (x + pane_offset(room as int, nn, k)) as u16,
                pane_width(room as int, nn, k) as u16,
            ),
            forall|k: int| 0 <= k < seps@.len() ==> #[trigger] seps@[k] == (x + pane_offset(room as int, nn, k) + pane_width(room as int, nn, k)) as u16,
        decreases n - i,
    {
        proof {
            pane_end_bound(room as int, nn, i as int);
            pane_step(room as int, nn, i as int);
        }
        let w: u32 = share + if (i as u32) < rem { 1 } else { 0 };
        assert(w == pane_width(room as int, nn, i as int));
        panes.push((cur as u16, w as u16));
        cur = cur + w;
        if i + 1 < n {
            seps.push(cur as u16);
            cur = cur + 1;
        }
        i = i + 1;
    }
    (panes, seps)
}

impl DiffView {
    /// Whether the Base pane shows in an area `width` columns wide: a
    /// conflict view whose conflicts carry a base, the pane switched on, and
    /// room for four columns.
    pub fn shows_base_pane(&self, width: u16) -> (r: bool)
        ensures
            r == (self.kind == ViewKind::Conflict && self.show_base && self.has_base && width >= 100),
    {
        self.kind == ViewKind::Conflict && self.show_base && self.has_base && width >= 100
    }

    /// The panes of an area `width` columns wide starting at `x`: Base (when
    /// it shows), Current, Result and Incoming, with the separators between.
    pub fn panes(&self, x: u16, width: u16) -> (r: (Vec<(u16, u16)>, Vec<u16>))
        requires
            x + width <= u16::MAX,
            width >= 3,
        ensures
            ({
                let n: int = if self.kind == ViewKind::Conflict && self.show_base && self.has_base && width >= 100 { 4 } else { 3 };
                &&& r.0@.len() == n
                &&& r.1@.len() == n - 1
                &&& forall|i: int| 0 <= i < n ==> #[trigger] r.0@[i] == (
                    (x + pane_offset(pane_room(width as int, n), n, i)) as u16,
                    pane_width(pane_room(width as int, n), n, i) as u16,
                )
                &&& forall|i: int| 0 <= i < n - 1 ==> #[trigger] r.1@[i] == (x + pane_offset(pane_room(width as int, n), n, i)
                    + pane_width(pane_room(width as int, n), n, i)) as u16
            }),
    {
        let n: u16 = if self.shows_base_pane(width) { 4 } else { 3 };
        split_panes(x, width, n)
    }

    /// The line-number gutter's width: the digits of the largest line number
    /// any pane shows (at least one), and a space.
    pub fn gutter_width(&self) -> (g: usize)
        ensures
            g == decimal(max_lines(self.base_lines@.len(), self.doc_lines@.len(), self.base_pane_lines@.len()) as nat).len() + 1,
    {
        let mut most = self.base_lines.len();
        if self.doc_lines.len() > most {
            most = self.doc_lines.len();
        }
        if self.base_pane_lines.len() > most {
            most = self.base_pane_lines.len();
        }
        if most < 1 {
            most = 1;
        }
        let digits = decimal_string(most as u64);
        let k = digits.as_str().unicode_len();
        proof {
            decimal_short(most as nat);
        }
        assert(k < usize::MAX);
        k + 1
    }
}

/// The largest of three line counts, and at least one.
pub open spec fn max_lines(a: nat, b: nat, c: nat) -> nat {
    let m = if a >= b { a } else { b };
    let m = if m >= c { m } else { c };
    if m >= 1 { m } else { 1 }
}

/// A number's decimal form is well short of the number.
proof fn decimal_short(n: nat)
    requires
        n >= 1,
    ensures
        decimal(n).len() <= n / 2 + 1,
    decreases n,
{
    if n >= 10 {
        decimal_short(n / 10);
    }
}

/// The noun a view counts its blocks by.
pub open spec fn noun_of(kind: ViewKind) -> Seq<char> {
    match kind {
        ViewKind::Diff => "change"@,
        ViewKind::Conflict => "conflict"@,
    }
}

/// How many blocks count as resolved: in a diff those taking the left side,
/// in a conflict those no longer open.
pub open spec fn resolved_in(kind: ViewKind, blocks: Seq<Block>) -> nat {
    if kind == ViewKind::Diff {
        count_where(blocks, Resolution::Left, true)
    } else {
        count_where(blocks, Resolution::Unresolved, false)
    }
}

/// The title row: the file, how many changes or conflicts it has, and how
/// many are resolved.
pub open spec fn header_of(file: Seq<char>, kind: ViewKind, count: nat, resolved: nat) -> Seq<char> {
    " "@ + file + "  \u{2014}  "@ + decimal(count) + " "@ + noun_of(kind) + (if count == 1 { ""@ } else { "s"@ })
        + " \u{b7} "@ + decimal(resolved) + " resolved"@
}

/// The key hint and the two side panes' labels of a view of `kind`.
pub open spec fn labels_of(kind: ViewKind) -> (&'static str, &'static str, &'static str) {
    match kind {
        ViewKind::Diff => (", take HEAD   . take working   n/p nav   Enter apply   q cancel", " HEAD", " Working tree"),
        ViewKind::Conflict => (
            ", ours  . theirs  b both  u unresolve  B base  n/p nav  Enter apply  q cancel",
            " Current (ours)",
            " Incoming (theirs)",
        ),
    }
}

impl DiffView {
    /// The title row.
    pub fn header(&self) -> (r: String)
        ensures
            r@ == header_of(self.file_name@, self.kind, self.blocks@.len(), resolved_in(self.kind, self.blocks@)),
    {
        let count = self.blocks.len();
        let resolved = self.resolved_count();
        let mut r = String::from_str(" ");
        r.append(self.file_name.as_str());
        r.append("  \u{2014}  ");
        let c = decimal_string(count as u64);
        r.append(c.as_str());
        r.append(" ");
        match self.kind {
            ViewKind::Diff => r.append("change"),
            ViewKind::Conflict => r.append("conflict"),
        }
        if count != 1 {
            r.append("s");
        }
        r.append(" \u{b7} ");
        let d = decimal_string(resolved as u64);
        r.append(d.as_str());
        r.append(" resolved");
        proof {
            if count == 1 {
                assert(""@ =~= Seq::<char>::empty()) by {
                    reveal_strlit("");
                }
            }
        }
        assert(r@ =~= header_of(self.file_name@, self.kind, self.blocks@.len(), resolved_in(self.kind, self.blocks@)));
        r
    }

    /// The key hint and the two side panes' labels.
    pub fn labels(&self) -> (r: (&'static str, &'static str, &'static str))
        ensures
            r == labels_of(self.kind),
    {
        match self.kind {
            ViewKind::Diff => (", take HEAD   . take working   n/p nav   Enter apply   q cancel", " HEAD", " Working tree"),
            ViewKind::Conflict => (
                ", ours  . theirs  b both  u unresolve  B base  n/p nav  Enter apply  q cancel",
                " Current (ours)",
                " Incoming (theirs)",
            ),
        }
    }

    /// Whether the key hint fits on the title row of an area `width` columns
    /// wide beside `header`: their lengths in bytes, and three more, fall
    /// short of the width.
    pub fn hint_fits(&self, header: &str, width: u16) -> (r: bool)
        requires
            utf8_len(header@) + utf8_len(labels_of(self.kind).0@) + 3 <= usize::MAX,
        ensures
            r == (utf8_len(header@) + utf8_len(labels_of(self.kind).0@) + 3 < width),
    {
        let (hint, _, _) = self.labels();
        let a = byte_len(header);
        let b = byte_len(hint);
        a + b + 3 < width as usize
    }

    /// Take the body's height from an area `height` rows high: all but the
    /// two header rows.
    pub fn set_body(&mut self, height: u16)
        ensures
            *final(self) == (DiffView { viewport: (if height >= 2 { height - 2 } else { 0 }) as usize, ..*old(self) }),
    {
        self.viewport = if height >= 2 { (height - 2) as usize } else { 0 };
    }
}

} // verus!
