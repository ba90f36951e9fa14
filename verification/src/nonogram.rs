//! Nonogram: reconstruct a hidden picture from the lengths of the filled runs
//! in every row and column. The clue derivation and the solved check live
//! here; the board is one of a few embedded bitmaps picked by a small LCG, so
//! a seed is reproducible.

use vstd::prelude::*;
use vstd::string::StrSliceExecFns;

use crate::arith::{lcg, lcg_next};
use crate::keys::Key;

verus! {

/// Rows and columns on the board.
pub const N: usize = 10;

/// How many puzzles are embedded.
pub const PUZZLES: usize = 3;

/// What the player has done to a cell.
#[derive(Clone, Copy, PartialEq, Eq, Debug, Structural)]
pub enum Cell {
    Empty,
    Filled,
    Marked,
}

/// The embedded solution bitmaps, `#` for a filled cell.
pub open spec fn spec_puzzle(pick: int) -> Seq<&'static str> {
    if pick == 0 {
        // A heart.
        seq![
            ".##....##.", "####..####", "##########", "##########", "##########",
            ".########.", "..######..", "...####...", "....##....", "..........",
        ]
    } else if pick == 1 {
        // A smiley face.
        seq![
            "..######..", ".########.", "##.####.##", "##.####.##", "##########",
            "##.####.##", "###....###", "##.####.##", ".########.", "..######..",
        ]
    } else {
        // An arrow pointing up.
        seq![
            "....##....", "...####...", "..######..", ".########.", "##########",
            "....##....", "....##....", "....##....", "....##....", "....##....",
        ]
    }
}

/// The bitmap of embedded puzzle `pick`.
pub fn puzzle(pick: usize) -> (r: [&'static str; 10])
    requires
        pick < PUZZLES,
    ensures
        r@ == spec_puzzle(pick as int),
{
    if pick == 0 {
        [
            ".##....##.", "####..####", "##########", "##########", "##########",
            ".########.", "..######..", "...####...", "....##....", "..........",
        ]
    } else if pick == 1 {
        [
            "..######..", ".########.", "##.####.##", "##.####.##", "##########",
            "##.####.##", "###....###", "##.####.##", ".########.", "..######..",
        ]
    } else {
        [
            "....##....", "...####...", "..######..", ".########.", "##########",
            "....##....", "....##....", "....##....", "....##....", "....##....",
        ]
    }
}

/// Whether cell `(r, c)` of a bitmap is filled: a `#` within the row's text.
pub open spec fn art_filled(art: Seq<&'static str>, r: int, c: int) -> bool {
    c < art[r]@.len() && art[r]@[c] == '#'
}

/// The run-length scan of a line: the finished runs so far, and the length of
/// the run still open at its end.
pub open spec fn scan(s: Seq<bool>) -> (Seq<u32>, nat)
    decreases s.len(),
{
    if s.len() == 0 {
        (Seq::empty(), 0)
    } else {
        let (out, run) = scan(s.drop_last());
        if s.last() {
            (out, run + 1)
        } else if run > 0 {
            (out.push(run as u32), 0)
        } else {
            (out, 0)
        }
    }
}

/// The clue numbers of a line: the lengths of its filled runs in order, or a
/// single `0` for a line with none.
pub open spec fn clues(s: Seq<bool>) -> Seq<u32> {
    let (out, run) = scan(s);
    let all = if run > 0 { out.push(run as u32) } else { out };
    if all.len() == 0 { seq![0u32] } else { all }
}

/// How many cells of a line are filled.
pub open spec fn count_filled(s: Seq<bool>) -> nat
    decreases s.len(),
{
    if s.len() == 0 {
        0
    } else {
        count_filled(s.drop_last()) + if s.last() { 1nat } else { 0nat }
    }
}

/// The sum of a list of clue numbers.
pub open spec fn total(s: Seq<u32>) -> nat
    decreases s.len(),
{
    if s.len() == 0 {
        0
    } else {
        total(s.drop_last()) + s.last() as nat
    }
}

proof fn scan_counts(s: Seq<bool>)
    requires
        s.len() <= u32::MAX,
    ensures
        total(scan(s).0) + scan(s).1 == count_filled(s),
        scan(s).1 <= s.len(),
    decreases s.len(),
{
    if s.len() > 0 {
        scan_counts(s.drop_last());
        let (out, run) = scan(s.drop_last());
        if !s.last() && run > 0 {
            assert(out.push(run as u32).drop_last() =~= out);
        }
    }
}

/// Every filled cell of a line is counted by exactly one clue: the clues add
/// up to the number of filled cells.
pub proof fn clues_count_every_filled_cell(s: Seq<bool>)
    requires
        s.len() <= u32::MAX,
    ensures
        total(clues(s)) == count_filled(s),
{
    scan_counts(s);
    let (out, run) = scan(s);
    if run > 0 {
        assert(out.push(run as u32).drop_last() =~= out);
    }
    let all = if run > 0 { out.push(run as u32) } else { out };
    if all.len() == 0 {
        let z = seq![0u32];
        assert(z.drop_last() =~= Seq::<u32>::empty());
        assert(z.last() == 0);
        assert(total(z) == total(z.drop_last()) + z.last() as nat);
        assert(total(z) == 0);
    }
}

/// The runs of a line finished so far: those closed, and the open one when
/// there is one.
pub open spec fn finished(s: Seq<bool>) -> Seq<u32> {
    if scan(s).1 > 0 { scan(s).0.push(scan(s).1 as u32) } else { scan(s).0 }
}

/// A line whose last cell is empty has no run open, and its finished runs
/// are those of the line without that cell.
proof fn closed_by_empty(s: Seq<bool>)
    ensures
        scan(s.push(false)).1 == 0,
        scan(s.push(false)).0 == finished(s),
{
    assert(s.push(false).drop_last() =~= s);
}

/// After a stretch with no run open, the scan of what follows carries on
/// from its runs: its closed runs follow them, and its open run is the
/// follower's own.
proof fn scan_after_closed(x: Seq<bool>, t: Seq<bool>)
    requires
        scan(x).1 == 0,
    ensures
        scan(x + t) == (scan(x).0 + scan(t).0, scan(t).1),
    decreases t.len(),
{
    if t.len() == 0 {
        assert(x + t =~= x);
        assert(scan(x).0 + Seq::<u32>::empty() =~= scan(x).0);
    } else {
        scan_after_closed(x, t.drop_last());
        assert((x + t).drop_last() =~= x + t.drop_last());
        assert((x + t).last() == t.last());
        let (o, r) = scan(t.drop_last());
        if !t.last() && r > 0 {
            assert(scan(x).0 + o.push(r as u32) =~= (scan(x).0 + o).push(r as u32));
        }
    }
}

/// Every closed run counts at least one cell.
proof fn runs_positive(s: Seq<bool>)
    requires
        s.len() <= u32::MAX,
    ensures
        forall|i: int| 0 <= i < scan(s).0.len() ==> #[trigger] scan(s).0[i] > 0,
    decreases s.len(),
{
    if s.len() > 0 {
        runs_positive(s.drop_last());
        scan_counts(s.drop_last());
        let (o, r) = scan(s.drop_last());
        if !s.last() && r > 0 {
            assert forall|i: int| 0 <= i < o.push(r as u32).len() implies #[trigger] o.push(r as u32)[i] > 0 by {
                if i < o.len() {
                    assert(o.push(r as u32)[i] == o[i]);
                }
            }
        }
    }
}

/// A line has a finished run exactly when it has a filled cell.
proof fn runs_iff_filled(s: Seq<bool>)
    requires
        s.len() <= u32::MAX,
    ensures
        (finished(s).len() > 0) == (count_filled(s) > 0),
{
    scan_counts(s);
    runs_positive(s);
    let (out, run) = scan(s);
    if run > 0 {
        assert(out.push(run as u32).drop_last() =~= out);
    }
    if out.len() > 0 && run == 0 {
        assert(out.drop_last().push(out.last()) =~= out);
        assert(total(out) >= out.last());
    }
}

/// The clues of a line split at an empty cell are the clues of the two
/// sides, one after the other, when each side has a filled cell: no run is
/// merged across the gap and none is lost.
pub proof fn clues_split_at_a_gap(s: Seq<bool>, t: Seq<bool>)
    requires
        s.len() + t.len() + 1 <= u32::MAX,
        count_filled(s) > 0,
        count_filled(t) > 0,
    ensures
        clues(s + seq![false] + t) == clues(s) + clues(t),
{
    closed_by_empty(s);
    assert(s + seq![false] =~= s.push(false));
    scan_after_closed(s.push(false), t);
    assert(s + seq![false] + t =~= s.push(false) + t);
    runs_iff_filled(s);
    runs_iff_filled(t);
    let (o, r) = scan(t);
    if r > 0 {
        assert(finished(s) + o.push(r as u32) =~= (finished(s) + o).push(r as u32));
    }
}

/// A solid run of `n` filled cells has the single clue `n`.
pub proof fn a_solid_run_is_one_clue(n: nat)
    requires
        0 < n <= u32::MAX,
    ensures
        clues(Seq::new(n, |i: int| true)) == seq![n as u32],
    decreases n,
{
    solid_scan(n);
}

proof fn solid_scan(n: nat)
    ensures
        scan(Seq::new(n, |i: int| true)) == (Seq::<u32>::empty(), n),
    decreases n,
{
    if n > 0 {
        solid_scan((n - 1) as nat);
        assert(Seq::new(n, |i: int| true).drop_last() =~= Seq::new((n - 1) as nat, |i: int| true));
    }
}

/// A line with no filled cell has the single clue `0`.
pub proof fn an_empty_line_is_clued_zero(s: Seq<bool>)
    requires
        s.len() <= u32::MAX,
        count_filled(s) == 0,
    ensures
        clues(s) == seq![0u32],
{
    runs_iff_filled(s);
}

/// Empty cells before or after a line change none of its clues.
pub proof fn empty_edges_change_no_clue(s: Seq<bool>)
    ensures
        clues(seq![false] + s) == clues(s),
        clues(s.push(false)) == clues(s),
{
    assert(seq![false].drop_last() =~= Seq::<bool>::empty());
    assert(scan(Seq::<bool>::empty()).0 =~= Seq::<u32>::empty());
    assert(scan(seq![false]).0 =~= Seq::<u32>::empty() && scan(seq![false]).1 == 0);
    scan_after_closed(seq![false], s);
    assert(scan(seq![false]).0 + scan(s).0 =~= scan(s).0);
    closed_by_empty(s);
}

/// Run-length encode the filled runs of a line into clue numbers. A line with
/// no filled cell yields `[0]`, so every line has a clue to print.
pub fn line_clues(cells: &[bool]) -> (r: Vec<u32>)
    requires
        cells@.len() <= u32::MAX,
    ensures
        r@ == clues(cells@),
{
    let mut out: Vec<u32> = Vec::new();
    let mut run: u32 = 0;
    let mut i: usize = 0;
    while i < cells.len()
        invariant
            i <= cells@.len() <= u32::MAX,
            (out@, run as nat) == scan(cells@.subrange(0, i as int)),
            run <= i,
        decreases cells@.len() - i,
    {
        assert(cells@.subrange(0, i + 1).drop_last() =~= cells@.subrange(0, i as int));
        if cells[i] {
            run = run + 1;
        } else if run > 0 {
            out.push(run);
            run = 0;
        }
        i = i + 1;
    }
    assert(cells@.subrange(0, i as int) =~= cells@);
    if run > 0 {
        out.push(run);
    }
    if out.len() == 0 {
        out.push(0);
    }
    out
}

/// `h` is the fresh board dealt from `seed`: nothing marked, the cursor top
/// left, and the puzzle the seed's first draw picks.
pub open spec fn dealt(seed: u64, h: Game) -> bool {
    &&& h.wf()
    &&& h.cursor == (0usize, 0usize)
    &&& forall|i: int| 0 <= i < N * N ==> #[trigger] h.cells@[i] == Cell::Empty
    &&& ({
        let pick = ((lcg_next(seed | 1) >> 33) % 3) as int;
        forall|row: int, col: int| 0 <= row < N && 0 <= col < N ==>
            #[trigger] h.solution@[row * 10 + col] == art_filled(spec_puzzle(pick), row, col)
    })
    &&& h.rng == lcg_next(seed | 1)
}

/// `h` is `g` with the cursor moved `dr` rows and `dc` columns, held on the
/// board.
pub open spec fn moved_by(g: Game, dr: int, dc: int, h: Game) -> bool {
    &&& h.cursor.0 == crate::arith::clamp_int(g.cursor.0 + dr, 0, N - 1)
    &&& h.cursor.1 == crate::arith::clamp_int(g.cursor.1 + dc, 0, N - 1)
    &&& h.solution == g.solution
    &&& h.cells == g.cells
    &&& h.rng == g.rng
}

/// `h` is `g` with the cell under the cursor toggled between filled and
/// empty, a marked cell becoming filled.
pub open spec fn fill_toggled(g: Game, h: Game) -> bool {
    let i = g.cursor.0 * 10 + g.cursor.1;
    &&& h.cells@ == g.cells@.update(i, if g.cells@[i] == Cell::Filled { Cell::Empty } else { Cell::Filled })
    &&& h.solution == g.solution
    &&& h.cursor == g.cursor
    &&& h.rng == g.rng
}

/// `h` is `g` with the cell under the cursor toggled between marked and
/// empty, a filled cell becoming marked.
pub open spec fn mark_toggled(g: Game, h: Game) -> bool {
    let i = g.cursor.0 * 10 + g.cursor.1;
    &&& h.cells@ == g.cells@.update(i, if g.cells@[i] == Cell::Marked { Cell::Empty } else { Cell::Marked })
    &&& h.solution == g.solution
    &&& h.cursor == g.cursor
    &&& h.rng == g.rng
}

/// `h` is `g` with every wrongly filled cell emptied.
pub open spec fn mistakes_cleared(g: Game, h: Game) -> bool {
    &&& h.cells@.len() == g.cells@.len()
    &&& forall|i: int| 0 <= i < N * N ==> #[trigger] h.cells@[i] == (
        if g.cells@[i] == Cell::Filled && !g.solution@[i] { Cell::Empty } else { g.cells@[i] }
    )
    &&& h.solution == g.solution
    &&& h.cursor == g.cursor
    &&& h.rng == g.rng
}

/// The pure nonogram board: the hidden solution, the player's marks, and the
/// cursor. Cells are indexed `row * N + col`.
pub struct Game {
    /// The hidden solution, `true` where a cell is filled.
    pub solution: Vec<bool>,
    /// The player's marks on each cell.
    pub cells: Vec<Cell>,
    /// Cursor as `(row, col)`.
    pub cursor: (usize, usize),
    pub rng: u64,
}

impl Game {
    /// The board has its hundred cells and the cursor stands on one of them.
    pub open spec fn wf(&self) -> bool {
        &&& self.solution@.len() == N * N
        &&& self.cells@.len() == N * N
        &&& self.cursor.0 < N
        &&& self.cursor.1 < N
    }

    /// A fresh board with nothing marked, the cursor top left, and the puzzle
    /// the seed picks.
    pub fn new(seed: u64) -> (r: Game)
        ensures
            r.wf(),
            dealt(seed, r),
    {
        let (next, out) = lcg(seed | 1);
        let pick = (out % 3) as usize;
        let art = puzzle(pick);
        let mut solution: Vec<bool> = Vec::new();
        let mut r: usize = 0;
        while r < N
            invariant
                r <= N,
                art@ == spec_puzzle(pick as int),
                solution@.len() == r * N,
                forall|row: int, col: int| 0 <= row < r && 0 <= col < N ==>
                    #[trigger] solution@[row * 10 + col] == art_filled(art@, row, col),
            decreases N - r,
        {
            let line = art[r];
            let len = line.unicode_len();
            let mut c: usize = 0;
            while c < N
                invariant
                    c <= N,
                    r < N,
                    art@ == spec_puzzle(pick as int),
                    line == art@[r as int],
                    len == line@.len(),
                    solution@.len() == r * N + c,
                    forall|row: int, col: int| 0 <= row < r && 0 <= col < N ==>
                        #[trigger] solution@[row * 10 + col] == art_filled(art@, row, col),
                    forall|col: int| 0 <= col < c ==> #[trigger] solution@[r * 10 + col] == art_filled(art@, r as int, col),
                decreases N - c,
            {
                let filled = c < len && line.get_char(c) == '#';
                solution.push(filled);
                c = c + 1;
            }
            r = r + 1;
        }
        let mut cells: Vec<Cell> = Vec::new();
        let mut i: usize = 0;
        while i < N * N
            invariant
                i <= N * N,
                cells@.len() == i,
                forall|j: int| 0 <= j < i ==> #[trigger] cells@[j] == Cell::Empty,
            decreases N * N - i,
        {
            cells.push(Cell::Empty);
            i = i + 1;
        }
        Game { solution, cells, cursor: (0, 0), rng: next }
    }

    /// Where the cursor is, as `(row, col)`.
    pub fn cursor(&self) -> (r: (usize, usize))
        ensures
            r == self.cursor,
    {
        self.cursor
    }

    /// Row `r` of the solution.
    pub open spec fn row_of(&self, r: int) -> Seq<bool> {
        Seq::new(N as nat, |c: int| self.solution@[r * 10 + c])
    }

    /// Column `c` of the solution.
    pub open spec fn col_of(&self, c: int) -> Seq<bool> {
        Seq::new(N as nat, |r: int| self.solution@[r * 10 + c])
    }

    /// The clue numbers for row `r`, left to right.
    pub fn row_clues(&self, r: usize) -> (res: Vec<u32>)
        requires
            self.wf(),
            r < N,
        ensures
            res@ == clues(self.row_of(r as int)),
    {
        let mut line: Vec<bool> = Vec::new();
        let mut c: usize = 0;
        while c < N
            invariant
                c <= N,
                r < N,
                self.wf(),
                line@ == self.row_of(r as int).subrange(0, c as int),
            decreases N - c,
        {
            line.push(self.solution[r * N + c]);
            c = c + 1;
        }
        assert(line@ =~= self.row_of(r as int));
        line_clues(line.as_slice())
    }

    /// The clue numbers for column `c`, top to bottom.
    pub fn col_clues(&self, c: usize) -> (res: Vec<u32>)
        requires
            self.wf(),
            c < N,
        ensures
            res@ == clues(self.col_of(c as int)),
    {
        let mut line: Vec<bool> = Vec::new();
        let mut r: usize = 0;
        while r < N
            invariant
                r <= N,
                c < N,
                self.wf(),
                line@ == self.col_of(c as int).subrange(0, r as int),
            decreases N - r,
        {
            line.push(self.solution[r * N + c]);
            r = r + 1;
        }
        assert(line@ =~= self.col_of(c as int));
        line_clues(line.as_slice())
    }

    /// Move the cursor by `(dr, dc)`, clamped to the board.
    pub fn move_cursor(&mut self, dr: i32, dc: i32)
        requires
            old(self).wf(),
        ensures
            final(self).wf(),
            moved_by(*old(self), dr as int, dc as int, *final(self)),
    {
        let r: i64 = self.cursor.0 as i64 + dr as i64;
        let c: i64 = self.cursor.1 as i64 + dc as i64;
        let r = if r < 0 { 0 } else if r > N as i64 - 1 { N as i64 - 1 } else { r };
        let c = if c < 0 { 0 } else if c > N as i64 - 1 { N as i64 - 1 } else { c };
        self.cursor = (r as usize, c as usize);
    }

    /// Toggle a filled cell under the cursor: Filled and Empty swap, and a
    /// marked cell becomes Filled.
    pub fn toggle_fill(&mut self)
        requires
            old(self).wf(),
        ensures
            final(self).wf(),
            fill_toggled(*old(self), *final(self)),
    {
        let i = self.cursor.0 * N + self.cursor.1;
        let next = match self.cells[i] {
            Cell::Filled => Cell::Empty,
            _ => Cell::Filled,
        };
        self.cells.set(i, next);
    }

    /// Toggle a "known empty" mark under the cursor: Marked and Empty swap,
    /// and a filled cell becomes Marked.
    pub fn toggle_mark(&mut self)
        requires
            old(self).wf(),
        ensures
            final(self).wf(),
            mark_toggled(*old(self), *final(self)),
    {
        let i = self.cursor.0 * N + self.cursor.1;
        let next = match self.cells[i] {
            Cell::Marked => Cell::Empty,
            _ => Cell::Marked,
        };
        self.cells.set(i, next);
    }

    /// Clear every filled cell that is not part of the solution.
    pub fn clear_mistakes(&mut self)
        requires
            old(self).wf(),
        ensures
            final(self).wf(),
            mistakes_cleared(*old(self), *final(self)),
    {
        let mut i: usize = 0;
        while i < self.cells.len()
            invariant
                i <= self.cells@.len(),
                self.wf(),
                self.solution == old(self).solution,
                self.cursor == old(self).cursor,
                self.rng == old(self).rng,
                forall|j: int| 0 <= j < i ==> #[trigger] self.cells@[j] == (
                    if old(self).cells@[j] == Cell::Filled && !old(self).solution@[j] { Cell::Empty } else { old(self).cells@[j] }
                ),
                forall|j: int| i <= j < N * N ==> #[trigger] self.cells@[j] == old(self).cells@[j],
            decreases self.cells@.len() - i,
        {
            if self.cells[i] == Cell::Filled && !self.solution[i] {
                self.cells.set(i, Cell::Empty);
            }
            i = i + 1;
        }
    }

    pub open spec fn spec_solved(&self) -> bool {
        forall|i: int| 0 <= i < self.solution@.len() ==> (#[trigger] self.cells@[i] == Cell::Filled) == self.solution@[i]
    }

    /// True when exactly the solution's cells are Filled and no others; marks
    /// do not matter.
    pub fn is_solved(&self) -> (r: bool)
        requires
            self.wf(),
        ensures
            r == self.spec_solved(),
    {
        let mut i: usize = 0;
        while i < self.solution.len()
            invariant
                i <= self.solution@.len(),
                self.wf(),
                forall|j: int| 0 <= j < i ==> (#[trigger] self.cells@[j] == Cell::Filled) == self.solution@[j],
            decreases self.solution@.len() - i,
        {
            let filled = self.cells[i] == Cell::Filled;
            if filled != self.solution[i] {
                return false;
            }
            i = i + 1;
        }
        true
    }
}

impl Default for Game {
    /// The board seeded with one.
    fn default() -> (r: Self)
        ensures
            r.wf(),
    {
        Game::new(1)
    }
}

/// The nonogram overlay: the board and the seed it was dealt from.
pub struct Nonogram {
    pub game: Game,
    pub seed: u64,
}

impl Nonogram {
    /// The board dealt from seed one.
    pub fn new() -> (r: Nonogram)
        ensures
            r.game.wf(),
            r.seed == 1,
            dealt(1, r.game),
    {
        Nonogram { game: Game::new(1), seed: 1 }
    }

    /// Deal a fresh board from the next seed.
    pub fn restart(&mut self)
        ensures
            final(self).seed == old(self).seed.wrapping_add(1),
            final(self).game.wf(),
            dealt(final(self).seed, final(self).game),
    {
        self.seed = self.seed.wrapping_add(1);
        self.game = Game::new(self.seed);
    }
}

/// `h` is `g` after a key that does not close the overlay: the arrows and
/// `h`/`j`/`k`/`l` move the cursor a cell, space fills or empties the cell
/// under it, `x` or `f` marks or unmarks it, `c` clears the mistakes, `n`
/// deals a board from the next seed, and any other key leaves all as it was.
pub open spec fn key_played(g: Nonogram, key: Key, h: Nonogram) -> bool {
    match key {
        Key::Left | Key::Char('h') => h.seed == g.seed && moved_by(g.game, 0, -1, h.game),
        Key::Right | Key::Char('l') => h.seed == g.seed && moved_by(g.game, 0, 1, h.game),
        Key::Up | Key::Char('k') => h.seed == g.seed && moved_by(g.game, -1, 0, h.game),
        Key::Down | Key::Char('j') => h.seed == g.seed && moved_by(g.game, 1, 0, h.game),
        Key::Char(' ') => h.seed == g.seed && fill_toggled(g.game, h.game),
        Key::Char('x') | Key::Char('f') => h.seed == g.seed && mark_toggled(g.game, h.game),
        Key::Char('c') => h.seed == g.seed && mistakes_cleared(g.game, h.game),
        Key::Char('n') => h.seed == g.seed.wrapping_add(1) && dealt(h.seed, h.game),
        _ => h == g,
    }
}

impl Nonogram {
    /// Read one key: quit, move the cursor, fill or mark the cell, clear the
    /// mistakes, or deal a new board. Whether the overlay closes.
    pub fn handle_key(&mut self, key: Key) -> (close: bool)
        requires
            old(self).game.wf(),
        ensures
            final(self).game.wf(),
            close == (key == Key::Char('q') || key == Key::Esc || key == Key::Ctrl('c')),
            close ==> final(self).game == old(self).game,
            !close ==> key_played(*old(self), key, *final(self)),
    {
        match key {
            Key::Char('q') | Key::Esc | Key::Ctrl('c') => {
                return true;
            },
            Key::Left | Key::Char('h') => self.game.move_cursor(0, -1),
            Key::Right | Key::Char('l') => self.game.move_cursor(0, 1),
            Key::Up | Key::Char('k') => self.game.move_cursor(-1, 0),
            Key::Down | Key::Char('j') => self.game.move_cursor(1, 0),
            Key::Char(' ') => self.game.toggle_fill(),
            Key::Char('x') | Key::Char('f') => self.game.toggle_mark(),
            Key::Char('c') => self.game.clear_mistakes(),
            Key::Char('n') => self.restart(),
            _ => {},
        }
        false
    }
}

} // verus!
