//! The rock a sector is flown through: one row of open channel per board
//! row, scrolling down the court as the ship flies up the map.

use vstd::prelude::*;

use super::consts::{GATE_GAP, GATE_PERIOD, H, MAZE_PERIOD, MAZE_WALL, PILLARS_PER_ROW, W};
use super::kinds::TerrainKind;
use crate::arith::{clamp16, lcg, lcg_next};

verus! {

/// `after` is `before` with its first `c` pulled out.
pub open spec fn pillar_pulled(before: Seq<i16>, c: i16, after: Seq<i16>) -> bool {
    exists|k: int| 0 <= k < before.len() && before[k] == c
        && (forall|j: int| 0 <= j < k ==> before[j] != c)
        && after == before.remove(k)
}

/// One row of the scrolling rock: the open channel, plus any column standing in
/// the middle of it.
#[derive(Debug)]
pub struct TerrainRow {
    /// Leftmost and rightmost flyable columns, inclusive.
    pub open: (i16, i16),
    /// Rock columns standing inside the channel, if this row grew any.
    pub pillars: Vec<i16>,
}

impl Clone for TerrainRow {
    fn clone(&self) -> (r: Self)
        ensures
            r.open == self.open,
            r.pillars@ == self.pillars@,
    {
        TerrainRow { open: self.open, pillars: self.pillars.clone() }
    }
}

impl TerrainRow {
    pub open spec fn spec_solid(&self, col: i16) -> bool {
        col < self.open.0 || col > self.open.1 || self.pillars@.contains(col)
    }

    /// Is the column rock on this row?
    #[verifier::when_used_as_spec(spec_solid)]
    pub fn solid(&self, col: i16) -> (r: bool)
        ensures
            r == self.spec_solid(col),
    {
        if col < self.open.0 || col > self.open.1 {
            return true;
        }
        let mut i: usize = 0;
        while i < self.pillars.len()
            invariant
                i <= self.pillars@.len(),
                forall|j: int| 0 <= j < i ==> self.pillars@[j] != col,
            decreases self.pillars@.len() - i,
        {
            if self.pillars[i] == col {
                return true;
            }
            i = i + 1;
        }
        false
    }

    /// The channel stays between the court walls and every pillar stands in it.
    pub open spec fn wf(&self) -> bool {
        &&& 1 <= self.open.0
        &&& self.open.0 <= self.open.1
        &&& self.open.1 <= W - 2
        &&& forall|j: int| 0 <= j < self.pillars@.len() ==> 0 <= #[trigger] self.pillars@[j] < W
    }
}

/// The rock the sector is flown through: one row per board row, scrolling down
/// the court as the ship flies up the map.
#[derive(Debug)]
pub struct Terrain {
    pub kind: TerrainKind,
    /// Indexed by board row; row zero is the top of the court.
    pub rows: Vec<TerrainRow>,
    pub centre: i16,
    pub width: i16,
    pub drift: i16,
    pub squeeze: i16,
    /// Rows generated so far, which is what paces gates and maze walls.
    pub phase: u32,
    pub rng: u64,
}

impl Clone for Terrain {
    fn clone(&self) -> (r: Self)
        ensures
            r.kind == self.kind,
            r.rows@.len() == self.rows@.len(),
            r.centre == self.centre,
            r.width == self.width,
            r.drift == self.drift,
            r.squeeze == self.squeeze,
            r.phase == self.phase,
            r.rng == self.rng,
    {
        Terrain {
            kind: self.kind,
            rows: self.rows.clone(),
            centre: self.centre,
            width: self.width,
            drift: self.drift,
            squeeze: self.squeeze,
            phase: self.phase,
            rng: self.rng,
        }
    }
}

impl Terrain {
    /// The walk that generates the rock keeps its state in bounds, and every
    /// row it has laid down stays between the walls.
    pub open spec fn wf(&self) -> bool {
        &&& self.drift == 1 || self.drift == -1
        &&& self.squeeze == 1 || self.squeeze == -1
        &&& 1 <= self.centre <= W - 2
        &&& 0 <= self.width <= W
        &&& forall|i: int| 0 <= i < self.rows@.len() ==> #[trigger] self.rows@[i].wf()
    }

    /// Rock of `kind`, a full court of it laid out from `seed`.
    pub fn new(kind: TerrainKind, seed: u64) -> (r: Terrain)
        ensures
            r.kind == kind,
            r.rows@.len() == H,
            r.wf(),
            forall|i: int| 0 <= i < H ==> (#[trigger] r.rows@[i]).pillars@.len() <= PILLARS_PER_ROW,
            forall|i: int, j: int| 0 <= i < H && 0 <= j < r.rows@[i].pillars@.len()
                ==> r.rows@[i].open.0 <= #[trigger] r.rows@[i].pillars@[j] <= r.rows@[i].open.1,
            kind.spec_pillar_chance() == 0 && kind != TerrainKind::Spine
                ==> forall|i: int| 0 <= i < H ==> (#[trigger] r.rows@[i]).pillars@.len() == 0,
            kind == TerrainKind::Open ==> forall|i: int| 0 <= i < H ==> (#[trigger] r.rows@[i]).open == (1i16, (W - 2) as i16),
            kind == TerrainKind::Spine ==> forall|i: int| 0 <= i < H ==> {
                &&& (#[trigger] r.rows@[i]).open == (2i16, (W - 3) as i16)
                &&& r.rows@[i].pillars@.len() == 2
            },
    {
        let (_min, max) = kind.width_range();
        let mut terrain = Terrain {
            kind,
            rows: Vec::new(),
            centre: W / 2,
            width: max,
            drift: 1,
            squeeze: -1,
            phase: 0,
            rng: seed | 1,
        };
        let mut i: i16 = 0;
        while i < H
            invariant
                0 <= i <= H,
                terrain.kind == kind,
                terrain.rows@.len() == i,
                terrain.wf(),
                kind == TerrainKind::Open ==> terrain.centre == W / 2 && terrain.width == W - 2,
                forall|j: int| 0 <= j < i ==> (#[trigger] terrain.rows@[j]).pillars@.len() <= PILLARS_PER_ROW,
                forall|j: int, q: int| 0 <= j < i && 0 <= q < terrain.rows@[j].pillars@.len()
                    ==> terrain.rows@[j].open.0 <= #[trigger] terrain.rows@[j].pillars@[q] <= terrain.rows@[j].open.1,
                kind.spec_pillar_chance() == 0 && kind != TerrainKind::Spine
                    ==> forall|j: int| 0 <= j < i ==> (#[trigger] terrain.rows@[j]).pillars@.len() == 0,
                kind == TerrainKind::Open ==> forall|j: int| 0 <= j < i ==> (#[trigger] terrain.rows@[j]).open == (1i16, (W - 2) as i16),
                kind == TerrainKind::Spine ==> forall|j: int| 0 <= j < i ==> {
                    &&& (#[trigger] terrain.rows@[j]).open == (2i16, (W - 3) as i16)
                    &&& terrain.rows@[j].pillars@.len() == 2
                },
            decreases H - i,
        {
            let row = terrain.generate();
            terrain.rows.push(row);
            i = i + 1;
        }
        terrain
    }

    /// The same LCG PRNG the other games use.
    pub fn rand(&mut self) -> (r: u64)
        ensures
            final(self).rng == lcg_next(old(self).rng),
            r == final(self).rng >> 33,
            r < 0x8000_0000,
            final(self).kind == old(self).kind,
            final(self).rows == old(self).rows,
            final(self).centre == old(self).centre,
            final(self).width == old(self).width,
            final(self).drift == old(self).drift,
            final(self).squeeze == old(self).squeeze,
            final(self).phase == old(self).phase,
    {
        let (next, out) = lcg(self.rng);
        self.rng = next;
        out
    }

    /// Walk the channel one row on: the centre wanders, the width breathes
    /// between the kind's limits, and some rows grow a pillar.
    #[verifier::loop_isolation(false)]
    pub fn generate(&mut self) -> (r: TerrainRow)
        requires
            old(self).wf(),
        ensures
            final(self).wf(),
            r.wf(),
            final(self).kind == old(self).kind,
            final(self).rows == old(self).rows,
            final(self).phase == old(self).phase.wrapping_add(1),
            r.pillars@.len() <= PILLARS_PER_ROW,
            forall|j: int| 0 <= j < r.pillars@.len() ==> r.open.0 <= #[trigger] r.pillars@[j] <= r.open.1,
            forall|i: int, j: int| 0 <= i < j < r.pillars@.len() ==> r.pillars@[i] != r.pillars@[j],
            old(self).kind.spec_pillar_chance() == 0 && old(self).kind != TerrainKind::Spine ==> r.pillars@.len() == 0,
            old(self).kind == TerrainKind::Spine ==> {
                &&& r.open == (2i16, (W - 3) as i16)
                &&& r.pillars@.len() == 2
                &&& r.pillars@[1] == r.pillars@[0] + 1
            },
            old(self).kind == TerrainKind::Open ==> {
                &&& final(self).centre == old(self).centre
                &&& final(self).width == old(self).width
                &&& (old(self).centre == W / 2 && old(self).width == W - 2 ==> r.open == (1i16, (W - 2) as i16))
            },
    {
        self.phase = self.phase.wrapping_add(1);
        match self.kind {
            // A bulkhead every few rows, with one gap to thread.
            TerrainKind::Gates => {
                return if self.phase % GATE_PERIOD == 0 {
                    let gap = GATE_GAP;
                    let centre = (self.rand() % (W as u64 - gap as u64 - 4)) as i16 + gap / 2 + 2;
                    TerrainRow { open: (centre - gap / 2, centre + gap / 2), pillars: Vec::new() }
                } else {
                    TerrainRow { open: (1, W - 2), pillars: Vec::new() }
                };
            },
            // A spine of rock down the middle, wandering as it goes.
            TerrainKind::Spine => {
                if self.rand() % 4 == 0 {
                    self.drift = -self.drift;
                }
                self.centre = clamp16(self.centre + self.drift, 8, W - 9);
                return TerrainRow {
                    open: (2, W - 3),
                    pillars: vec![self.centre, self.centre + 1],
                };
            },
            // Half-walls, alternating sides every few rows.
            TerrainKind::Maze => {
                let block = self.phase / MAZE_PERIOD;
                let open = if self.phase % MAZE_PERIOD >= MAZE_WALL {
                    (1, W - 2)
                } else if block % 2 == 0 {
                    (W / 4, W - 2)
                } else {
                    (1, 3 * W / 4)
                };
                return TerrainRow { open, pillars: Vec::new() };
            },
            _ => {},
        }
        let (min, max) = self.kind.width_range();
        let wander = self.kind.wander();
        assert(0 <= wander <= 2);
        assert(self.drift == 1 || self.drift == -1);
        if wander > 0 {
            if self.rand() % 3 == 0 {
                self.drift = -self.drift;
            }
            self.centre = clamp16(self.centre + self.drift * wander, min / 2 + 2, W - min / 2 - 2);
            self.width = clamp16(self.width + self.squeeze, min, max);
            if self.width == min || self.width == max {
                self.squeeze = -self.squeeze;
            }
        }
        let half = self.width / 2;
        let lo = if self.centre - half > 1 { self.centre - half } else { 1 };
        let hi = if self.centre + half < W - 2 { self.centre + half } else { W - 2 };
        let open = (lo, hi);
        let chance = self.kind.pillar_chance();
        let mut pillars: Vec<i16> = Vec::new();
        assert(chance > 0 ==> open.1 - open.0 > 2);
        if chance > 0 {
            let span: u64 = if open.1 - open.0 > 2 { (open.1 - open.0) as u64 } else { 2 };
            let mut k: usize = 0;
            while k < PILLARS_PER_ROW
                invariant
                    k <= PILLARS_PER_ROW,
                    span == (if open.1 - open.0 > 2 { (open.1 - open.0) as u64 } else { 2u64 }),
                    1 <= open.0,
                    open.1 <= W - 2,
                    chance > 0,
                    self.wf(),
                    self.kind == old(self).kind,
                    self.rows == old(self).rows,
                    self.phase == old(self).phase.wrapping_add(1),
                    pillars@.len() <= k,
                    open.1 - open.0 > 2,
                    forall|j: int| 0 <= j < pillars@.len() ==> 0 <= #[trigger] pillars@[j] < W,
                    forall|j: int| 0 <= j < pillars@.len() ==> open.0 <= #[trigger] pillars@[j] <= open.1,
                    forall|i: int, j: int| 0 <= i < j < pillars@.len() ==> pillars@[i] != pillars@[j],
                decreases PILLARS_PER_ROW - k,
            {
                if self.rand() % chance == 0 {
                    let off = self.rand() % (span - 1);
                    assert(off < span - 1);
                    let col = open.0 + 1 + off as i16;
                    assert(0 <= col < W);
                    let mut seen = false;
                    let mut j: usize = 0;
                    while j < pillars.len()
                        invariant
                            j <= pillars@.len(),
                            seen == (exists|m: int| 0 <= m < j && pillars@[m] == col),
                        decreases pillars@.len() - j,
                    {
                        if pillars[j] == col {
                            seen = true;
                        }
                        j = j + 1;
                    }
                    if !seen {
                        let ghost prev = pillars@;
                        pillars.push(col);
                        assert(forall|m: int| 0 <= m < prev.len() ==> prev[m] != col);
                    }
                }
                k = k + 1;
            }
        }
        TerrainRow { open, pillars }
    }

    /// Scroll the rock one row down the court, generating a fresh row on top.
    pub fn scroll(&mut self)
        requires
            old(self).wf(),
            old(self).rows@.len() > 0,
        ensures
            final(self).wf(),
            final(self).kind == old(self).kind,
            final(self).rows@.len() == old(self).rows@.len(),
            final(self).rows@.subrange(1, final(self).rows@.len() as int) == old(self).rows@.subrange(0, old(self).rows@.len() - 1),
    {
        let row = self.generate();
        self.rows.pop();
        self.rows.insert(0, row);
        assert(self.rows@.subrange(1, self.rows@.len() as int) =~= old(self).rows@.subrange(0, old(self).rows@.len() - 1));
    }

    pub open spec fn spec_solid(&self, r: i16, c: i16) -> bool {
        let i: int = if r > 0 { r as int } else { 0 };
        self.kind != TerrainKind::Open && i < self.rows@.len() && self.rows@[i].spec_solid(c)
    }

    /// Is the cell rock?
    #[verifier::when_used_as_spec(spec_solid)]
    pub fn solid(&self, r: i16, c: i16) -> (res: bool)
        ensures
            res == self.spec_solid(r, c),
    {
        if self.kind == TerrainKind::Open {
            return false;
        }
        let i: usize = if r > 0 { r as usize } else { 0 };
        if i < self.rows.len() {
            self.rows[i].solid(c)
        } else {
            false
        }
    }

    /// Blast a cell of rock away, where the kind allows it: a pillar goes
    /// first, otherwise the wall on that side steps back a column (never past
    /// the court's own walls).
    #[verifier::loop_isolation(false)]
    pub fn carve(&mut self, r: i16, c: i16) -> (res: bool)
        requires
            old(self).wf(),
        ensures
            final(self).wf(),
            final(self).kind == old(self).kind,
            final(self).rows@.len() == old(self).rows@.len(),
            !old(self).kind.spec_destructible() ==> !res && final(self).rows == old(self).rows,
            res ==> old(self).kind.spec_destructible(),
            ({
                let i: int = if r > 0 { r as int } else { 0 };
                i >= old(self).rows@.len() ==> !res && final(self).rows == old(self).rows
            }),
            ({
                let i: int = if r > 0 { r as int } else { 0 };
                forall|j: int| 0 <= j < old(self).rows@.len() && j != i ==> #[trigger] final(self).rows@[j] == old(self).rows@[j]
            }),
            ({
                let i: int = if r > 0 { r as int } else { 0 };
                (old(self).kind.spec_destructible() && i < old(self).rows@.len() && !old(self).rows@[i].spec_solid(c)) ==> !res && final(self).rows == old(self).rows
            }),
            ({
                let i: int = if r > 0 { r as int } else { 0 };
                (old(self).kind.spec_destructible() && i < old(self).rows@.len() && old(self).rows@[i].spec_solid(c)) ==> res
            }),
            ({
                let i: int = if r > 0 { r as int } else { 0 };
                let o = old(self).rows@[i];
                let n = final(self).rows@[i];
                (old(self).kind.spec_destructible() && i < old(self).rows@.len() && o.spec_solid(c)) ==> {
                    if o.pillars@.contains(c) {
                        &&& n.open == o.open
                        &&& pillar_pulled(o.pillars@, c, n.pillars@)
                    } else if c < o.open.0 {
                        &&& n.open == ((if o.open.0 - 1 > 1 { o.open.0 - 1 } else { 1 }) as i16, o.open.1)
                        &&& n.pillars@ == o.pillars@
                    } else {
                        &&& n.open == (o.open.0, (if o.open.1 + 1 < W - 2 { o.open.1 + 1 } else { W - 2 }) as i16)
                        &&& n.pillars@ == o.pillars@
                    }
                }
            }),
    {
        if !self.kind.destructible() {
            return false;
        }
        let i: usize = if r > 0 { r as usize } else { 0 };
        if i >= self.rows.len() {
            return false;
        }
        let mut row = self.rows[i].clone();
        assert(self.rows@[i as int].wf());
        assert(row.wf());
        let mut k: usize = 0;
        while k < row.pillars.len()
            invariant
                k <= row.pillars@.len(),
                i < self.rows@.len(),
                row.wf(),
                row.open == self.rows@[i as int].open,
                row.pillars@ == self.rows@[i as int].pillars@,
                self.kind == old(self).kind,
                self.rows == old(self).rows,
                self.wf(),
                forall|j: int| 0 <= j < k ==> row.pillars@[j] != c,
            decreases row.pillars@.len() - k,
        {
            if row.pillars[k] == c {
                let ghost before = row.pillars@;
                assert(before.contains(c));
                row.pillars.remove(k);
                assert(forall|j: int| 0 <= j < row.pillars@.len() ==> #[trigger] row.pillars@[j] == before[if j < k { j } else { j + 1 }]);
                assert(row.wf());
                assert(row.pillars@ == before.remove(k as int));
                assert(before == old(self).rows@[i as int].pillars@);
                assert(before[k as int] == c);
                assert(forall|j: int| 0 <= j < k ==> before[j] != c);
                self.rows.set(i, row);
                assert(self.rows@[i as int] == row);
                proof {
                    let o = old(self).rows@[i as int];
                    let n = self.rows@[i as int];
                    assert(o.pillars@[k as int] == c);
                    assert(n.pillars@ == o.pillars@.remove(k as int));
                    assert(pillar_pulled(o.pillars@, c, n.pillars@));
                }
                return true;
            }
            k = k + 1;
        }
        assert(!row.pillars@.contains(c));
        let (lo, hi) = row.open;
        if c < lo {
            let lo2 = if lo - 1 > 1 { lo - 1 } else { 1 };
            let carved = TerrainRow { open: (lo2, hi), pillars: row.pillars };
            assert(carved.wf());
            self.rows.set(i, carved);
            return true;
        }
        if c > hi {
            let hi2 = if hi + 1 < W - 2 { hi + 1 } else { W - 2 };
            let carved = TerrainRow { open: (lo, hi2), pillars: row.pillars };
            assert(carved.wf());
            self.rows.set(i, carved);
            return true;
        }
        false
    }

    pub open spec fn spec_channel(&self, r: i16) -> (i16, i16) {
        let i: int = if r > 0 { r as int } else { 0 };
        if i < self.rows@.len() && self.kind != TerrainKind::Open {
            self.rows@[i].open
        } else {
            (1i16, (W - 2) as i16)
        }
    }

    /// The flyable span on a row, for keeping ships and spawns inside it.
    #[verifier::when_used_as_spec(spec_channel)]
    pub fn channel(&self, r: i16) -> (res: (i16, i16))
        ensures
            res == self.spec_channel(r),
            self.wf() ==> 1 <= res.0 <= res.1 <= W - 2,
    {
        let i: usize = if r > 0 { r as usize } else { 0 };
        proof {
            if self.wf() && i < self.rows@.len() {
                assert(self.rows@[i as int].wf());
            }
        }
        if i < self.rows.len() && self.kind != TerrainKind::Open {
            self.rows[i].open
        } else {
            (1, W - 2)
        }
    }
}

} // verus!
