//! The galaxy chart: a grid of systems joined by lanes that run both ways,
//! most of it dark until it is flown.

use vstd::prelude::*;

use super::kinds::{Galaxy, NodeBonus, NodeKind, Region, Sector, TerrainKind, Weapon};
use crate::arith::{lcg, lcg_next};

verus! {

/// One system on the chart.
#[derive(Clone, Copy, PartialEq, Eq, Debug)]
pub struct MapNode {
    /// Where it sits on the chart, as `(column, row)`.
    pub pos: (usize, usize),
    /// The band of the galaxy it stands in.
    pub region: Region,
    pub kind: NodeKind,
    pub sector: Sector,
    pub terrain: TerrainKind,
    pub bonus: NodeBonus,
    pub cleared: bool,
    /// True once the chart has seen it.
    pub explored: bool,
}

/// The galaxy chart: a grid of systems, most of it dark until it is flown.
/// Lanes run both ways and neighbours link up in four directions, so the squad
/// roams rather than following a corridor.
#[derive(Debug)]
pub struct StarMap {
    pub galaxy: Galaxy,
    pub nodes: Vec<MapNode>,
    /// `grid[row][col]` is the system standing there, if any.
    pub grid: Vec<Vec<Option<usize>>>,
    pub lanes: Vec<Vec<usize>>,
    /// Which system the squad is parked at.
    pub at: usize,
    /// Which reachable system the chart cursor is on.
    pub cursor: usize,
    pub width: usize,
    pub height: usize,
}

/// Every lane leads to a system on the chart, no system has a lane to
/// itself or two to the same place, and every lane runs both ways.
pub open spec fn lanes_ok(lanes: Seq<Vec<usize>>) -> bool {
    &&& forall|a: int, j: int|
        0 <= a < lanes.len() && 0 <= j < lanes[a]@.len() ==> {
            let b = #[trigger] lanes[a]@[j];
            &&& b < lanes.len()
            &&& b != a
            &&& lanes[b as int]@.contains(a as usize)
        }
    &&& forall|a: int, j: int, k: int|
        0 <= a < lanes.len() && 0 <= j < k < lanes[a]@.len() ==> #[trigger] lanes[a]@[j] != #[trigger] lanes[a]@[k]
}

/// Chart order: by column, then by row.
pub open spec fn before(p: (usize, usize), q: (usize, usize)) -> bool {
    p.0 < q.0 || (p.0 == q.0 && p.1 <= q.1)
}

/// A system at `there` lies the way the cursor was pushed from `here`:
/// across by `dc` or up and down by `dr`, whichever was pressed.
pub open spec fn that_way(here: (usize, usize), there: (usize, usize), dc: int, dr: int) -> bool {
    (dc != 0 && crate::arith::sign(there.0 - here.0) == dc) || (dr != 0 && crate::arith::sign(there.1 - here.1) == dr)
}

/// How far apart two systems are on the chart, across and down together.
pub open spec fn chart_gap(here: (usize, usize), there: (usize, usize)) -> int {
    crate::arith::abs_int(there.0 - here.0) + crate::arith::abs_int(there.1 - here.1)
}

impl StarMap {
    /// The chart is consistent: its grid is `height` rows of `width` cells,
    /// each filled cell names the system standing there, the lanes are sound,
    /// and the squad and cursor stand on systems of this chart.
    pub open spec fn wf(&self) -> bool {
        &&& self.nodes@.len() > 0
        &&& self.width <= 1000
        &&& self.height <= 1000
        &&& self.lanes@.len() == self.nodes@.len()
        &&& lanes_ok(self.lanes@)
        &&& self.at < self.nodes@.len()
        &&& self.cursor < self.nodes@.len()
        &&& self.grid@.len() == self.height
        &&& forall|r: int| 0 <= r < self.height ==> #[trigger] self.grid@[r]@.len() == self.width
        &&& forall|r: int, c: int|
            0 <= r < self.height && 0 <= c < self.width && (#[trigger] self.grid@[r]@[c]) is Some ==> {
                let i = self.grid@[r]@[c]->0;
                i < self.nodes@.len() && self.nodes@[i as int].pos == (c as usize, r as usize)
            }
        &&& forall|i: int| 0 <= i < self.nodes@.len() ==> {
            let p = #[trigger] self.nodes@[i].pos;
            p.0 < self.width && p.1 < self.height
        }
    }

    /// The systems one lane away from the squad.
    pub open spec fn spec_lanes_here(&self) -> Seq<usize> {
        self.lanes@[self.at as int]@
    }
}

/// `p` stands strictly after `q` in chart order.
pub open spec fn after_pos(p: (usize, usize), q: (usize, usize)) -> bool {
    p.0 > q.0 || (p.0 == q.0 && p.1 > q.1)
}

/// Where a system standing at `px` goes into the chart-ordered list `v`:
/// ahead of the first one, from `k` on, that stands after it.
pub open spec fn slot_for(nodes: Seq<MapNode>, v: Seq<usize>, px: (usize, usize), k: int) -> int
    decreases v.len() - k,
{
    if k < 0 || k >= v.len() {
        v.len() as int
    } else if after_pos(nodes[v[k] as int].pos, px) {
        k
    } else {
        slot_for(nodes, v, px, k + 1)
    }
}

/// The first `n` systems of `s` put in chart order one by one, each ahead of
/// the first already placed that stands after it.
pub open spec fn chart_sorted(nodes: Seq<MapNode>, s: Seq<usize>, n: int) -> Seq<usize>
    decreases n,
{
    if n <= 0 {
        Seq::empty()
    } else {
        let v = chart_sorted(nodes, s, n - 1);
        v.insert(slot_for(nodes, v, nodes[s[n - 1] as int].pos, 0), s[n - 1])
    }
}

/// The first index from `i` on at which `x` stands in `r`, or zero when it
/// stands nowhere after `i`.
pub open spec fn spot(r: Seq<usize>, x: usize, i: int) -> int
    decreases r.len() - i,
{
    if i < 0 || i >= r.len() {
        0
    } else if r[i] == x {
        i
    } else {
        spot(r, x, i + 1)
    }
}

impl StarMap {
    /// The systems one lane away from the squad, in chart order.
    pub open spec fn reach_order(&self) -> Seq<usize> {
        chart_sorted(self.nodes@, self.spec_lanes_here(), self.spec_lanes_here().len() as int)
    }

    /// Where the cursor rests after a jump: the first reachable system in
    /// chart order, or the squad's own system when no lane leaves it.
    pub open spec fn first_reach(&self) -> usize {
        if self.reach_order().len() > 0 { self.reach_order()[0] } else { self.at }
    }
}

/// One pseudo-random draw: the new state and the output.
fn next(rng: u64) -> (r: (u64, u64))
    ensures
        r == draw(rng),
        r.0 == lcg_next(rng),
        r.1 < 0x8000_0000,
{
    lcg(rng)
}

/// Take the lane list of system `i` out of the table, leaving it empty.
fn take_lanes(lanes: &mut Vec<Vec<usize>>, i: usize) -> (r: Vec<usize>)
    requires
        i < old(lanes)@.len(),
    ensures
        r == old(lanes)@[i as int],
        final(lanes)@.len() == old(lanes)@.len(),
        final(lanes)@[i as int]@.len() == 0,
        forall|j: int| 0 <= j < old(lanes)@.len() && j != i ==> #[trigger] final(lanes)@[j] == old(lanes)@[j],
{
    lanes.push(Vec::new());
    let r = lanes.swap_remove(i);
    r
}

/// Whether `v` holds `x`.
fn holds(v: &Vec<usize>, x: usize) -> (r: bool)
    ensures
        r == v@.contains(x),
{
    let mut i: usize = 0;
    while i < v.len()
        invariant
            i <= v@.len(),
            forall|j: int| 0 <= j < i ==> v@[j] != x,
        decreases v@.len() - i,
    {
        if v[i] == x {
            return true;
        }
        i = i + 1;
    }
    false
}

/// Join `a` and `b` with a lane both ways, unless they are one system or are
/// already joined.
fn link(lanes: &mut Vec<Vec<usize>>, a: usize, b: usize)
    requires
        a < old(lanes)@.len(),
        b < old(lanes)@.len(),
        lanes_ok(old(lanes)@),
    ensures
        final(lanes)@.len() == old(lanes)@.len(),
        lanes_ok(final(lanes)@),
        a != b ==> final(lanes)@[a as int]@.contains(b),
        forall|x: int, y: usize| 0 <= x < old(lanes)@.len() && old(lanes)@[x]@.contains(y) ==> #[trigger] final(lanes)@[x]@.contains(y),
{
    if a == b {
        return;
    }
    if holds(&lanes[a], b) {
        return;
    }
    let ghost old_lanes = lanes@;
    proof {
        // Lanes are symmetric, so `b` has no lane to `a` either.
        if old_lanes[b as int]@.contains(a) {
            let j = choose|j: int| 0 <= j < old_lanes[b as int]@.len() && old_lanes[b as int]@[j] == a;
            assert(old_lanes[a as int]@.contains(b));
        }
    }
    let mut la = take_lanes(lanes, a);
    la.push(b);
    lanes.set(a, la);
    let mut lb = take_lanes(lanes, b);
    lb.push(a);
    lanes.set(b, lb);
    let ghost new_lanes = lanes@;
    assert(new_lanes[a as int]@ == old_lanes[a as int]@.push(b));
    assert(new_lanes[b as int]@ == old_lanes[b as int]@.push(a));
    assert(new_lanes[a as int]@[old_lanes[a as int]@.len() as int] == b);
    assert(forall|x: int| 0 <= x < old_lanes.len() && x != a && x != b ==> #[trigger] new_lanes[x] == old_lanes[x]);
    assert forall|x: int, y: usize| 0 <= x < old_lanes.len() && old_lanes[x]@.contains(y) implies #[trigger] new_lanes[x]@.contains(y) by {
        let j = choose|j: int| 0 <= j < old_lanes[x]@.len() && old_lanes[x]@[j] == y;
        assert(new_lanes[x]@[j] == y);
    }
    assert forall|x: int, j: int| 0 <= x < new_lanes.len() && 0 <= j < new_lanes[x]@.len() implies {
        let y = #[trigger] new_lanes[x]@[j];
        &&& y < new_lanes.len()
        &&& y != x
        &&& new_lanes[y as int]@.contains(x as usize)
    } by {
        let y = new_lanes[x]@[j];
        if x == a && j == old_lanes[a as int]@.len() {
            assert(y == b);
            assert(new_lanes[b as int]@[old_lanes[b as int]@.len() as int] == a);
        } else if x == b && j == old_lanes[b as int]@.len() {
            assert(y == a);
            assert(new_lanes[a as int]@[old_lanes[a as int]@.len() as int] == b);
        } else {
            if x == a {
                assert(new_lanes[x]@[j] == old_lanes[x]@[j]);
            } else if x == b {
                assert(new_lanes[x]@[j] == old_lanes[x]@[j]);
            } else {
                assert(new_lanes[x] == old_lanes[x]);
            }
            assert(old_lanes[x]@[j] == y);
            assert(y < old_lanes.len() && y != x);
            assert(old_lanes[y as int]@.contains(x as usize));
            assert(new_lanes[y as int]@.contains(x as usize));
        }
    }
    assert forall|x: int, j: int, k: int|
        0 <= x < new_lanes.len() && 0 <= j < k < new_lanes[x]@.len() implies #[trigger] new_lanes[x]@[j] != #[trigger] new_lanes[x]@[k] by {
        if x == a && k == old_lanes[a as int]@.len() {
            assert(new_lanes[x]@[j] == old_lanes[a as int]@[j]);
        } else if x == b && k == old_lanes[b as int]@.len() {
            assert(new_lanes[x]@[j] == old_lanes[b as int]@[j]);
            if old_lanes[b as int]@[j] == a {
                assert(old_lanes[a as int]@.contains(b));
            }
        }
    }
}

/// One draw of the chart's generator from state `s`: the next state, and
/// its top bits.
pub open spec fn draw(s: u64) -> (u64, u64) {
    (lcg_next(s), lcg_next(s) >> 33)
}

/// What a system's roll of `roll` (out of twenty-four) makes of it in
/// `region`: a depot, a derelict, an elite wing, a capital ship from the
/// Reach in (twice as likely from the Core), a warlord from the Verge in,
/// and otherwise a plain battle.
pub open spec fn rolled_kind(roll: u64, region: Region) -> NodeKind {
    if roll <= 1 {
        NodeKind::Depot
    } else if roll == 2 {
        NodeKind::Derelict
    } else if roll <= 5 {
        NodeKind::Elite
    } else if roll == 6 && region.spec_band() >= 2 {
        NodeKind::Capital
    } else if roll == 7 && region.spec_band() >= 3 {
        NodeKind::Capital
    } else if roll == 8 && region.spec_band() >= 1 {
        NodeKind::Boss
    } else {
        NodeKind::Battle
    }
}

/// The system, if any, that the scatter lays at column `col` and row `row`
/// of a `width` by `height` chart of `galaxy`, drawing from state `s`, with
/// the state it leaves. The rim column is solid, a depot at its middle and
/// battles elsewhere; past it a cell is filled on seven draws in ten and
/// then rolls its kind. Every system then draws its sector, its rock (a
/// capital ship's is open plating or a trench) and its bonus, an armoury
/// drawing its gun.
pub open spec fn scattered_cell(galaxy: Galaxy, width: usize, height: usize, col: usize, row: usize, s: u64) -> (Option<MapNode>, u64) {
    let s1 = if col == 0 { s } else { draw(s).0 };
    let filled = col == 0 || draw(s).1 % 10 < 7;
    if !filled {
        (None, s1)
    } else {
        let region = Region::spec_of_column(col, width);
        let kind = if col == 0 {
            if row == height / 2 { NodeKind::Depot } else { NodeKind::Battle }
        } else {
            rolled_kind(draw(s1).1 % 24, region)
        };
        let s2 = if col == 0 { s1 } else { draw(s1).0 };
        let sectors = galaxy.spec_sectors();
        let sector = sectors[(draw(s2).1 % (sectors.len() as u64)) as int];
        let s3 = draw(s2).0;
        let terrains = galaxy.spec_terrains();
        let terrain = if kind == NodeKind::Capital {
            if draw(s3).1 % 2 == 0 { TerrainKind::Trench } else { TerrainKind::Open }
        } else {
            terrains[(draw(s3).1 % (terrains.len() as u64)) as int]
        };
        let s4 = draw(s3).0;
        let b = draw(s4).1 % 4;
        let s5 = draw(s4).0;
        let bonus = if b == 0 {
            NodeBonus::Cache((300 + 120 * col) as u32)
        } else if b == 1 {
            NodeBonus::Armoury(Weapon::ALL[(draw(s5).1 % 13) as int])
        } else if b == 2 {
            NodeBonus::Refit
        } else {
            NodeBonus::Danger
        };
        let s6 = if b == 1 { draw(s5).0 } else { s5 };
        (Some(MapNode { pos: (col, row), region, kind, sector, terrain, bonus, cleared: false, explored: false }), s6)
    }
}

/// The systems and the flattened grid (column by column) that the scatter
/// lays over the first `k` cells from state `s`, with the state it leaves.
pub open spec fn scattered_upto(galaxy: Galaxy, width: usize, height: usize, k: int, s: u64) -> (Seq<MapNode>, Seq<Option<usize>>, u64)
    decreases k,
{
    if k <= 0 {
        (Seq::empty(), Seq::empty(), s)
    } else {
        let prev = scattered_upto(galaxy, width, height, k - 1, s);
        let cell = scattered_cell(galaxy, width, height, ((k - 1) / height as int) as usize, ((k - 1) % height as int) as usize, prev.2);
        match cell.0 {
            Some(n) => (prev.0.push(n), prev.1.push(Some(prev.0.len() as usize)), cell.1),
            None => (prev.0, prev.1.push(None), cell.1),
        }
    }
}

/// The whole scatter of a chart of `galaxy` from `seed`.
pub open spec fn seeded_scatter(galaxy: Galaxy, seed: u64) -> (Seq<MapNode>, Seq<Option<usize>>, u64) {
    let (w, h) = galaxy.spec_chart();
    scattered_upto(galaxy, w, h, w * h, seed | 1)
}

/// The systems scattered over the grid, rim column first.
pub open spec fn scattered_ok(nodes: Seq<MapNode>, flat: Seq<Option<usize>>, width: int, height: int) -> bool {
    &&& flat.len() == width * height
    &&& forall|k: int| 0 <= k < flat.len() && (#[trigger] flat[k]) is Some ==> {
        let i = flat[k]->0;
        i < nodes.len() && nodes[i as int].pos == ((k / height) as usize, (k % height) as usize)
    }
    &&& forall|i: int| 0 <= i < nodes.len() ==> {
        let p = #[trigger] nodes[i].pos;
        p.0 < width && p.1 < height
    }
    &&& forall|row: int| 0 <= row < height ==> (#[trigger] flat[row]) is Some
    &&& forall|i: int| 0 <= i < nodes.len() ==> {
        let p = (#[trigger] nodes[i]).pos;
        flat[p.0 * height + p.1] == Some(i as usize)
    }
}

/// The systems fit their galaxy and their depth, and none is cleared or seen.
pub open spec fn systems_ok(galaxy: Galaxy, nodes: Seq<MapNode>, width: int, height: int) -> bool {
    &&& systems_fit(galaxy, nodes, width, height)
    &&& forall|i: int| 0 <= i < nodes.len() ==> !(#[trigger] nodes[i]).cleared && !nodes[i].explored
}

/// What stands in each system fits its galaxy and its depth: a sector and a
/// rock of the galaxy's (open plating or a trench for a capital ship), the
/// band of its column, capital ships from the Reach in and warlords from the
/// Verge in, and a depot at the middle of the rim.
pub open spec fn systems_fit(galaxy: Galaxy, nodes: Seq<MapNode>, width: int, height: int) -> bool {
    forall|i: int| 0 <= i < nodes.len() ==> {
        let n = #[trigger] nodes[i];
        &&& galaxy.spec_sectors().contains(n.sector)
        &&& n.region == Region::spec_of_column(n.pos.0, width as usize)
        &&& (n.kind == NodeKind::Capital ==> n.terrain == TerrainKind::Trench || n.terrain == TerrainKind::Open)
        &&& (n.kind != NodeKind::Capital ==> galaxy.spec_terrains().contains(n.terrain))
        &&& (n.kind == NodeKind::Capital ==> n.region.spec_band() >= 2)
        &&& (n.kind == NodeKind::Boss ==> n.region.spec_band() >= 1)
        &&& (n.pos.0 == 0 ==> n.kind == (if n.pos.1 == height / 2 { NodeKind::Depot } else { NodeKind::Battle }))
    }
}

/// Lay the system, if any, at column `col` and row `row` of a `width` by
/// `height` chart of `galaxy`, drawing from `rng`: what `scattered_cell`
/// says, with the state after.
#[verifier::rlimit(60)]
fn scatter_cell(
    galaxy: Galaxy,
    width: usize,
    height: usize,
    col: usize,
    row: usize,
    rng: u64,
    sectors: &Vec<Sector>,
    terrains: &Vec<TerrainKind>,
) -> (r: (Option<MapNode>, u64))
    requires
        col < width <= 16,
        row < height <= 9,
        (width, height) == galaxy.spec_chart(),
        sectors@ == galaxy.spec_sectors(),
        terrains@ == galaxy.spec_terrains(),
        sectors@.len() > 0,
        terrains@.len() > 0,
    ensures
        r == scattered_cell(galaxy, width, height, col, row, rng),
        r.0 matches Some(n) ==> {
            &&& n.pos == (col, row)
            &&& !n.cleared && !n.explored
            &&& galaxy.spec_sectors().contains(n.sector)
            &&& n.region == Region::spec_of_column(n.pos.0, width)
            &&& (n.kind == NodeKind::Capital ==> n.terrain == TerrainKind::Trench || n.terrain == TerrainKind::Open)
            &&& (n.kind != NodeKind::Capital ==> galaxy.spec_terrains().contains(n.terrain))
            &&& (n.kind == NodeKind::Capital ==> n.region.spec_band() >= 2)
            &&& (n.kind == NodeKind::Boss ==> n.region.spec_band() >= 1)
            &&& (n.pos.0 == 0 ==> n.kind == (if n.pos.1 == height / 2 { NodeKind::Depot } else { NodeKind::Battle }))
        },
{
    let mut rng = rng;
    // The rim column is solid so the run always has somewhere to
    // start; everything past it is scattered.
    let filled = if col == 0 {
        true
    } else {
        let (s, v) = next(rng);
        rng = s;
        v % 10 < 7
    };
    if !filled {
        return (None, rng);
    }
    let region = Region::of_column(col, width);
    let kind = if col == 0 {
        if row == height / 2 {
            NodeKind::Depot
        } else {
            NodeKind::Battle
        }
    } else {
        let (s, v) = next(rng);
        rng = s;
        let roll = v % 24;
        if roll <= 1 {
            NodeKind::Depot
        } else if roll == 2 {
            NodeKind::Derelict
        } else if roll <= 5 {
            NodeKind::Elite
        } else if roll == 6 && region.band() >= 2 {
            NodeKind::Capital
        } else if roll == 7 && region.band() >= 3 {
            NodeKind::Capital
        } else if roll == 8 && region.band() >= 1 {
            NodeKind::Boss
        } else {
            NodeKind::Battle
        }
    };
    let (s, v) = next(rng);
    rng = s;
    let sector = sectors[(v % sectors.len() as u64) as usize];
    let terrain = if kind == NodeKind::Capital {
        // A capital ship is fought over open plating or down a
        // trench, never in a cave.
        let (s, v) = next(rng);
        rng = s;
        if v % 2 == 0 {
            TerrainKind::Trench
        } else {
            TerrainKind::Open
        }
    } else {
        let (s, v) = next(rng);
        rng = s;
        terrains[(v % terrains.len() as u64) as usize]
    };
    let (s, v) = next(rng);
    rng = s;
    let bonus = match v % 4 {
        0 => NodeBonus::Cache(300 + 120 * col as u32),
        1 => {
            let (s, w) = next(rng);
            rng = s;
            NodeBonus::Armoury(Weapon::ALL[(w % 13) as usize])
        },
        2 => NodeBonus::Refit,
        _ => NodeBonus::Danger,
    };
    assert(sectors@.contains(sector));
    assert(kind != NodeKind::Capital ==> terrains@.contains(terrain));
    let node = MapNode {
        pos: (col, row),
        region,
        kind,
        sector,
        terrain,
        bonus,
        cleared: false,
        explored: false,
    };
    (Some(node), rng)
}

/// Scatter systems over a `width` by `height` grid, column by column: the rim
/// column is solid, every other cell is filled seven times in ten. The grid
/// comes back flattened column-major, `(row, col)` at `col * height + row`.
#[verifier::rlimit(100)]
fn scatter(galaxy: Galaxy, rng: u64) -> (r: (Vec<MapNode>, Vec<Option<usize>>, u64))
    ensures
        scattered_ok(r.0@, r.1@, galaxy.spec_chart().0 as int, galaxy.spec_chart().1 as int),
        systems_ok(galaxy, r.0@, galaxy.spec_chart().0 as int, galaxy.spec_chart().1 as int),
        r.0@.len() > 0,
        r.0@.len() >= galaxy.spec_chart().1,
        (r.0@, r.1@, r.2) == scattered_upto(
            galaxy,
            galaxy.spec_chart().0,
            galaxy.spec_chart().1,
            galaxy.spec_chart().0 * galaxy.spec_chart().1,
            rng,
        ),
{
    let ghost start = rng;
    let mut rng = rng;
    let (width, height) = galaxy.chart();
    let sectors = galaxy.sectors();
    let terrains = galaxy.terrains();
    let mut nodes: Vec<MapNode> = Vec::new();
    let mut flat: Vec<Option<usize>> = Vec::new();
    let mut col: usize = 0;
    while col < width
        invariant
            col <= width,
            (width, height) == galaxy.spec_chart(),
            width <= 16,
            height <= 9,
            1 <= width,
            1 <= height,
            sectors@.len() > 0,
            terrains@.len() > 0,
            flat@.len() == col * height,
            col > 0 ==> nodes@.len() > 0,
            forall|k: int| 0 <= k < flat@.len() && (#[trigger] flat@[k]) is Some ==> {
                let i = flat@[k]->0;
                i < nodes@.len() && nodes@[i as int].pos == ((k / height as int) as usize, (k % height as int) as usize)
            },
            forall|i: int| 0 <= i < nodes@.len() ==> {
                let p = #[trigger] nodes@[i].pos;
                p.0 < col && p.1 < height
            },
            col > 0 ==> forall|rr: int| 0 <= rr < height ==> (#[trigger] flat@[rr]) is Some,
            sectors@ == galaxy.spec_sectors(),
            terrains@ == galaxy.spec_terrains(),
            systems_ok(galaxy, nodes@, width as int, height as int),
            forall|i: int| 0 <= i < nodes@.len() ==> {
                let p = (#[trigger] nodes@[i]).pos;
                p.0 * height + p.1 < flat@.len() && flat@[p.0 * height + p.1] == Some(i as usize)
            },
            col > 0 ==> nodes@.len() >= height,
            col == 0 ==> nodes@.len() == 0,
            (nodes@, flat@, rng) == scattered_upto(galaxy, width, height, flat@.len() as int, start),
        decreases width - col,
    {
        assert(col > 0 ==> col * height >= height) by (nonlinear_arith)
            requires
                height >= 1,
        ;
        let mut row: usize = 0;
        while row < height
            invariant
                col < width,
                row <= height,
                col > 0 ==> flat@.len() >= height,
                (width, height) == galaxy.spec_chart(),
                width <= 16,
                height <= 9,
                1 <= height,
                sectors@.len() > 0,
                terrains@.len() > 0,
                flat@.len() == col * height + row,
                (col > 0 || row > 0) ==> nodes@.len() > 0,
                forall|k: int| 0 <= k < flat@.len() && (#[trigger] flat@[k]) is Some ==> {
                    let i = flat@[k]->0;
                    i < nodes@.len() && nodes@[i as int].pos == ((k / height as int) as usize, (k % height as int) as usize)
                },
                forall|i: int| 0 <= i < nodes@.len() ==> {
                    let p = #[trigger] nodes@[i].pos;
                    p.0 <= col && p.1 < height
                },
                col > 0 ==> forall|rr: int| 0 <= rr < height ==> (#[trigger] flat@[rr]) is Some,
                col == 0 ==> forall|rr: int| 0 <= rr < row ==> (#[trigger] flat@[rr]) is Some,
                sectors@ == galaxy.spec_sectors(),
                terrains@ == galaxy.spec_terrains(),
                systems_ok(galaxy, nodes@, width as int, height as int),
                forall|i: int| 0 <= i < nodes@.len() ==> {
                    let p = (#[trigger] nodes@[i]).pos;
                    p.0 * height + p.1 < flat@.len() && flat@[p.0 * height + p.1] == Some(i as usize)
                },
                col == 0 ==> nodes@.len() == row,
                col > 0 ==> nodes@.len() >= height,
                (nodes@, flat@, rng) == scattered_upto(galaxy, width, height, flat@.len() as int, start),
            decreases height - row,
        {
            assert(col * height + row < 16 * 9) by (nonlinear_arith)
                requires
                    col < width <= 16,
                    row < height <= 9,
            ;
            let ghost k: int = flat@.len() as int;
            assert(k / height as int == col && k % height as int == row) by (nonlinear_arith)
                requires
                    k == col * height + row,
                    row < height,
            ;
            let ghost s_cell = rng;
            let ghost prev = (nodes@, flat@);
            let (cell, after) = scatter_cell(galaxy, width, height, col, row, rng, &sectors, &terrains);
            rng = after;
            match cell {
                None => {
                    flat.push(None);
                    assert(flat@ =~= prev.1.push(None));
                    row = row + 1;
                    continue;
                },
                Some(node) => {
                    flat.push(Some(nodes.len()));
                    nodes.push(node);
                },
            }
            assert(nodes@ =~= prev.0.push(nodes@.last()));
            assert(flat@ =~= prev.1.push(Some(prev.0.len() as usize)));
            row = row + 1;
        }
        assert(flat@.len() == (col + 1) * height) by (nonlinear_arith)
            requires
                flat@.len() == col * height + height,
        ;
        col = col + 1;
    }
    (nodes, flat, rng)
}

/// The flattened grid laid out as `grid[row][col]`.
fn unflatten(flat: &Vec<Option<usize>>, width: usize, height: usize) -> (grid: Vec<Vec<Option<usize>>>)
    requires
        width <= 16,
        height <= 9,
        flat@.len() == width * height,
    ensures
        grid@.len() == height,
        forall|r: int| 0 <= r < height ==> #[trigger] grid@[r]@.len() == width,
        forall|r: int, c: int| 0 <= r < height && 0 <= c < width ==> #[trigger] grid@[r]@[c] == flat@[c * height + r],
{
    let mut grid: Vec<Vec<Option<usize>>> = Vec::new();
    let mut row: usize = 0;
    while row < height
        invariant
            row <= height,
            width <= 16,
            height <= 9,
            flat@.len() == width * height,
            grid@.len() == row,
            forall|r: int| 0 <= r < row ==> #[trigger] grid@[r]@.len() == width,
            forall|r: int, c: int| 0 <= r < row && 0 <= c < width ==> #[trigger] grid@[r]@[c] == flat@[c * height + r],
        decreases height - row,
    {
        let mut line: Vec<Option<usize>> = Vec::new();
        let mut c: usize = 0;
        while c < width
            invariant
                row < height,
                c <= width,
                width <= 16,
                height <= 9,
                flat@.len() == width * height,
                line@.len() == c,
                forall|cc: int| 0 <= cc < c ==> #[trigger] line@[cc] == flat@[cc * height + row],
            decreases width - c,
        {
            assert(c * height + row < width * height && c * height < 200) by (nonlinear_arith)
                requires
                    c < width <= 16,
                    row < height <= 9,
            ;
            line.push(flat[c * height + row]);
            c = c + 1;
        }
        grid.push(line);
        row = row + 1;
    }
    grid
}

/// Every filled cell of the grid names a system below `n`.
pub open spec fn grid_ok(grid: Seq<Vec<Option<usize>>>, width: int, height: int, n: int) -> bool {
    &&& grid.len() == height
    &&& forall|r: int| 0 <= r < height ==> #[trigger] grid[r]@.len() == width
    &&& forall|r: int, c: int|
        0 <= r < height && 0 <= c < width && (#[trigger] grid[r]@[c]) is Some ==> grid[r]@[c]->0 < n
}

/// The system in cell `(r, c)`, if any, has a lane to the system in the
/// cell straight ahead and to the one just below.
pub open spec fn cell_linked(grid: Seq<Vec<Option<usize>>>, lanes: Seq<Vec<usize>>, width: int, height: int, r: int, c: int) -> bool {
    grid[r]@[c] is Some ==> {
        let i = grid[r]@[c]->0;
        &&& (c + 1 < width && grid[r]@[c + 1] is Some && grid[r]@[c + 1]->0 != i)
            ==> lanes[i as int]@.contains(grid[r]@[c + 1]->0)
        &&& (r + 1 < height && grid[r + 1]@[c] is Some && grid[r + 1]@[c]->0 != i)
            ==> lanes[i as int]@.contains(grid[r + 1]@[c]->0)
    }
}

/// Every cell before row `row`, and before column `col` on that row, is
/// linked to its neighbours ahead and below.
pub open spec fn linked_upto(grid: Seq<Vec<Option<usize>>>, lanes: Seq<Vec<usize>>, width: int, height: int, row: int, col: int) -> bool {
    forall|r: int, c: int| 0 <= r < height && 0 <= c < width && (r < row || (r == row && c < col))
        ==> #[trigger] cell_linked(grid, lanes, width, height, r, c)
}

/// Lanes only ever added keep every cell linked that was.
proof fn links_kept(grid: Seq<Vec<Option<usize>>>, a: Seq<Vec<usize>>, b: Seq<Vec<usize>>, width: int, height: int, row: int, col: int)
    requires
        linked_upto(grid, a, width, height, row, col),
        a.len() == b.len(),
        forall|x: int, y: usize| 0 <= x < a.len() && a[x]@.contains(y) ==> #[trigger] b[x]@.contains(y),
        grid_ok(grid, width, height, a.len() as int),
    ensures
        linked_upto(grid, b, width, height, row, col),
{
    assert forall|r: int, c: int| 0 <= r < height && 0 <= c < width && (r < row || (r == row && c < col))
        implies #[trigger] cell_linked(grid, b, width, height, r, c) by {
        assert(cell_linked(grid, a, width, height, r, c));
    }
}

/// Link every system to the one ahead of it (or the nearest diagonal when
/// that cell is empty space) and to the one below it.
fn connect(grid: &Vec<Vec<Option<usize>>>, n: usize, width: usize, height: usize) -> (lanes: Vec<Vec<usize>>)
    requires
        width <= 1000,
        height <= 1000,
        grid_ok(grid@, width as int, height as int, n as int),
    ensures
        lanes@.len() == n,
        lanes_ok(lanes@),
        linked_upto(grid@, lanes@, width as int, height as int, height as int, 0),
{
    let mut lanes: Vec<Vec<usize>> = Vec::new();
    while lanes.len() < n
        invariant
            lanes@.len() <= n,
            forall|a: int| 0 <= a < lanes@.len() ==> (#[trigger] lanes@[a])@.len() == 0,
        decreases n - lanes@.len(),
    {
        lanes.push(Vec::new());
    }
    let mut row: usize = 0;
    while row < height
        invariant
            row <= height,
            width <= 1000,
            height <= 1000,
            grid_ok(grid@, width as int, height as int, n as int),
            lanes@.len() == n,
            lanes_ok(lanes@),
            linked_upto(grid@, lanes@, width as int, height as int, row as int, 0),
        decreases height - row,
    {
        let mut col: usize = 0;
        while col < width
            invariant
                row < height,
                col <= width,
                width <= 1000,
                height <= 1000,
                grid_ok(grid@, width as int, height as int, n as int),
                lanes@.len() == n,
                lanes_ok(lanes@),
                linked_upto(grid@, lanes@, width as int, height as int, row as int, col as int),
            decreases width - col,
        {
            let here_opt = grid[row][col];
            if let Some(here) = here_opt {
                if col + 1 < width {
                    // The lane ahead, or the nearest diagonal when the cell
                    // straight on is empty space.
                    let mut s: usize = 0;
                    while s < 3
                        invariant
                            row < height,
                            col + 1 < width,
                            width <= 1000,
                            height <= 1000,
                            here < n,
                            here_opt == Some(here),
                            here_opt == grid@[row as int]@[col as int],
                            grid_ok(grid@, width as int, height as int, n as int),
                            lanes@.len() == n,
                            lanes_ok(lanes@),
                            linked_upto(grid@, lanes@, width as int, height as int, row as int, col as int),
                            s >= 1 ==> grid@[row as int]@[col + 1] is None,
                        ensures
                            lanes@.len() == n,
                            lanes_ok(lanes@),
                            linked_upto(grid@, lanes@, width as int, height as int, row as int, col as int),
                            (grid@[row as int]@[col + 1] is Some && grid@[row as int]@[col + 1]->0 != here)
                                ==> lanes@[here as int]@.contains(grid@[row as int]@[col + 1]->0),
                        decreases 3 - s,
                    {
                        let (dr, dc): (i32, i32) = if s == 0 {
                            (0, 1)
                        } else if s == 1 {
                            (-1, 1)
                        } else {
                            (1, 1)
                        };
                        let r = row as i32 + dr;
                        let c = col as i32 + dc;
                        if r < 0 || r >= height as i32 || c >= width as i32 {
                            s = s + 1;
                            continue;
                        }
                        let there_opt = grid[r as usize][c as usize];
                        if let Some(there) = there_opt {
                            let ghost before = lanes@;
                            link(&mut lanes, here, there);
                            proof {
                                links_kept(grid@, before, lanes@, width as int, height as int, row as int, col as int);
                            }
                            if dr == 0 {
                                break;
                            }
                        }
                        s = s + 1;
                    }
                }
                let ghost ahead = lanes@;
                if row + 1 < height {
                    let below = grid[row + 1][col];
                    if let Some(there) = below {
                        link(&mut lanes, here, there);
                        proof {
                            links_kept(grid@, ahead, lanes@, width as int, height as int, row as int, col as int);
                        }
                    }
                }
                proof {
                    assert(lanes@.len() == ahead.len());
                    assert((col + 1 < width && grid@[row as int]@[col + 1] is Some && grid@[row as int]@[col + 1]->0 != here)
                        ==> ahead[here as int]@.contains(grid@[row as int]@[col + 1]->0));
                    assert(cell_linked(grid@, lanes@, width as int, height as int, row as int, col as int));
                    assert forall|r: int, c: int| 0 <= r < height && 0 <= c < width && (r < row || (r == row && c < col + 1))
                        implies #[trigger] cell_linked(grid@, lanes@, width as int, height as int, r, c) by {
                        if !(r == row && c == col) {
                            assert(r < row || (r == row && c < col));
                        }
                    }
                }
            } else {
                proof {
                    assert forall|r: int, c: int| 0 <= r < height && 0 <= c < width && (r < row || (r == row && c < col + 1))
                        implies #[trigger] cell_linked(grid@, lanes@, width as int, height as int, r, c) by {
                        if !(r == row && c == col) {
                            assert(r < row || (r == row && c < col));
                        }
                    }
                }
            }
            col = col + 1;
        }
        proof {
            assert forall|r: int, c: int| 0 <= r < height && 0 <= c < width && (r < row + 1 || (r == row + 1 && c < 0))
                implies #[trigger] cell_linked(grid@, lanes@, width as int, height as int, r, c) by {
                if r == row {
                    assert(r == row && c < width);
                }
            }
        }
        row = row + 1;
    }
    lanes
}

/// The systems of a fresh chart and the grid they stand on, as
/// `grid[row][col]`, with the generator's state after laying them out.
#[verifier::rlimit(40)]
fn lay_out(galaxy: Galaxy, seed: u64) -> (r: (Vec<MapNode>, Vec<Vec<Option<usize>>>, u64))
    ensures
        ({
            let (nodes, grid) = (r.0@, r.1@);
            let (width, height) = (galaxy.spec_chart().0 as int, galaxy.spec_chart().1 as int);
            &&& nodes.len() > 0
            &&& nodes.len() >= height
            &&& systems_ok(galaxy, nodes, width, height)
            &&& grid_ok(grid, width, height, nodes.len() as int)
            &&& grid.len() == height
            &&& forall|row: int| 0 <= row < height ==> #[trigger] grid[row]@.len() == width
            &&& forall|row: int, c: int|
                0 <= row < height && 0 <= c < width && (#[trigger] grid[row]@[c]) is Some ==> {
                    let i = grid[row]@[c]->0;
                    i < nodes.len() && nodes[i as int].pos == (c as usize, row as usize)
                }
            &&& forall|i: int| 0 <= i < nodes.len() ==> {
                let p = (#[trigger] nodes[i]).pos;
                p.0 < width && p.1 < height && grid[p.1 as int]@[p.0 as int] == Some(i as usize)
            }
            &&& forall|row: int| 0 <= row < height ==> (#[trigger] grid[row])@[0] is Some
            &&& nodes == seeded_scatter(galaxy, seed).0
            &&& r.2 == seeded_scatter(galaxy, seed).2
            &&& forall|row: int, c: int| 0 <= row < height && 0 <= c < width ==>
                #[trigger] grid[row]@[c] == seeded_scatter(galaxy, seed).1[c * height + row]
        }),
{
    let (width, height) = galaxy.chart();
    let (nodes, flat, rng) = scatter(galaxy, seed | 1);
    let grid = unflatten(&flat, width, height);
    assert forall|r: int, c: int|
        0 <= r < height && 0 <= c < width && (#[trigger] grid@[r]@[c]) is Some implies {
            let i = grid@[r]@[c]->0;
            i < nodes@.len() && nodes@[i as int].pos == (c as usize, r as usize)
        } by {
        let k = c * height + r;
        assert(0 <= k < flat@.len()) by (nonlinear_arith)
            requires
                k == c * height + r,
                0 <= c < width,
                0 <= r < height,
                flat@.len() == width * height,
        ;
        assert(k / height as int == c && k % height as int == r) by (nonlinear_arith)
            requires
                k == c * height + r,
                0 <= r < height,
        ;
        assert(flat@[k] is Some);
    }
    assert forall|rr: int| 0 <= rr < height implies (#[trigger] grid@[rr])@[0] is Some by {
        assert(grid@[rr]@[0] == flat@[0 * height + rr]);
        assert(0 * height + rr == rr);
    }
    assert forall|i: int| 0 <= i < nodes@.len() implies {
        let p = (#[trigger] nodes@[i]).pos;
        grid@[p.1 as int]@[p.0 as int] == Some(i as usize)
    } by {
        let p = nodes@[i].pos;
        assert(grid@[p.1 as int]@[p.0 as int] == flat@[p.0 * height + p.1]);
    }
    (nodes, grid, rng)
}

/// The generator's state after `h` hyperlanes have each drawn their two
/// ends from state `s`.
pub open spec fn hyper_state(s: u64, h: int) -> u64
    decreases h,
{
    if h <= 0 { s } else { draw(draw(hyper_state(s, h - 1)).0).0 }
}

/// The two systems hyperlane `h` draws among `nodes`, from state `s`.
pub open spec fn hyperlane(nodes: Seq<MapNode>, s: u64, h: int) -> (usize, usize) {
    let t = hyper_state(s, h);
    ((draw(t).1 % (nodes.len() as u64)) as usize, (draw(draw(t).0).1 % (nodes.len() as u64)) as usize)
}

/// The systems `a` and `b` lie three to six columns apart, as a hyperlane's
/// ends must.
pub open spec fn hyper_apart(nodes: Seq<MapNode>, a: usize, b: usize) -> bool {
    let (pa, pb) = (nodes[a as int].pos.0 as int, nodes[b as int].pos.0 as int);
    3 <= (if pa > pb { pa - pb } else { pb - pa }) <= 6
}

/// Each of the first `width / 2` hyperlanes drawn from state `s` whose ends
/// lie far enough apart is a lane of `lanes`.
pub open spec fn hyperlanes_laid(nodes: Seq<MapNode>, s: u64, width: int, lanes: Seq<Vec<usize>>) -> bool {
    forall|h: int| 0 <= h < width / 2 && #[trigger] hyper_apart(nodes, hyperlane(nodes, s, h).0, hyperlane(nodes, s, h).1)
        ==> lanes[hyperlane(nodes, s, h).0 as int]@.contains(hyperlane(nodes, s, h).1)
}

/// A handful of hyperlanes across three to six columns, drawn from `rng`:
/// each of `width / 2` draws two systems and links them when they lie that
/// far apart.
fn add_hyperlanes(lanes: &mut Vec<Vec<usize>>, nodes: &Vec<MapNode>, width: usize, rng: u64)
    requires
        old(lanes)@.len() == nodes@.len(),
        nodes@.len() > 0,
        lanes_ok(old(lanes)@),
    ensures
        final(lanes)@.len() == nodes@.len(),
        lanes_ok(final(lanes)@),
        forall|x: int, y: usize| 0 <= x < old(lanes)@.len() && old(lanes)@[x]@.contains(y) ==> #[trigger] final(lanes)@[x]@.contains(y),
        hyperlanes_laid(nodes@, rng, width as int, final(lanes)@),
{
    let ghost start = rng;
    let mut rng = rng;
    let mut h: usize = 0;
    while h < width / 2
        invariant
            rng == hyper_state(start, h as int),
            forall|j: int| 0 <= j < h && #[trigger] hyper_apart(nodes@, hyperlane(nodes@, start, j).0, hyperlane(nodes@, start, j).1)
                ==> lanes@[hyperlane(nodes@, start, j).0 as int]@.contains(hyperlane(nodes@, start, j).1),
            lanes@.len() == nodes@.len(),
            nodes@.len() > 0,
            lanes_ok(lanes@),
            forall|x: int, y: usize| 0 <= x < old(lanes)@.len() && old(lanes)@[x]@.contains(y) ==> #[trigger] lanes@[x]@.contains(y),
            old(lanes)@.len() == nodes@.len(),
        decreases width / 2 - h,
    {
        let (s, v) = next(rng);
        rng = s;
        let a = (v % nodes.len() as u64) as usize;
        let (s, v) = next(rng);
        rng = s;
        let b = (v % nodes.len() as u64) as usize;
        let pa = nodes[a].pos.0;
        let pb = nodes[b].pos.0;
        let far = if pa > pb { pa - pb } else { pb - pa };
        assert(hyperlane(nodes@, start, h as int) == (a, b));
        let ghost before = lanes@;
        if 3 <= far && far <= 6 {
            link(lanes, a, b);
            assert forall|x: int, y: usize| 0 <= x < old(lanes)@.len() && old(lanes)@[x]@.contains(y)
                implies #[trigger] lanes@[x]@.contains(y) by {
                assert(before[x]@.contains(y));
            }
        }
        assert forall|j: int| 0 <= j < h + 1 && #[trigger] hyper_apart(nodes@, hyperlane(nodes@, start, j).0, hyperlane(nodes@, start, j).1)
            implies lanes@[hyperlane(nodes@, start, j).0 as int]@.contains(hyperlane(nodes@, start, j).1) by {
            if j < h {
                let x = hyperlane(nodes@, start, j).0 as int;
                assert(before[x]@.contains(hyperlane(nodes@, start, j).1));
            }
        }
        h = h + 1;
    }
}

/// Counting `k` places round a ring of `n` from the start, either way.
proof fn lemma_wrap(k: int, n: int)
    requires
        n > 0,
    ensures
        k >= 0 ==> k % n == k % n && 0 <= k % n < n,
        k < 0 ==> (if (0 - k) % n == 0 { 0 } else { n - (0 - k) % n }) == k % n,
{
    if k < 0 {
        let q = (0 - k) % n;
        let d = (0 - k) / n;
        vstd::arithmetic::div_mod::lemma_fundamental_div_mod(0 - k, n);
        assert(0 - k == n * d + q);
        if q == 0 {
            assert(k == n * (0 - d) + 0) by (nonlinear_arith)
                requires
                    0 - k == n * d + q,
                    q == 0,
            ;
            vstd::arithmetic::div_mod::lemma_mod_multiples_vanish(0 - d, 0, n);
        } else {
            assert(k == n * (0 - d - 1) + (n - q)) by (nonlinear_arith)
                requires
                    0 - k == n * d + q,
            ;
            vstd::arithmetic::div_mod::lemma_mod_multiples_vanish(0 - d - 1, n - q, n);
            vstd::arithmetic::div_mod::lemma_small_mod((n - q) as nat, n as nat);
        }
    }
}

/// Charting more of the map never shrinks what has been seen, and leaves
/// what has been cleared as it was.
proof fn lemma_count_grows(a: Seq<MapNode>, b: Seq<MapNode>)
    requires
        a.len() == b.len(),
        forall|i: int| 0 <= i < a.len() ==> (#[trigger] a[i]).explored ==> b[i].explored,
        forall|i: int| 0 <= i < a.len() ==> (#[trigger] a[i]).cleared == b[i].cleared,
    ensures
        StarMap::count_nodes(b, true) >= StarMap::count_nodes(a, true),
        StarMap::count_nodes(b, false) == StarMap::count_nodes(a, false),
    decreases a.len(),
{
    if a.len() > 0 {
        let (x, y) = (a.drop_last(), b.drop_last());
        assert forall|i: int| 0 <= i < x.len() implies (#[trigger] x[i]).explored ==> y[i].explored by {
            assert(x[i] == a[i] && y[i] == b[i]);
        }
        assert forall|i: int| 0 <= i < x.len() implies (#[trigger] x[i]).cleared == y[i].cleared by {
            assert(x[i] == a[i] && y[i] == b[i]);
        }
        lemma_count_grows(x, y);
        assert(a.last() == a[a.len() - 1]);
        assert(b.last() == b[b.len() - 1]);
    }
}

/// The systems still fit when only what has been cleared or seen changes.
proof fn lemma_fit_kept(galaxy: Galaxy, a: Seq<MapNode>, b: Seq<MapNode>, width: int, height: int)
    requires
        systems_fit(galaxy, a, width, height),
        a.len() == b.len(),
        forall|i: int| 0 <= i < a.len() ==> {
            let (x, y) = (#[trigger] b[i], a[i]);
            &&& x.pos == y.pos
            &&& x.region == y.region
            &&& x.kind == y.kind
            &&& x.sector == y.sector
            &&& x.terrain == y.terrain
        },
    ensures
        systems_fit(galaxy, b, width, height),
{
    assert forall|i: int| 0 <= i < b.len() implies {
        let n = #[trigger] b[i];
        &&& galaxy.spec_sectors().contains(n.sector)
        &&& n.region == Region::spec_of_column(n.pos.0, width as usize)
        &&& (n.kind == NodeKind::Capital ==> n.terrain == TerrainKind::Trench || n.terrain == TerrainKind::Open)
        &&& (n.kind != NodeKind::Capital ==> galaxy.spec_terrains().contains(n.terrain))
        &&& (n.kind == NodeKind::Capital ==> n.region.spec_band() >= 2)
        &&& (n.kind == NodeKind::Boss ==> n.region.spec_band() >= 1)
        &&& (n.pos.0 == 0 ==> n.kind == (if n.pos.1 == height / 2 { NodeKind::Depot } else { NodeKind::Battle }))
    } by {
        let y = a[i];
    }
}

/// Where a system goes in the chart order is a place in the list.
proof fn slot_bounds(nodes: Seq<MapNode>, v: Seq<usize>, px: (usize, usize), k: int)
    requires
        0 <= k,
    ensures
        0 <= slot_for(nodes, v, px, k) <= v.len(),
    decreases v.len() - k,
{
    if k < v.len() && !after_pos(nodes[v[k] as int].pos, px) {
        slot_bounds(nodes, v, px, k + 1);
    }
}

/// The chart order of the first `n` of a list holding no system twice holds
/// each of them once, and nothing else.
proof fn sorted_distinct(nodes: Seq<MapNode>, s: Seq<usize>, n: int)
    requires
        0 <= n <= s.len(),
        forall|i: int, j: int| 0 <= i < j < s.len() ==> s[i] != s[j],
    ensures
        chart_sorted(nodes, s, n).len() == n,
        forall|j: int| 0 <= j < n ==> exists|i: int| 0 <= i < n && #[trigger] chart_sorted(nodes, s, n)[j] == s[i],
        forall|i: int, j: int| 0 <= i < j < n ==> chart_sorted(nodes, s, n)[i] != chart_sorted(nodes, s, n)[j],
    decreases n,
{
    if n > 0 {
        sorted_distinct(nodes, s, n - 1);
        let v = chart_sorted(nodes, s, n - 1);
        let x = s[n - 1];
        let k = slot_for(nodes, v, nodes[x as int].pos, 0);
        slot_bounds(nodes, v, nodes[x as int].pos, 0);
        let w = chart_sorted(nodes, s, n);
        assert(w == v.insert(k, x));
        assert forall|j: int| 0 <= j < n - 1 implies v[j] != x by {
            let i = choose|i: int| 0 <= i < n - 1 && v[j] == s[i];
        }
        assert forall|j: int| 0 <= j < n implies exists|i: int| 0 <= i < n && #[trigger] w[j] == s[i] by {
            if j < k {
                assert(w[j] == v[j]);
                let i = choose|i: int| 0 <= i < n - 1 && v[j] == s[i];
                assert(w[j] == s[i]);
            } else if j == k {
                assert(w[j] == s[n - 1]);
            } else {
                assert(w[j] == v[j - 1]);
                let i = choose|i: int| 0 <= i < n - 1 && v[j - 1] == s[i];
                assert(w[j] == s[i]);
            }
        }
        assert forall|i: int, j: int| 0 <= i < j < n implies w[i] != w[j] by {
            if i < k && j < k {
            } else if i < k && j == k {
                assert(w[i] == v[i]);
            } else if i < k {
                assert(w[i] == v[i] && w[j] == v[j - 1]);
            } else if i == k {
                assert(w[j] == v[j - 1]);
            } else {
                assert(w[i] == v[i - 1] && w[j] == v[j - 1]);
            }
        }
    }
}

/// In a list holding no system twice, a system's place is found where it
/// stands.
proof fn spot_finds(r: Seq<usize>, m: int, i: int)
    requires
        0 <= i <= m < r.len(),
        forall|a: int, b: int| 0 <= a < b < r.len() ==> r[a] != r[b],
    ensures
        spot(r, r[m], i) == m,
    decreases m - i,
{
    if i < m {
        spot_finds(r, m, i + 1);
    }
}

/// Walking the chart cursor `d` places through the reachable systems and
/// then `d` places back brings it to the system it stood on.
pub proof fn cursor_walks_back(map: StarMap, d: i32)
    requires
        map.wf(),
        map.reach_order().contains(map.cursor),
        d > i32::MIN,
    ensures
        ({
            let r = map.reach_order();
            let there = r[(spot(r, map.cursor, 0) + d) % (r.len() as int)];
            r[(spot(r, there, 0) + (0 - d)) % (r.len() as int)] == map.cursor
        }),
{
    let h = map.spec_lanes_here();
    assert forall|i: int, j: int| 0 <= i < j < h.len() implies h[i] != h[j] by {
        assert(map.lanes@[map.at as int]@[i] != map.lanes@[map.at as int]@[j]);
    }
    sorted_distinct(map.nodes@, h, h.len() as int);
    let r = map.reach_order();
    let n = r.len() as int;
    let k = choose|k: int| 0 <= k < n && r[k] == map.cursor;
    spot_finds(r, k, 0);
    crate::arith::back_round(k, d as int, n);
    let m = (k + d) % n;
    spot_finds(r, m, 0);
}

impl StarMap {
    /// Lay out a galaxy: a grid of systems, most cells filled, every one linked
    /// to the neighbours it has, plus a few hyperlanes across the map. What
    /// stands in a system gets nastier the deeper into the galaxy it is. The
    /// rim column is solid, and the run starts parked on it. The systems, the
    /// grid and the hyperlanes are the ones the seed's draws lay out.
    #[verifier::rlimit(80)]
    pub fn generate(galaxy: Galaxy, seed: u64) -> (r: StarMap)
        ensures
            r.wf(),
            r.galaxy == galaxy,
            (r.width, r.height) == galaxy.spec_chart(),
            r.nodes@[r.at as int].pos.0 == 0,
            r.nodes@[r.at as int].cleared,
            r.nodes@[r.at as int].explored,
            forall|row: int| 0 <= row < r.height ==> (#[trigger] r.grid@[row])@[0] is Some,
            forall|i: int| 0 <= i < r.nodes@.len() ==> {
                let p = (#[trigger] r.nodes@[i]).pos;
                r.grid@[p.1 as int]@[p.0 as int] == Some(i as usize)
            },
            r.nodes@[r.at as int].pos == (0usize, r.height / 2),
            r.nodes@[r.at as int].kind == NodeKind::Depot,
            systems_fit(galaxy, r.nodes@, r.width as int, r.height as int),
            forall|i: int| 0 <= i < r.nodes@.len() && i != r.at ==> !(#[trigger] r.nodes@[i]).cleared,
            forall|j: int| 0 <= j < r.spec_lanes_here().len() ==> #[trigger] r.nodes@[r.spec_lanes_here()[j] as int].explored,
            r.nodes@.len() >= r.height,
            r.cursor == r.first_reach(),
            linked_upto(r.grid@, r.lanes@, r.width as int, r.height as int, r.height as int, 0),
            r.spec_lanes_here().len() > 0,
            r.nodes@.len() == seeded_scatter(galaxy, seed).0.len(),
            forall|i: int| 0 <= i < r.nodes@.len() ==> #[trigger] r.nodes@[i] == (MapNode {
                cleared: r.nodes@[i].cleared,
                explored: r.nodes@[i].explored,
                ..seeded_scatter(galaxy, seed).0[i]
            }),
            forall|row: int, c: int| 0 <= row < r.height && 0 <= c < r.width ==>
                #[trigger] r.grid@[row]@[c] == seeded_scatter(galaxy, seed).1[c * r.height + row],
            hyperlanes_laid(seeded_scatter(galaxy, seed).0, seeded_scatter(galaxy, seed).2, r.width as int, r.lanes@),
    {
        let (width, height) = galaxy.chart();
        let (nodes, grid, rng0) = lay_out(galaxy, seed);
        let mut lanes = connect(&grid, nodes.len(), width, height);
        let ghost grid_lanes = lanes@;
        // A handful of hyperlanes, so the deep is not always a long haul.
        add_hyperlanes(&mut lanes, &nodes, width, rng0);
        proof {
            links_kept(grid@, grid_lanes, lanes@, width as int, height as int, height as int, 0);
            let mid = (height / 2) as int;
            assert(height >= 7);
            assert(cell_linked(grid@, lanes@, width as int, height as int, mid, 0));
            assert(grid@[mid + 1]@[0] is Some);
            let a = grid@[mid]@[0]->0;
            let b = grid@[mid + 1]@[0]->0;
            assert(nodes@[a as int].pos != nodes@[b as int].pos);
            assert(lanes@[a as int]@.contains(b));
        }
        let start = match grid[height / 2][0] {
            Some(i) => i,
            None => 0,
        };
        assert(grid@[(height / 2) as int]@[0] is Some);
        let ghost laid = nodes@;
        let mut map = StarMap { galaxy, nodes, grid, lanes, at: start, cursor: start, width, height };
        assert(laid[start as int].pos == (0usize, height / 2));
        let mut n = map.nodes[start];
        n.cleared = true;
        map.nodes.set(start, n);
        proof {
            lemma_fit_kept(galaxy, laid, map.nodes@, width as int, height as int);
        }
        assert(map.wf());
        let ghost marked = map.nodes@;
        map.chart_surroundings();
        proof {
            lemma_fit_kept(galaxy, marked, map.nodes@, width as int, height as int);
            assert forall|i: int| 0 <= i < map.nodes@.len() && i != map.at implies !(#[trigger] map.nodes@[i]).cleared by {
                assert(!laid[i].cleared);
            }
            assert forall|i: int| 0 <= i < map.nodes@.len() implies #[trigger] map.nodes@[i] == (MapNode {
                cleared: map.nodes@[i].cleared,
                explored: map.nodes@[i].explored,
                ..laid[i]
            }) by {
                assert(marked[i] == (MapNode { cleared: marked[i].cleared, ..laid[i] }));
            }
        }
        let reach = map.reachable();
        map.cursor = if reach.len() > 0 { reach[0] } else { start };
        map
    }

    /// Everything one lane out of the current system is on the chart now.
    pub fn chart_surroundings(&mut self)
        requires
            old(self).wf(),
        ensures
            final(self).wf(),
            final(self).galaxy == old(self).galaxy,
            final(self).grid == old(self).grid,
            final(self).lanes == old(self).lanes,
            final(self).at == old(self).at,
            final(self).cursor == old(self).cursor,
            final(self).width == old(self).width,
            final(self).height == old(self).height,
            final(self).nodes@.len() == old(self).nodes@.len(),
            final(self).nodes@[old(self).at as int].explored,
            forall|j: int| 0 <= j < old(self).spec_lanes_here().len() ==>
                #[trigger] final(self).nodes@[old(self).spec_lanes_here()[j] as int].explored,
            forall|i: int| 0 <= i < old(self).nodes@.len() ==> {
                let (a, b) = (#[trigger] final(self).nodes@[i], old(self).nodes@[i]);
                &&& a.pos == b.pos
                &&& a.region == b.region
                &&& a.kind == b.kind
                &&& a.sector == b.sector
                &&& a.terrain == b.terrain
                &&& a.bonus == b.bonus
                &&& a.cleared == b.cleared
                &&& (b.explored ==> a.explored)
            },
    {
        let at = self.at;
        let mut n = self.nodes[at];
        n.explored = true;
        self.nodes.set(at, n);
        let mut j: usize = 0;
        let len = self.lanes[at].len();
        while j < len
            invariant
                self.wf(),
                at == old(self).at,
                len == old(self).spec_lanes_here().len(),
                j <= len,
                self.galaxy == old(self).galaxy,
                self.grid == old(self).grid,
                self.lanes == old(self).lanes,
                self.at == old(self).at,
                self.cursor == old(self).cursor,
                self.width == old(self).width,
                self.height == old(self).height,
                self.nodes@.len() == old(self).nodes@.len(),
                self.nodes@[at as int].explored,
                forall|k: int| 0 <= k < j ==> #[trigger] self.nodes@[old(self).spec_lanes_here()[k] as int].explored,
                forall|i: int| 0 <= i < old(self).nodes@.len() ==> {
                    let (a, b) = (#[trigger] self.nodes@[i], old(self).nodes@[i]);
                    &&& a.pos == b.pos
                    &&& a.region == b.region
                    &&& a.kind == b.kind
                    &&& a.sector == b.sector
                    &&& a.terrain == b.terrain
                    &&& a.bonus == b.bonus
                    &&& a.cleared == b.cleared
                    &&& (b.explored ==> a.explored)
                },
            decreases len - j,
        {
            let i = self.lanes[at][j];
            let mut m = self.nodes[i];
            m.explored = true;
            self.nodes.set(i, m);
            j = j + 1;
        }
    }

    /// Insert `x` into the chart-ordered list `v`, ahead of the first system
    /// standing after it.
    fn insert_sorted(&self, v: &mut Vec<usize>, x: usize)
        requires
            self.wf(),
            x < self.nodes@.len(),
            forall|k: int| 0 <= k < old(v)@.len() ==> #[trigger] old(v)@[k] < self.nodes@.len(),
            forall|j: int, k: int| 0 <= j < k < old(v)@.len() ==>
                before(self.nodes@[old(v)@[j] as int].pos, self.nodes@[old(v)@[k] as int].pos),
        ensures
            final(v)@ == old(v)@.insert(slot_for(self.nodes@, old(v)@, self.nodes@[x as int].pos, 0), x),
            final(v)@.len() == old(v)@.len() + 1,
            final(v)@.to_multiset() == old(v)@.to_multiset().insert(x),
            forall|k: int| 0 <= k < final(v)@.len() ==> #[trigger] final(v)@[k] < self.nodes@.len(),
            forall|j: int, k: int| 0 <= j < k < final(v)@.len() ==>
                before(self.nodes@[final(v)@[j] as int].pos, self.nodes@[final(v)@[k] as int].pos),
    {
        let px = self.nodes[x].pos;
        let mut k: usize = 0;
        while k < v.len()
            invariant_except_break
                k <= v@.len(),
                forall|j: int| 0 <= j < k ==> before(self.nodes@[v@[j] as int].pos, px),
                slot_for(self.nodes@, v@, px, 0) == slot_for(self.nodes@, v@, px, k as int),
            invariant
                v@ == old(v)@,
                forall|kk: int| 0 <= kk < v@.len() ==> #[trigger] v@[kk] < self.nodes@.len(),
            ensures
                k <= v@.len(),
                slot_for(self.nodes@, v@, px, 0) == k,
                forall|j: int| 0 <= j < k ==> before(self.nodes@[v@[j] as int].pos, px),
                k < v@.len() ==> before(px, self.nodes@[v@[k as int] as int].pos),
            decreases v@.len() - k,
        {
            let pk = self.nodes[v[k]].pos;
            if pk.0 > px.0 || (pk.0 == px.0 && pk.1 > px.1) {
                break;
            }
            k = k + 1;
        }
        let ghost old_v = v@;
        v.insert(k, x);
        assert(v@ == old_v.insert(k as int, x));
        proof {
            vstd::seq_lib::to_multiset_insert(old_v, k as int, x);
        }
        assert forall|j: int, m: int| 0 <= j < m < v@.len() implies
            before(self.nodes@[v@[j] as int].pos, self.nodes@[v@[m] as int].pos) by {
            if m < k {
                assert(v@[j] == old_v[j] && v@[m] == old_v[m]);
            } else if m == k {
                assert(v@[j] == old_v[j] && v@[m] == x);
            } else if j == k {
                assert(v@[j] == x && v@[m] == old_v[m - 1]);
                if m - 1 > k {
                    assert(before(self.nodes@[old_v[k as int] as int].pos, self.nodes@[old_v[m - 1] as int].pos));
                }
            } else if j < k {
                assert(v@[j] == old_v[j] && v@[m] == old_v[m - 1]);
            } else {
                assert(v@[j] == old_v[j - 1] && v@[m] == old_v[m - 1]);
            }
        }
    }

    /// The systems one lane away from where the squad is parked, in chart
    /// order: by column, then by row.
    pub fn reachable(&self) -> (r: Vec<usize>)
        requires
            self.wf(),
        ensures
            r@ == self.reach_order(),
            r@.to_multiset() == self.spec_lanes_here().to_multiset(),
            r@.len() == self.spec_lanes_here().len(),
            forall|k: int| 0 <= k < r@.len() ==> #[trigger] r@[k] < self.nodes@.len(),
            forall|j: int, k: int| 0 <= j < k < r@.len() ==>
                before(self.nodes@[r@[j] as int].pos, self.nodes@[r@[k] as int].pos),
    {
        let here = &self.lanes[self.at];
        let mut out: Vec<usize> = Vec::new();
        assert(here@.subrange(0, 0) =~= Seq::<usize>::empty());
        proof {
            vstd::seq_lib::lemma_seq_union_to_multiset_commutative(Seq::<usize>::empty(), Seq::<usize>::empty());
        }
        let mut i: usize = 0;
        while i < here.len()
            invariant
                self.wf(),
                *here == self.lanes@[self.at as int],
                i <= here@.len(),
                out@.len() == i,
                out@ == chart_sorted(self.nodes@, here@, i as int),
                out@.to_multiset() == here@.subrange(0, i as int).to_multiset(),
                forall|k: int| 0 <= k < out@.len() ==> #[trigger] out@[k] < self.nodes@.len(),
                forall|j: int, k: int| 0 <= j < k < out@.len() ==>
                    before(self.nodes@[out@[j] as int].pos, self.nodes@[out@[k] as int].pos),
            decreases here@.len() - i,
        {
            let x = here[i];
            assert(x < self.nodes@.len());
            self.insert_sorted(&mut out, x);
            assert(here@.subrange(0, i + 1) =~= here@.subrange(0, i as int).push(x));
            proof {
                vstd::seq_lib::to_multiset_build(here@.subrange(0, i as int), x);
            }
            i = i + 1;
        }
        assert(here@.subrange(0, here@.len() as int) =~= here@);
        out
    }
}

/// `h` is the chart `m` with its cursor pointed the way `dc` and `dr` ask:
/// at the nearest system a lane reaches that way, or left where it was.
pub open spec fn map_steered(m: StarMap, dc: i32, dr: i32, h: StarMap) -> bool {
    &&& h.at == m.at
    &&& h.nodes == m.nodes
    &&& h.lanes == m.lanes
    &&& h.grid == m.grid
    &&& h.cursor == m.cursor || m.spec_lanes_here().contains(h.cursor)
    &&& ({
            let here = m.nodes@[m.at as int].pos;
            let toward = |n: usize| that_way(here, m.nodes@[n as int].pos, dc as int, dr as int);
            if exists|k: int| 0 <= k < m.spec_lanes_here().len() && toward(#[trigger] m.spec_lanes_here()[k]) {
                &&& m.spec_lanes_here().contains(h.cursor)
                &&& toward(h.cursor)
                &&& forall|k: int| 0 <= k < m.spec_lanes_here().len() && toward(#[trigger] m.spec_lanes_here()[k])
                    ==> chart_gap(here, m.nodes@[h.cursor as int].pos)
                        <= chart_gap(here, m.nodes@[m.spec_lanes_here()[k] as int].pos)
            } else {
                h.cursor == m.cursor
            }
        })
    &&& ({
            let here = m.nodes@[m.at as int].pos;
            let r = m.reach_order();
            let toward = |n: usize| that_way(here, m.nodes@[n as int].pos, dc as int, dr as int);
            (exists|k: int| 0 <= k < r.len() && toward(#[trigger] r[k])) ==> exists|k: int| {
                &&& 0 <= k < r.len()
                &&& r[k] == h.cursor
                &&& forall|j: int| 0 <= j < k && toward(#[trigger] r[j]) ==>
                    chart_gap(here, m.nodes@[r[j] as int].pos) > chart_gap(here, m.nodes@[r[k] as int].pos)
            }
        })
    &&& h == (StarMap { cursor: h.cursor, ..m })
}

impl StarMap {
    /// Step the chart cursor through the reachable systems, wrapping round.
    pub fn move_cursor(&mut self, delta: i32)
        requires
            old(self).wf(),
        ensures
            final(self).wf(),
            final(self).at == old(self).at,
            final(self).nodes == old(self).nodes,
            final(self).lanes == old(self).lanes,
            final(self).grid == old(self).grid,
            old(self).spec_lanes_here().len() == 0 ==> final(self).cursor == old(self).cursor,
            old(self).spec_lanes_here().len() > 0 ==> old(self).spec_lanes_here().contains(final(self).cursor),
            ({
                let r = old(self).reach_order();
                r.len() > 0 ==> final(self).cursor == r[(spot(r, old(self).cursor, 0) + delta) % (r.len() as int)]
            }),
            *final(self) == (StarMap { cursor: final(self).cursor, ..*old(self) }),
    {
        let lanes = self.reachable();
        if lanes.len() == 0 {
            return;
        }
        let mut at: usize = 0;
        let mut i: usize = 0;
        while i < lanes.len()
            invariant_except_break
                at == 0,
                spot(lanes@, self.cursor, 0) == spot(lanes@, self.cursor, i as int),
            invariant
                i <= lanes@.len(),
                at < lanes@.len(),
            ensures
                at == spot(lanes@, self.cursor, 0),
            decreases lanes@.len() - i,
        {
            if lanes[i] == self.cursor {
                at = i;
                break;
            }
            i = i + 1;
        }
        let n = lanes.len() as i128;
        let k = at as i128 + delta as i128;
        // Wrap round the ends of the list both ways.
        let next: i128 = if k >= 0 {
            k % n
        } else {
            let q = (0 - k) % n;
            if q == 0 { 0 } else { n - q }
        };
        proof {
            lemma_wrap(k as int, n as int);
        }
        assert(0 <= next < n);
        assert(next == (at + delta) % (n as int));
        let chosen = lanes[next as usize];
        proof {
            assert(lanes@[next as int] == chosen);
            assert(lanes@.contains(chosen));
            vstd::seq_lib::to_multiset_contains(lanes@, chosen);
            assert(lanes@.to_multiset().count(chosen) > 0);
            assert(self.spec_lanes_here().to_multiset().count(chosen) > 0);
            vstd::seq_lib::to_multiset_contains(self.spec_lanes_here(), chosen);
        }
        self.cursor = chosen;
    }

    /// Point the cursor at whichever reachable system lies that way: the
    /// nearest one (by steps across the chart) whose column moves the way `dc`
    /// asks, or whose row moves the way `dr` asks. The cursor stays put when no
    /// reachable system lies that way.
    pub fn steer(&mut self, dc: i32, dr: i32)
        requires
            old(self).wf(),
        ensures
            final(self).wf(),
            map_steered(*old(self), dc, dr, *final(self)),
    {
        let here = self.nodes[self.at].pos;
        let lanes = self.reachable();
        let mut best: Option<(usize, i64)> = None;
        let ghost mut bk: int = 0;
        let mut i: usize = 0;
        while i < lanes.len()
            invariant
                best matches Some((b, bd)) ==> {
                    &&& 0 <= bk < i
                    &&& lanes@[bk] == b
                    &&& forall|j: int| 0 <= j < bk && that_way(here, self.nodes@[(#[trigger] lanes@[j]) as int].pos, dc as int, dr as int)
                        ==> bd < chart_gap(here, self.nodes@[lanes@[j] as int].pos)
                },
                self.wf(),
                i <= lanes@.len(),
                here.0 < 1000,
                here.1 < 1000,
                forall|k: int| 0 <= k < lanes@.len() ==> #[trigger] lanes@[k] < self.nodes@.len(),
                best matches Some((b, _)) ==> lanes@.contains(b),
                here == self.nodes@[self.at as int].pos,
                best is None ==> forall|k: int| 0 <= k < i ==> !that_way(here, self.nodes@[(#[trigger] lanes@[k]) as int].pos, dc as int, dr as int),
                best matches Some((b, bd)) ==> b < self.nodes@.len() && that_way(here, self.nodes@[b as int].pos, dc as int, dr as int)
                    && bd == chart_gap(here, self.nodes@[b as int].pos)
                    && forall|k: int| 0 <= k < i && that_way(here, self.nodes@[(#[trigger] lanes@[k]) as int].pos, dc as int, dr as int)
                        ==> bd <= chart_gap(here, self.nodes@[lanes@[k] as int].pos),
            decreases lanes@.len() - i,
        {
            let cand = lanes[i];
            let there = self.nodes[cand].pos;
            let dx = there.0 as i64 - here.0 as i64;
            let dy = there.1 as i64 - here.1 as i64;
            let sx: i64 = if dx > 0 { 1 } else if dx < 0 { -1 } else { 0 };
            let sy: i64 = if dy > 0 { 1 } else if dy < 0 { -1 } else { 0 };
            if (dc != 0 && sx == dc as i64) || (dr != 0 && sy == dr as i64) {
                let d = (if dx < 0 { -dx } else { dx }) + (if dy < 0 { -dy } else { dy });
                let better = match best {
                    None => true,
                    Some((_, bd)) => d < bd,
                };
                if better {
                    best = Some((cand, d));
                    proof {
                        bk = i as int;
                    }
                }
            }
            i = i + 1;
        }
        let ghost hl = self.spec_lanes_here();
        proof {
            broadcast use vstd::seq_lib::group_to_multiset_ensures;
            assert forall|k: int| 0 <= k < hl.len() implies #[trigger] lanes@.contains(hl[k]) by {
                assert(hl.to_multiset().count(hl[k]) > 0);
                assert(lanes@.to_multiset().count(hl[k]) > 0);
            }
        }
        if let Some((next, _)) = best {
            proof {
                vstd::seq_lib::to_multiset_contains(lanes@, next);
                vstd::seq_lib::to_multiset_contains(self.spec_lanes_here(), next);
                assert forall|k: int| 0 <= k < hl.len() && that_way(here, self.nodes@[(#[trigger] hl[k]) as int].pos, dc as int, dr as int)
                    implies chart_gap(here, self.nodes@[next as int].pos) <= chart_gap(here, self.nodes@[hl[k] as int].pos) by {
                    assert(lanes@.contains(hl[k]));
                    let j = choose|j: int| 0 <= j < lanes@.len() && lanes@[j] == hl[k];
                    assert(that_way(here, self.nodes@[lanes@[j] as int].pos, dc as int, dr as int));
                }
            }
            self.cursor = next;
        } else {
            proof {
                assert forall|k: int| 0 <= k < hl.len() implies !that_way(here, self.nodes@[(#[trigger] hl[k]) as int].pos, dc as int, dr as int) by {
                    assert(lanes@.contains(hl[k]));
                    let j = choose|j: int| 0 <= j < lanes@.len() && lanes@[j] == hl[k];
                    assert(!that_way(here, self.nodes@[lanes@[j] as int].pos, dc as int, dr as int));
                }
            }
        }
    }

    /// Fly to the system under the cursor, if a lane runs to it: the squad is
    /// parked there, everything around it is charted, and the cursor moves to
    /// the first system reachable from it.
    pub fn jump(&mut self) -> (r: Option<MapNode>)
        requires
            old(self).wf(),
        ensures
            final(self).wf(),
            final(self).nodes@.len() == old(self).nodes@.len(),
            final(self).lanes == old(self).lanes,
            final(self).grid == old(self).grid,
            r is None <==> !old(self).spec_lanes_here().contains(old(self).cursor),
            r is None ==> *final(self) == *old(self),
            r is Some ==> final(self).at == old(self).cursor,
            r is Some ==> final(self).nodes@[final(self).at as int].explored,
            r matches Some(n) ==> n == final(self).nodes@[final(self).at as int],
            r is Some ==> forall|j: int| 0 <= j < final(self).spec_lanes_here().len() ==>
                #[trigger] final(self).nodes@[final(self).spec_lanes_here()[j] as int].explored,
            r is Some ==> final(self).cursor == final(self).first_reach(),
            r is Some ==> forall|i: int| 0 <= i < old(self).nodes@.len() ==> {
                let (a, b) = (#[trigger] final(self).nodes@[i], old(self).nodes@[i]);
                &&& a == (MapNode { explored: a.explored, ..b })
                &&& (b.explored ==> a.explored)
            },
            StarMap::count_nodes(final(self).nodes@, true) >= StarMap::count_nodes(old(self).nodes@, true),
            StarMap::count_nodes(final(self).nodes@, false) == StarMap::count_nodes(old(self).nodes@, false),
    {
        if !holds(&self.lanes[self.at], self.cursor) {
            return None;
        }
        self.at = self.cursor;
        let ghost parked = self.nodes@;
        self.chart_surroundings();
        proof {
            lemma_count_grows(parked, self.nodes@);
        }
        let node = self.nodes[self.at];
        let reach = self.reachable();
        self.cursor = if reach.len() > 0 { reach[0] } else { self.at };
        Some(node)
    }

    /// Mark the system the squad is parked at as done.
    pub fn clear_here(&mut self)
        requires
            old(self).wf(),
        ensures
            final(self).wf(),
            final(self).at == old(self).at,
            final(self).cursor == old(self).cursor,
            final(self).lanes == old(self).lanes,
            final(self).grid == old(self).grid,
            final(self).nodes@ == old(self).nodes@.update(old(self).at as int, MapNode { cleared: true, ..old(self).nodes@[old(self).at as int] }),
    {
        let mut n = self.nodes[self.at];
        n.cleared = true;
        self.nodes.set(self.at, n);
    }

    /// The system the squad is parked at.
    pub fn here(&self) -> (r: MapNode)
        requires
            self.wf(),
        ensures
            r == self.nodes@[self.at as int],
    {
        self.nodes[self.at]
    }

    /// How many systems satisfy `f`, counting the first `n` of them.
    pub open spec fn count_nodes(nodes: Seq<MapNode>, explored: bool) -> nat
        decreases nodes.len(),
    {
        if nodes.len() == 0 {
            0
        } else {
            Self::count_nodes(nodes.drop_last(), explored)
                + if (if explored { nodes.last().explored } else { nodes.last().cleared }) { 1nat } else { 0nat }
        }
    }

    fn count(&self, explored: bool) -> (r: usize)
        ensures
            r == Self::count_nodes(self.nodes@, explored),
    {
        let mut n: usize = 0;
        let mut i: usize = 0;
        while i < self.nodes.len()
            invariant
                i <= self.nodes@.len(),
                n == Self::count_nodes(self.nodes@.subrange(0, i as int), explored),
                n <= i,
            decreases self.nodes@.len() - i,
        {
            assert(self.nodes@.subrange(0, i + 1).drop_last() =~= self.nodes@.subrange(0, i as int));
            let node = self.nodes[i];
            if (explored && node.explored) || (!explored && node.cleared) {
                n = n + 1;
            }
            i = i + 1;
        }
        assert(self.nodes@.subrange(0, i as int) =~= self.nodes@);
        n
    }

    /// How much of the galaxy has been seen.
    pub fn charted(&self) -> (r: usize)
        ensures
            r == Self::count_nodes(self.nodes@, true),
    {
        self.count(true)
    }

    /// How much of it has been cleared out.
    pub fn cleared(&self) -> (r: usize)
        ensures
            r == Self::count_nodes(self.nodes@, false),
    {
        self.count(false)
    }
}

/// Lanes run both ways: if a lane leads from one system to another, one leads
/// straight back.
pub proof fn lanes_run_both_ways(map: StarMap, a: int, j: int)
    requires
        map.wf(),
        0 <= a < map.lanes@.len(),
        0 <= j < map.lanes@[a]@.len(),
    ensures
        map.lanes@[map.lanes@[a]@[j] as int]@.contains(a as usize),
{
    let b = map.lanes@[a]@[j];
    assert(map.lanes@[b as int]@.contains(a as usize));
}

} // verus!
