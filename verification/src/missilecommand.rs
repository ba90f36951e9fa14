//! Missile Command: missiles rain down on six cities, and interceptors fired
//! at the crosshair blow up into expanding blasts that take them out.

use vstd::prelude::*;

use crate::keys::Key;

use crate::arith::{add16, clamp_int, clamp16, dist16, lcg, lcg_next, sub16};

verus! {

pub const W: i16 = 48;
pub const H: i16 = 22;
pub const CITY_ROW: i16 = H - 1;
pub const BAT_COL: i16 = 24;
pub const BLAST_MAX: i16 = 3;
pub const BLAST_TTL: i16 = 4;
pub const WAVE_BONUS: u32 = 25;
pub const CITY_COLS: [i16; 6] = [4, 10, 16, 32, 38, 44];

/// Whether a cell lies on the board.
pub fn on_board(r: i16, c: i16) -> (b: bool)
    ensures
        b == (0 <= r < H && 0 <= c < W),
{
    0 <= r && r < H && 0 <= c && c < W
}

/// One city on the ground row.
#[derive(Clone, Copy, Debug)]
pub struct City {
    pub col: i16,
    pub alive: bool,
}

/// An incoming missile, sliding toward the column of its target city.
#[derive(Clone, Copy, Debug)]
pub struct Missile {
    pub r: i16,
    pub c: i16,
    pub tc: i16,
}

/// An interceptor flying from the battery to where the crosshair was.
#[derive(Clone, Copy, Debug)]
pub struct Interceptor {
    pub r: i16,
    pub c: i16,
    pub tr: i16,
    pub tc: i16,
}

/// An expanding blast that destroys any missile inside it.
#[derive(Clone, Copy, Debug)]
pub struct Blast {
    pub r: i16,
    pub c: i16,
    pub radius: i16,
    pub ttl: i16,
}

/// The first `n` interceptors after a tick: each steps a cell toward its
/// target along both axes; one that gets there becomes a fresh blast there,
/// the rest fly on. Gives the ones flying on and the new blasts, in order.
pub open spec fn flown(its: Seq<Interceptor>, n: int) -> (Seq<Interceptor>, Seq<Blast>)
    decreases n,
{
    if n <= 0 {
        (Seq::empty(), Seq::empty())
    } else {
        let (flying, blasts) = flown(its, n - 1);
        let it = its[n - 1];
        let next = Interceptor { r: toward(it.r, it.tr), c: toward(it.c, it.tc), ..it };
        if next.r == it.tr && next.c == it.tc {
            (flying, blasts.push(Blast { r: it.tr, c: it.tc, radius: 1, ttl: BLAST_TTL }))
        } else {
            (flying.push(next), blasts)
        }
    }
}

/// The first `n` blasts a tick older: each grows a cell up to the largest
/// size and loses a tick; those with none left are gone.
pub open spec fn aged(bs: Seq<Blast>, n: int) -> Seq<Blast>
    decreases n,
{
    if n <= 0 {
        Seq::empty()
    } else {
        let b = bs[n - 1];
        let grown = crate::arith::clamp_int(b.radius + 1, i16::MIN as int, i16::MAX as int);
        let ttl = crate::arith::clamp_int(b.ttl - 1, i16::MIN as int, i16::MAX as int);
        let next = Blast { radius: (if grown < BLAST_MAX { grown } else { BLAST_MAX as int }) as i16, ttl: ttl as i16, ..b };
        if ttl > 0 { aged(bs, n - 1).push(next) } else { aged(bs, n - 1) }
    }
}

/// One step of `v` toward `target`.
pub open spec fn toward(v: i16, target: i16) -> i16 {
    if v < target { (v + 1) as i16 } else if v > target { (v - 1) as i16 } else { v }
}

/// Whether a blast covers a missile.
pub open spec fn covers(b: Blast, m: Missile) -> bool {
    crate::arith::abs_int(m.r - b.r) <= b.radius && crate::arith::abs_int(m.c - b.c) <= b.radius
}

/// A missile a tick later: a row lower, a column nearer its target.
pub open spec fn fall(m: Missile) -> Missile {
    Missile { r: crate::arith::clamp_int(m.r + 1, i16::MIN as int, i16::MAX as int) as i16, c: toward(m.c, m.tc), ..m }
}

/// `a + b` held at `u32::MAX`.
pub open spec fn sat_add(a: int, b: int) -> u32 {
    if a + b > u32::MAX { u32::MAX } else { (a + b) as u32 }
}

/// The first `n` missiles against the blasts: those no blast covers stay,
/// in order, and the rest are counted.
pub open spec fn downed(ms: Seq<Missile>, bs: Seq<Blast>, n: int) -> (Seq<Missile>, int)
    decreases n,
{
    if n <= 0 {
        (Seq::empty(), 0)
    } else {
        let (left, hits) = downed(ms, bs, n - 1);
        let m = ms[n - 1];
        if exists|k: int| 0 <= k < bs.len() && covers(#[trigger] bs[k], m) {
            (left, hits + 1)
        } else {
            (left.push(m), hits)
        }
    }
}

/// The cities with the first live one at `col`, from index `j` on, gone.
pub open spec fn strike_from(cities: Seq<City>, col: i16, j: int) -> Seq<City>
    decreases cities.len() - j,
{
    if j < 0 || j >= cities.len() {
        cities
    } else if cities[j].alive && cities[j].col == col {
        cities.update(j, City { col, alive: false })
    } else {
        strike_from(cities, col, j + 1)
    }
}

/// The first `n` missiles come down: each on the ground row strikes its
/// column and is gone, the others stay in the air, in order.
pub open spec fn grounded(cities: Seq<City>, ms: Seq<Missile>, n: int) -> (Seq<City>, Seq<Missile>)
    decreases n,
{
    if n <= 0 {
        (cities, Seq::empty())
    } else {
        let (cs, air) = grounded(cities, ms, n - 1);
        let m = ms[n - 1];
        if m.r >= CITY_ROW { (strike_from(cs, m.c, 0), air) } else { (cs, air.push(m)) }
    }
}

/// The board a tick on, before the spawner runs: the cities, the missiles
/// in the air, the interceptors, the blasts and the score.
pub open spec fn flight(g: Game) -> (Seq<City>, Seq<Missile>, Seq<Interceptor>, Seq<Blast>, u32) {
    let fallen = g.missiles@.map_values(|m: Missile| fall(m));
    let (flying, bursts) = flown(g.interceptors@, g.interceptors@.len() as int);
    let all = g.blasts@ + bursts;
    let blasts = aged(all, all.len() as int);
    let (left, hits) = downed(fallen, blasts, fallen.len() as int);
    let (cities, air) = grounded(g.cities@, left, left.len() as int);
    (cities, air, flying, blasts, sat_add(g.score as int, hits))
}

proof fn lemma_strike_keeps(cities: Seq<City>, col: i16, j: int)
    ensures
        strike_from(cities, col, j).len() == cities.len(),
        forall|i: int| 0 <= i < cities.len() ==> (#[trigger] strike_from(cities, col, j)[i]).col == cities[i].col,
        forall|i: int| 0 <= i < cities.len() ==> (#[trigger] strike_from(cities, col, j)[i]).alive ==> cities[i].alive,
    decreases cities.len() - j,
{
    if 0 <= j < cities.len() && !(cities[j].alive && cities[j].col == col) {
        lemma_strike_keeps(cities, col, j + 1);
    }
}

proof fn lemma_grounded_keeps_cities(cities: Seq<City>, ms: Seq<Missile>, n: int)
    ensures
        grounded(cities, ms, n).0.len() == cities.len(),
        forall|i: int| 0 <= i < cities.len() ==> (#[trigger] grounded(cities, ms, n).0[i]).col == cities[i].col,
        forall|i: int| 0 <= i < cities.len() ==> (#[trigger] grounded(cities, ms, n).0[i]).alive ==> cities[i].alive,
    decreases n,
{
    if n > 0 {
        lemma_grounded_keeps_cities(cities, ms, n - 1);
        let cs = grounded(cities, ms, n - 1).0;
        lemma_strike_keeps(cs, ms[n - 1].c, 0);
    }
}

/// A city standing, alive, in column `col`.
pub open spec fn stands_at(c: City, col: i16) -> bool {
    c.alive && c.col == col
}

/// From city `j` on, a strike on `col` fells the first city standing in
/// that column and leaves every other city as it was; with none standing
/// there, nothing changes.
proof fn strike_shape(cities: Seq<City>, col: i16, j: int)
    requires
        0 <= j <= cities.len(),
    ensures
        (forall|i: int| j <= i < cities.len() ==> !stands_at(#[trigger] cities[i], col))
            ==> strike_from(cities, col, j) == cities,
        forall|k: int| j <= k < cities.len() && stands_at(#[trigger] cities[k], col)
            && (forall|i: int| j <= i < k ==> !stands_at(#[trigger] cities[i], col))
            ==> strike_from(cities, col, j) == cities.update(k, City { col: cities[k].col, alive: false }),
    decreases cities.len() - j,
{
    if j < cities.len() {
        if stands_at(cities[j], col) {
            assert forall|k: int| j <= k < cities.len() && stands_at(#[trigger] cities[k], col)
                && (forall|i: int| j <= i < k ==> !stands_at(#[trigger] cities[i], col))
                implies strike_from(cities, col, j) == cities.update(k, City { col: cities[k].col, alive: false }) by {
                if k > j {
                    assert(!stands_at(cities[j], col));
                }
            }
        } else {
            strike_shape(cities, col, j + 1);
            assert forall|k: int| j <= k < cities.len() && stands_at(#[trigger] cities[k], col)
                && (forall|i: int| j <= i < k ==> !stands_at(#[trigger] cities[i], col))
                implies strike_from(cities, col, j) == cities.update(k, City { col: cities[k].col, alive: false }) by {
                assert(k != j);
                assert forall|i: int| j + 1 <= i < k implies !stands_at(#[trigger] cities[i], col) by {}
            }
        }
    }
}

/// A missile grounded in column `col` fells exactly one city: the first
/// still standing in that column, when there is one. Every other city keeps
/// its column and its state; a city in another column is never touched.
pub proof fn a_grounded_missile_fells_only_its_own_city(cities: Seq<City>, col: i16)
    ensures
        strike_from(cities, col, 0).len() == cities.len(),
        forall|i: int| 0 <= i < cities.len() && cities[i].col != col
            ==> #[trigger] strike_from(cities, col, 0)[i] == cities[i],
        (forall|i: int| 0 <= i < cities.len() ==> !stands_at(#[trigger] cities[i], col))
            ==> strike_from(cities, col, 0) == cities,
        forall|k: int| 0 <= k < cities.len() && stands_at(#[trigger] cities[k], col)
            && (forall|i: int| 0 <= i < k ==> !stands_at(#[trigger] cities[i], col))
            ==> {
                let r = strike_from(cities, col, 0);
                &&& !r[k].alive && r[k].col == col
                &&& forall|i: int| 0 <= i < cities.len() && i != k ==> #[trigger] r[i] == cities[i]
            },
{
    strike_shape(cities, col, 0);
    lemma_strike_keeps(cities, col, 0);
    let r = strike_from(cities, col, 0);
    if exists|k: int| 0 <= k < cities.len() && stands_at(#[trigger] cities[k], col) {
        let k0 = choose|k: int| 0 <= k < cities.len() && stands_at(#[trigger] cities[k], col);
        first_standing(cities, col, k0);
        let k = choose|k: int| 0 <= k <= k0 && stands_at(#[trigger] cities[k], col)
            && (forall|i: int| 0 <= i < k ==> !stands_at(#[trigger] cities[i], col));
        assert(r == cities.update(k, City { col: cities[k].col, alive: false }));
        assert forall|i: int| 0 <= i < cities.len() && cities[i].col != col implies #[trigger] r[i] == cities[i] by {
            assert(i != k);
        }
    }
}

/// When some city up to `k0` stands in `col`, a first one does.
proof fn first_standing(cities: Seq<City>, col: i16, k0: int)
    requires
        0 <= k0 < cities.len(),
        stands_at(cities[k0], col),
    ensures
        exists|k: int| 0 <= k <= k0 && stands_at(#[trigger] cities[k], col)
            && (forall|i: int| 0 <= i < k ==> !stands_at(#[trigger] cities[i], col)),
    decreases k0,
{
    if exists|i: int| 0 <= i < k0 && stands_at(#[trigger] cities[i], col) {
        let i = choose|i: int| 0 <= i < k0 && stands_at(#[trigger] cities[i], col);
        first_standing(cities, col, i);
    } else {
        assert(stands_at(cities[k0], col));
    }
}

/// Bringing missiles down only fells cities in columns some grounded
/// missile reached: a city in any other column is just as it was.
pub proof fn only_struck_columns_lose_cities(cities: Seq<City>, ms: Seq<Missile>, n: int)
    requires
        0 <= n <= ms.len(),
    ensures
        grounded(cities, ms, n).0.len() == cities.len(),
        forall|i: int| 0 <= i < cities.len()
            && (forall|m: int| 0 <= m < n && (#[trigger] ms[m]).r >= CITY_ROW ==> ms[m].c != cities[i].col)
            ==> #[trigger] grounded(cities, ms, n).0[i] == cities[i],
    decreases n,
{
    lemma_grounded_keeps_cities(cities, ms, n);
    if n > 0 {
        only_struck_columns_lose_cities(cities, ms, n - 1);
        let cs = grounded(cities, ms, n - 1).0;
        let m = ms[n - 1];
        a_grounded_missile_fells_only_its_own_city(cs, m.c);
        lemma_grounded_keeps_cities(cities, ms, n - 1);
        assert forall|i: int| 0 <= i < cities.len()
            && (forall|mm: int| 0 <= mm < n && (#[trigger] ms[mm]).r >= CITY_ROW ==> ms[mm].c != cities[i].col)
            implies #[trigger] grounded(cities, ms, n).0[i] == cities[i] by {
            assert forall|mm: int| 0 <= mm < n - 1 && (#[trigger] ms[mm]).r >= CITY_ROW implies ms[mm].c != cities[i].col by {
                assert(ms[mm] == ms[mm]);
            }
            assert(cs[i] == cities[i]);
            if m.r >= CITY_ROW {
                assert(ms[n - 1].c != cities[i].col);
                assert(cs[i].col != m.c);
            }
        }
    }
}

proof fn lemma_downed_hits(ms: Seq<Missile>, bs: Seq<Blast>, n: int)
    ensures
        downed(ms, bs, n).1 >= 0,
    decreases n,
{
    if n > 0 {
        lemma_downed_hits(ms, bs, n - 1);
    }
}

/// The pure Missile Command board.
pub struct Game {
    pub cities: Vec<City>,
    pub missiles: Vec<Missile>,
    pub interceptors: Vec<Interceptor>,
    pub blasts: Vec<Blast>,
    pub cross: (i16, i16),
    pub score: u32,
    pub wave: u32,
    pub spawned: u32,
    pub quota: u32,
    pub spawn_timer: i16,
    pub spawn_period: i16,
    pub rng: u64,
}

impl Game {
    /// Six live cities, nothing in the air, the crosshair mid-board, and wave
    /// one of eight missiles.
    pub fn new(seed: u64) -> (r: Game)
        ensures
            fresh_board(seed, r),
    {
        let cols = CITY_COLS;
        let mut cities: Vec<City> = Vec::new();
        let mut i: usize = 0;
        while i < 6
            invariant
                i <= 6,
                cols == CITY_COLS,
                cities@.len() == i,
                forall|k: int| 0 <= k < i ==> #[trigger] cities@[k] == (City { col: CITY_COLS[k], alive: true }),
            decreases 6 - i,
        {
            cities.push(City { col: cols[i], alive: true });
            i = i + 1;
        }
        Game {
            cities,
            missiles: Vec::new(),
            interceptors: Vec::new(),
            blasts: Vec::new(),
            cross: (11, 24),
            score: 0,
            wave: 1,
            spawned: 0,
            quota: 8,
            spawn_timer: 12,
            spawn_period: 12,
            rng: seed | 1,
        }
    }

    /// The next number off the board's LCG.
    pub fn rand(&mut self) -> (r: u64)
        ensures
            final(self).rng == lcg_next(old(self).rng),
            r == lcg_next(old(self).rng) >> 33,
            *final(self) == (Game { rng: final(self).rng, ..*old(self) }),
    {
        let (next, out) = lcg(self.rng);
        self.rng = next;
        out
    }

    pub open spec fn spec_game_over(&self) -> bool {
        forall|i: int| 0 <= i < self.cities@.len() ==> !(#[trigger] self.cities@[i]).alive
    }

    /// The game is over once every city is gone.
    pub fn game_over(&self) -> (r: bool)
        ensures
            r == self.spec_game_over(),
    {
        let mut i: usize = 0;
        while i < self.cities.len()
            invariant
                i <= self.cities@.len(),
                forall|k: int| 0 <= k < i ==> !(#[trigger] self.cities@[k]).alive,
            decreases self.cities@.len() - i,
        {
            if self.cities[i].alive {
                return false;
            }
            i = i + 1;
        }
        true
    }

    /// Move the crosshair, clamped above the ground row and to the board.
    pub fn move_cross(&mut self, dr: i16, dc: i16)
        ensures
            cross_moved(*old(self), dr, dc, *final(self)),
    {
        self.cross.0 = clamp16(add16(self.cross.0, dr), 0, CITY_ROW - 1);
        self.cross.1 = clamp16(add16(self.cross.1, dc), 0, W - 1);
    }

    /// Launch an interceptor from the battery at the crosshair.
    pub fn fire(&mut self)
        ensures
            fired_at_cross(*old(self), *final(self)),
    {
        let it = Interceptor { r: CITY_ROW, c: BAT_COL, tr: self.cross.0, tc: self.cross.1 };
        self.interceptors.push(it);
    }

    /// Put a missile in the air at a random column, aimed at a random living
    /// city (or straight down when none is left).
    pub fn spawn_missile(&mut self)
        ensures
            final(self).missiles@.len() == old(self).missiles@.len() + 1,
            final(self).missiles@.drop_last() == old(self).missiles@,
            final(self).missiles@.last().r == 0,
            *final(self) == (Game { missiles: final(self).missiles, rng: final(self).rng, ..*old(self) }),
    {
        let col = (self.rand() % W as u64) as i16;
        let mut alive: Vec<i16> = Vec::new();
        let mut i: usize = 0;
        while i < self.cities.len()
            invariant
                i <= self.cities@.len(),
            decreases self.cities@.len() - i,
        {
            if self.cities[i].alive {
                alive.push(self.cities[i].col);
            }
            i = i + 1;
        }
        let tc = if alive.len() == 0 {
            col
        } else {
            let k = (self.rand() as usize) % alive.len();
            alive[k]
        };
        self.missiles.push(Missile { r: 0, c: col, tc });
        assert(self.missiles@.drop_last() =~= old(self).missiles@);
    }

    /// Move the interceptors; one that reaches its mark becomes a blast.
    fn fly_interceptors(&mut self)
        ensures
            *final(self) == (Game { interceptors: final(self).interceptors, blasts: final(self).blasts, ..*old(self) }),
            ({
                let (flying, blasts) = flown(old(self).interceptors@, old(self).interceptors@.len() as int);
                final(self).interceptors@ == flying && final(self).blasts@ == old(self).blasts@ + blasts
            }),
    {
        let mut flying: Vec<Interceptor> = Vec::new();
        let ghost before = *self;
        let mut i: usize = 0;
        while i < self.interceptors.len()
            invariant
                i <= self.interceptors@.len(),
                *self == (Game { blasts: self.blasts, ..before }),
                ({
                    let (f, b) = flown(before.interceptors@, i as int);
                    flying@ == f && self.blasts@ == before.blasts@ + b
                }),
            decreases self.interceptors@.len() - i,
        {
            let mut it = self.interceptors[i];
            it.r = if it.r < it.tr { it.r + 1 } else if it.r > it.tr { it.r - 1 } else { it.r };
            it.c = if it.c < it.tc { it.c + 1 } else if it.c > it.tc { it.c - 1 } else { it.c };
            if it.r == it.tr && it.c == it.tc {
                self.blasts.push(Blast { r: it.tr, c: it.tc, radius: 1, ttl: BLAST_TTL });
            } else {
                flying.push(it);
            }
            proof {
                let (f, b) = flown(before.interceptors@, i as int);
                let (f2, b2) = flown(before.interceptors@, i + 1);
                assert(self.blasts@ =~= before.blasts@ + b2);
                assert(flying@ =~= f2);
            }
            i = i + 1;
        }
        self.interceptors = flying;
    }

    /// Grow every blast and age it; spent blasts are gone.
    fn age_blasts(&mut self)
        ensures
            forall|k: int| 0 <= k < final(self).blasts@.len() ==> (#[trigger] final(self).blasts@[k]).ttl > 0,
            *final(self) == (Game { blasts: final(self).blasts, ..*old(self) }),
            final(self).blasts@ == aged(old(self).blasts@, old(self).blasts@.len() as int),
    {
        let mut kept: Vec<Blast> = Vec::new();
        let mut i: usize = 0;
        while i < self.blasts.len()
            invariant
                i <= self.blasts@.len(),
                forall|k: int| 0 <= k < kept@.len() ==> (#[trigger] kept@[k]).ttl > 0,
                *self == *old(self),
                kept@ == aged(self.blasts@, i as int),
            decreases self.blasts@.len() - i,
        {
            let mut b = self.blasts[i];
            let grown = add16(b.radius, 1);
            b.radius = if grown < BLAST_MAX { grown } else { BLAST_MAX };
            b.ttl = sub16(b.ttl, 1);
            if b.ttl > 0 {
                kept.push(b);
            }
            i = i + 1;
        }
        self.blasts = kept;
    }

    /// Every missile a row lower and a column nearer its target.
    fn fall_missiles(&mut self)
        ensures
            final(self).missiles@ == old(self).missiles@.map_values(|m: Missile| fall(m)),
            *final(self) == (Game { missiles: final(self).missiles, ..*old(self) }),
    {
        let mut i: usize = 0;
        let ghost start = *self;
        while i < self.missiles.len()
            invariant
                i <= self.missiles@.len(),
                self.missiles@.len() == start.missiles@.len(),
                forall|k: int| 0 <= k < i ==> #[trigger] self.missiles@[k] == fall(start.missiles@[k]),
                forall|k: int| i <= k < self.missiles@.len() ==> #[trigger] self.missiles@[k] == start.missiles@[k],
                *self == (Game { missiles: self.missiles, ..start }),
            decreases self.missiles@.len() - i,
        {
            let mut m = self.missiles[i];
            m.r = add16(m.r, 1);
            m.c = if m.c < m.tc { m.c + 1 } else if m.c > m.tc { m.c - 1 } else { m.c };
            self.missiles.set(i, m);
            i = i + 1;
        }
        assert(self.missiles@ =~= start.missiles@.map_values(|m: Missile| fall(m)));
    }

    /// Whether any blast covers `m`.
    fn blasted(&self, m: Missile) -> (hit: bool)
        ensures
            hit == exists|k: int| 0 <= k < self.blasts@.len() && covers(#[trigger] self.blasts@[k], m),
    {
        let mut k: usize = 0;
        while k < self.blasts.len()
            invariant
                k <= self.blasts@.len(),
                forall|q: int| 0 <= q < k ==> !covers(#[trigger] self.blasts@[q], m),
            decreases self.blasts@.len() - k,
        {
            let b = self.blasts[k];
            if dist16(m.r, b.r) <= b.radius as i32 && dist16(m.c, b.c) <= b.radius as i32 {
                assert(covers(self.blasts@[k as int], m));
                return true;
            }
            k = k + 1;
        }
        false
    }

    /// Missiles inside a blast are gone, a point each.
    fn shoot_down(&mut self)
        ensures
            ({
                let (left, hits) = downed(old(self).missiles@, old(self).blasts@, old(self).missiles@.len() as int);
                &&& final(self).missiles@ == left
                &&& final(self).score == sat_add(old(self).score as int, hits)
            }),
            *final(self) == (Game { missiles: final(self).missiles, score: final(self).score, ..*old(self) }),
    {
        let mut survivors: Vec<Missile> = Vec::new();
        let ghost start = *self;
        let mut i: usize = 0;
        while i < self.missiles.len()
            invariant
                i <= self.missiles@.len(),
                *self == (Game { score: self.score, ..start }),
                ({
                    let (left, hits) = downed(start.missiles@, start.blasts@, i as int);
                    survivors@ == left && self.score == sat_add(start.score as int, hits)
                }),
            decreases self.missiles@.len() - i,
        {
            let m = self.missiles[i];
            proof {
                lemma_downed_hits(start.missiles@, start.blasts@, i as int);
            }
            if self.blasted(m) {
                self.score = self.score.saturating_add(1);
            } else {
                survivors.push(m);
            }
            i = i + 1;
        }
        self.missiles = survivors;
    }

    /// The first live city in column `col` is gone.
    fn strike(&mut self, col: i16)
        ensures
            final(self).cities@ == strike_from(old(self).cities@, col, 0),
            *final(self) == (Game { cities: final(self).cities, ..*old(self) }),
    {
        let mut j: usize = 0;
        while j < self.cities.len()
            invariant
                j <= self.cities@.len(),
                *self == *old(self),
                strike_from(self.cities@, col, 0) == strike_from(self.cities@, col, j as int),
            decreases self.cities@.len() - j,
        {
            let city = self.cities[j];
            if city.alive && city.col == col {
                self.cities.set(j, City { col: city.col, alive: false });
                return;
            }
            j = j + 1;
        }
    }

    /// Missiles that reach the ground row take out a city and are gone.
    fn ground_missiles(&mut self)
        ensures
            ({
                let (cities, air) = grounded(old(self).cities@, old(self).missiles@, old(self).missiles@.len() as int);
                final(self).cities@ == cities && final(self).missiles@ == air
            }),
            *final(self) == (Game { cities: final(self).cities, missiles: final(self).missiles, ..*old(self) }),
    {
        let mut airborne: Vec<Missile> = Vec::new();
        let ghost start = *self;
        let mut i: usize = 0;
        while i < self.missiles.len()
            invariant
                i <= self.missiles@.len(),
                *self == (Game { cities: self.cities, ..start }),
                ({
                    let (cities, air) = grounded(start.cities@, start.missiles@, i as int);
                    self.cities@ == cities && airborne@ == air
                }),
            decreases self.missiles@.len() - i,
        {
            let m = self.missiles[i];
            if m.r >= CITY_ROW {
                self.strike(m.c);
            } else {
                airborne.push(m);
            }
            i = i + 1;
        }
        self.missiles = airborne;
    }

    /// Advance one tick: missiles fall, interceptors fly and burst, blasts
    /// grow and destroy what they cover (a point each), grounded missiles take
    /// out the first live city in their column, and the spawner runs the wave,
    /// starting the next one with a bonus once it is launched and cleared.
    pub fn step(&mut self)
        ensures
            old(self).spec_game_over() ==> *final(self) == *old(self),
            !old(self).spec_game_over() ==> {
                let (cities, missiles, interceptors, blasts, score) = flight(*old(self));
                let landed = forall|i: int| 0 <= i < cities.len() ==> !(#[trigger] cities[i]).alive;
                let timer = clamp_int(old(self).spawn_timer - 1, i16::MIN as int, i16::MAX as int);
                &&& final(self).cities@ == cities
                &&& final(self).interceptors@ == interceptors
                &&& final(self).blasts@ == blasts
                &&& final(self).cross == old(self).cross
                &&& if landed || (old(self).spawned >= old(self).quota && missiles.len() > 0) {
                    &&& final(self).missiles@ == missiles
                    &&& final(self).score == score
                    &&& final(self).wave == old(self).wave
                    &&& final(self).spawned == old(self).spawned
                    &&& final(self).quota == old(self).quota
                    &&& final(self).spawn_timer == old(self).spawn_timer
                    &&& final(self).spawn_period == old(self).spawn_period
                    &&& final(self).rng == old(self).rng
                } else if old(self).spawned < old(self).quota {
                    &&& final(self).score == score
                    &&& final(self).wave == old(self).wave
                    &&& final(self).quota == old(self).quota
                    &&& final(self).spawn_period == old(self).spawn_period
                    &&& if timer <= 0 {
                        &&& final(self).missiles@.drop_last() == missiles
                        &&& final(self).missiles@.len() == missiles.len() + 1
                        &&& final(self).missiles@.last().r == 0
                        &&& final(self).spawned == old(self).spawned + 1
                        &&& final(self).spawn_timer == old(self).spawn_period
                    } else {
                        &&& final(self).missiles@ == missiles
                        &&& final(self).spawned == old(self).spawned
                        &&& final(self).spawn_timer == timer
                        &&& final(self).rng == old(self).rng
                    }
                } else {
                    let shorter = clamp_int(old(self).spawn_period - 1, i16::MIN as int, i16::MAX as int);
                    let period = if shorter >= 4 { shorter } else { 4 };
                    &&& final(self).missiles@ == missiles
                    &&& final(self).wave == sat_add(old(self).wave as int, 1)
                    &&& final(self).score == sat_add(score as int, WAVE_BONUS as int)
                    &&& final(self).spawned == 0
                    &&& final(self).quota == sat_add(old(self).quota as int, 2)
                    &&& final(self).spawn_period == period
                    &&& final(self).spawn_timer == period
                    &&& final(self).rng == old(self).rng
                }
            },
            final(self).cities@.len() == old(self).cities@.len(),
            forall|i: int| 0 <= i < final(self).cities@.len() ==>
                (#[trigger] final(self).cities@[i]).alive ==> old(self).cities@[i].alive,
            forall|i: int| 0 <= i < final(self).cities@.len() ==>
                (#[trigger] final(self).cities@[i]).col == old(self).cities@[i].col,
            final(self).score >= old(self).score,
            final(self).wave == old(self).wave || final(self).wave == old(self).wave + 1,
            !old(self).spec_game_over() ==> forall|k: int| 0 <= k < final(self).blasts@.len() ==> (#[trigger] final(self).blasts@[k]).ttl > 0,
    {
        if self.game_over() {
            return;
        }
        let ghost before = *self;
        self.fall_missiles();
        self.fly_interceptors();
        self.age_blasts();
        self.shoot_down();
        self.ground_missiles();
        proof {
            let fallen = before.missiles@.map_values(|m: Missile| fall(m));
            let (left, hits) = downed(fallen, self.blasts@, fallen.len() as int);
            lemma_grounded_keeps_cities(before.cities@, left, left.len() as int);
            lemma_downed_hits(fallen, self.blasts@, fallen.len() as int);
            let f = flight(before);
            assert(self.cities@ == f.0);
            assert(self.missiles@ == f.1);
            assert(self.interceptors@ == f.2);
            assert(self.blasts@ == f.3);
            assert(self.score == f.4);
        }
        if !self.game_over() {
            if self.spawned < self.quota {
                self.spawn_timer = sub16(self.spawn_timer, 1);
                if self.spawn_timer <= 0 {
                    self.spawn_missile();
                    self.spawned = self.spawned + 1;
                    self.spawn_timer = self.spawn_period;
                }
            } else if self.missiles.len() == 0 {
                self.wave = self.wave.saturating_add(1);
                self.score = self.score.saturating_add(WAVE_BONUS);
                self.spawned = 0;
                self.quota = self.quota.saturating_add(2);
                let shorter = sub16(self.spawn_period, 1);
                self.spawn_period = if shorter >= 4 { shorter } else { 4 };
                self.spawn_timer = self.spawn_period;
            }
        }
    }
}

impl Default for Game {
    /// The board seeded with one.
    fn default() -> (r: Self)
        ensures
            r.cities@.len() == 6,
    {
        Game::new(1)
    }
}

/// `r` is the board a fresh game from `seed` starts on: six living cities,
/// nothing in the air, the crosshair mid-court, the first wave's quota and
/// timing, and the generator seeded.
pub open spec fn fresh_board(seed: u64, r: Game) -> bool {
    &&& r.cities@.len() == 6
    &&& forall|i: int| 0 <= i < 6 ==> #[trigger] r.cities@[i] == (City { col: CITY_COLS[i], alive: true })
    &&& r.missiles@.len() == 0
    &&& r.interceptors@.len() == 0
    &&& r.blasts@.len() == 0
    &&& r.cross == (11i16, 24i16)
    &&& r.score == 0
    &&& r.wave == 1
    &&& r.spawned == 0
    &&& r.quota == 8
    &&& r.spawn_timer == 12
    &&& r.spawn_period == 12
    &&& r.rng == seed | 1
}

/// `h` is `g` with the crosshair moved `dr` rows and `dc` columns, held over
/// the court above the cities.
pub open spec fn cross_moved(g: Game, dr: i16, dc: i16, h: Game) -> bool {
    &&& h.cross.0 == clamp_int(clamp_int(g.cross.0 + dr, i16::MIN as int, i16::MAX as int), 0, CITY_ROW - 1)
    &&& h.cross.1 == clamp_int(clamp_int(g.cross.1 + dc, i16::MIN as int, i16::MAX as int), 0, W - 1)
    &&& h == (Game { cross: h.cross, ..g })
}

/// `h` is `g` with one more interceptor leaving the battery for the
/// crosshair.
pub open spec fn fired_at_cross(g: Game, h: Game) -> bool {
    &&& h.interceptors@ == g.interceptors@.push(Interceptor { r: CITY_ROW, c: BAT_COL, tr: g.cross.0, tc: g.cross.1 })
    &&& h == (Game { interceptors: h.interceptors, ..g })
}

/// The Missile Command overlay: the board, its seed, the pause, and the tick
/// timing it is driven at, in milliseconds.
pub struct MissileCommand {
    pub game: Game,
    pub seed: u64,
    pub paused: bool,
    pub last: Option<u64>,
    pub interval: u64,
}

impl MissileCommand {
    /// A board seeded with one, ticking every ninety milliseconds.
    pub fn new() -> (r: MissileCommand)
        ensures
            r.seed == 1,
            !r.paused,
            r.last is None,
            r.interval == 90,
            r.game.cities@.len() == 6,
            fresh_board(1, r.game),
    {
        MissileCommand { game: Game::new(1), seed: 1, paused: false, last: None, interval: 90 }
    }

    /// A fresh board from the next seed.
    pub fn restart(&mut self)
        ensures
            final(self).seed == old(self).seed.wrapping_add(1),
            !final(self).paused,
            final(self).last is None,
            final(self).interval == old(self).interval,
            fresh_board(final(self).seed, final(self).game),
    {
        self.seed = self.seed.wrapping_add(1);
        self.game = Game::new(self.seed);
        self.paused = false;
        self.last = None;
    }

    /// Running: not paused and not over.
    pub fn running(&self) -> (r: bool)
        ensures
            r == (!self.paused && !self.game.spec_game_over()),
    {
        !self.paused && !self.game.game_over()
    }
}

/// The board is running: not paused and not over.
pub open spec fn runs(m: MissileCommand) -> bool {
    !m.paused && !m.game.spec_game_over()
}

/// `h` is `g` after a key that does not close the overlay: the arrows and
/// `h`/`j`/`k`/`l` move the crosshair a cell, space fires at it, `p`
/// pauses or resumes, `n` starts over from the next seed, and any other key
/// leaves the board be; a board left running has its clock restarted.
pub open spec fn key_played(g: MissileCommand, key: Key, h: MissileCommand) -> bool {
    let kept = h.seed == g.seed && h.paused == g.paused && h.interval == g.interval;
    &&& match key {
        Key::Left | Key::Char('h') => kept && cross_moved(g.game, 0, -1i16, h.game),
        Key::Right | Key::Char('l') => kept && cross_moved(g.game, 0, 1, h.game),
        Key::Up | Key::Char('k') => kept && cross_moved(g.game, -1i16, 0, h.game),
        Key::Down | Key::Char('j') => kept && cross_moved(g.game, 1, 0, h.game),
        Key::Char(' ') => kept && fired_at_cross(g.game, h.game),
        Key::Char('p') => h.seed == g.seed && h.paused == !g.paused && h.interval == g.interval && h.game == g.game,
        Key::Char('n') => h.seed == g.seed.wrapping_add(1) && !h.paused && h.interval == g.interval
            && fresh_board(h.seed, h.game),
        _ => kept && h.game == g.game,
    }
    &&& h.last == (if runs(h) || key == Key::Char('n') { None } else { g.last })
}

impl MissileCommand {
    /// The clock at `now` milliseconds: while running, the board steps once
    /// an interval has passed since the last step, and the first call starts
    /// the clock.
    pub fn pace(&mut self, now: u64)
        ensures
            !(!old(self).paused && !old(self).game.spec_game_over()) ==> final(self).game == old(self).game
                && final(self).last == old(self).last,
            (!old(self).paused && !old(self).game.spec_game_over()) ==> match old(self).last {
                None => final(self).last == Some(now) && final(self).game == old(self).game,
                Some(t) => if now >= t && now - t >= old(self).interval {
                    final(self).last == Some(now)
                } else {
                    final(self).last == old(self).last && final(self).game == old(self).game
                },
            },
    {
        if self.running() {
            match self.last {
                Some(t) => {
                    if now >= t && now - t >= self.interval {
                        self.game.step();
                        self.last = Some(now);
                    }
                },
                None => {
                    self.last = Some(now);
                },
            }
        }
    }

    /// Read one key: quit, move the crosshair, fire, pause or start over;
    /// a key that leaves the board running restarts the clock. Whether the
    /// overlay closes.
    pub fn handle_key(&mut self, key: Key) -> (close: bool)
        ensures
            close == (key == Key::Char('q') || key == Key::Esc || key == Key::Ctrl('c')),
            close ==> *final(self) == *old(self),
            !close ==> key_played(*old(self), key, *final(self)),
    {
        match key {
            Key::Char('q') | Key::Esc | Key::Ctrl('c') => {
                return true;
            },
            Key::Left | Key::Char('h') => self.game.move_cross(0, -1),
            Key::Right | Key::Char('l') => self.game.move_cross(0, 1),
            Key::Up | Key::Char('k') => self.game.move_cross(-1, 0),
            Key::Down | Key::Char('j') => self.game.move_cross(1, 0),
            Key::Char(' ') => self.game.fire(),
            Key::Char('p') => self.paused = !self.paused,
            Key::Char('n') => self.restart(),
            _ => {},
        }
        if self.running() {
            self.last = None;
        }
        false
    }
}

} // verus!
