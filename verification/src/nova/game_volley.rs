//! Shots in flight and what they land on, the wingmen riding alongside, the
//! smart bomb and the launcher, settling the round, and the tick that runs
//! all of it.

use vstd::prelude::*;

use super::consts::{H, SHIP_ROW, W, WING_CADENCE, WING_OFFSETS};
use super::entities::Shot;
use super::game::Game;

use crate::arith::{add16, clamp16, sig16};
use crate::text::concat;

verus! {

/// Where an enemy shot ended up this tick.
pub enum Landing {
    /// Still in the air.
    Flying(Shot),
    /// Off the court, or into the rock.
    Gone,
    /// Stopped by the hulk at this cell.
    Blocked((i16, i16)),
    /// Into the hull, for this many pips (none under the bulwark).
    Hull(u32, bool),
    /// Into the wingman at this squad index, for this many pips.
    Wing(usize, u32),
}

/// The wingmen's cells as `wing_cells` reports them: each one alive, not the
/// hull being flown, in squad order, on the row under the hull.
pub open spec fn wings_ok(g: Game, cells: Seq<(usize, (i16, i16))>) -> bool {
    &&& cells.len() <= 3
    &&& forall|k: int| 0 <= k < cells.len() ==> {
        let (i, cell) = #[trigger] cells[k];
        &&& i < g.squad@.len()
        &&& i != g.active
        &&& g.squad@[i as int].alive
        &&& cell.0 == (if g.ship.0 + 1 <= SHIP_ROW { g.ship.0 + 1 } else { SHIP_ROW as int })
        &&& 1 <= cell.1 <= W - 2
    }
    &&& forall|j: int, k: int| 0 <= j < k < cells.len() ==> (#[trigger] cells[j]).0 < (#[trigger] cells[k]).0
}

/// Wingman `j` can ride alongside: in the squad, alive, and not the hull
/// being flown.
pub open spec fn eligible(g: Game, j: int) -> bool {
    0 <= j < g.squad@.len() && j != g.active && g.squad@[j].alive
}

/// Whether squad index `j` has a cell among `cells`.
pub open spec fn has_cell(cells: Seq<(usize, (i16, i16))>, j: int) -> bool {
    exists|k: int| 0 <= k < cells.len() && (#[trigger] cells[k]).0 == j
}

/// A shot that flew on from `s`: the same shot moved, steered, with its
/// fuse counted down and its chain maybe spent.
pub open spec fn flown_from(t: Shot, s: Shot) -> bool {
    t == (Shot { pos: t.pos, drift: t.drift, fuse: t.fuse, chain: t.chain, ..s }) && t.fuse == (if s.fuse > 0 {
        (s.fuse - 1) as i16
    } else {
        s.fuse
    })
}

/// A fragment of a burst flak shell: a plain bolt with no fuse or chain,
/// slowed to a row a tick.
pub open spec fn flak_fragment(t: Shot) -> bool {
    t == (Shot { pos: t.pos, drift: t.drift, damage: t.damage, speed: t.speed, ..Shot::spec_bolt(t.pos, t.drift, t.damage) })
}

/// `t` flew on from one of `shots`.
pub open spec fn from_old(t: Shot, shots: Seq<Shot>) -> bool {
    exists|j: int| 0 <= j < shots.len() && flown_from(t, #[trigger] shots[j])
}

/// Enemy fire `t` is one of `shots` flown on: moved and nothing else, and
/// down as many rows as its speed unless everything crawls.
pub open spec fn fired_on(t: Shot, shots: Seq<Shot>, crawl: bool) -> bool {
    exists|j: int| 0 <= j < shots.len() && t == (Shot { pos: t.pos, ..#[trigger] shots[j] })
        && (!crawl ==> t.pos.0 == shots[j].pos.0 + shot_steps(shots[j].speed))
}

/// How many rows a shot of `speed` covers in a tick.
pub open spec fn shot_steps(speed: i16) -> int {
    if speed == i16::MIN { 0 } else if speed < 0 { -speed } else { speed as int }
}

/// `h` is `g` with the wingmen flown a tick.
pub open spec fn wings_advanced(g: Game, h: Game) -> bool {
    &&& g.tick % WING_CADENCE != 0 ==> h == g
    &&& h == (Game { shots: h.shots, ..g })
    &&& h.shots@.len() >= g.shots@.len()
    &&& h.shots@.len() <= g.shots@.len() + 3
    &&& g.tick % WING_CADENCE == 0 && (exists|j: int| #[trigger] eligible(g, j))
        ==> h.shots@.len() > g.shots@.len()
}

/// `h` is `g` with the hull's shots flown a tick and their hits settled.
pub open spec fn shots_advanced(g: Game, h: Game) -> bool {
    &&& h.status == g.status
    &&& h.ship == g.ship
    &&& h.tick == g.tick
    &&& h.boss is Some <==> g.boss is Some
    &&& h.capital is Some <==> g.capital is Some
    &&& forall|k: int| 0 <= k < h.shots@.len() ==> flak_fragment(#[trigger] h.shots@[k])
        || from_old(h.shots@[k], g.shots@)
}

/// `h` is `g` with the enemy fire flown a tick and its hits settled.
pub open spec fn enemy_fire_advanced(g: Game, h: Game) -> bool {
    &&& h.status == g.status
    &&& h.ship == g.ship
    &&& h.tick == g.tick
    &&& h.boss is Some <==> g.boss is Some
    &&& h.capital is Some <==> g.capital is Some
    &&& h.enemy_shots@.len() <= g.enemy_shots@.len()
    &&& forall|k: int| 0 <= k < h.enemy_shots@.len() ==> fired_on(
        #[trigger] h.enemy_shots@[k],
        g.enemy_shots@,
        g.sense > 0 && g.tick % 2 != 0,
    )
}

impl Game {
    /// Fly one player shot a row at a time so nothing tunnels through a hull:
    /// off the court or into the rock it is gone (a cave is carved), a hit
    /// spends it unless it pierces, an arc bolt earths itself through the
    /// hulls around what it hit, and a flak shell bursts into a fan when its
    /// fuse runs out.
    fn fly_shot(&mut self, s: Shot, fragments: &mut Vec<Shot>) -> (r: Option<Shot>)
        requires
            old(self).wf(),
        ensures
            final(self).wf(),
            final(self).status == old(self).status,
            final(self).ship == old(self).ship,
            final(self).tick == old(self).tick,
            final(self).shots == old(self).shots,
            final(self).boss is Some <==> old(self).boss is Some,
            final(self).capital is Some <==> old(self).capital is Some,
            r matches Some(t) ==> flown_from(t, s) && final(fragments)@ == old(fragments)@,
            final(fragments)@.subrange(0, old(fragments)@.len() as int) == old(fragments)@,
            forall|k: int| old(fragments)@.len() <= k < final(fragments)@.len() ==> flak_fragment(#[trigger] final(fragments)@[k]),
            s.fuse == 1 ==> r is None,
            final(fragments)@.len() >= old(fragments)@.len(),
    {
        let ghost s0 = s;
        let mut s = s;
        if s.homing {
            s.drift = self.steer(&s);
        }
        let steps: i16 = if s.speed == i16::MIN { 0 } else if s.speed < 0 { -s.speed } else { s.speed };
        let dir = sig16(s.speed);
        let mut step: i16 = 0;
        while step < steps
            invariant
                0 <= step <= steps,
                s == (Shot { pos: s.pos, drift: s.drift, chain: s.chain, ..s0 }),
                fragments@ == old(fragments)@,
                self.wf(),
                self.status == old(self).status,
                self.ship == old(self).ship,
                self.tick == old(self).tick,
                self.shots == old(self).shots,
                self.boss is Some <==> old(self).boss is Some,
                self.capital is Some <==> old(self).capital is Some,
            decreases steps - step,
        {
            s.pos.0 = add16(s.pos.0, dir);
            if step == 0 {
                s.pos.1 = add16(s.pos.1, s.drift);
            }
            if s.pos.0 < 0 || !(0 <= s.pos.1 && s.pos.1 < W) {
                return None;
            }
            if self.terrain.solid(s.pos.0, s.pos.1) {
                self.terrain.carve(s.pos.0, s.pos.1);
                return None;
            }
            if self.hit_targets(&s) {
                // An arc bolt earths itself through the hulls around it.
                while s.chain > 0
                    invariant
                        s == (Shot { pos: s.pos, drift: s.drift, chain: s.chain, ..s0 }),
                        self.wf(),
                        self.status == old(self).status,
                        self.ship == old(self).ship,
                        self.tick == old(self).tick,
                        self.shots == old(self).shots,
                        self.boss is Some <==> old(self).boss is Some,
                        self.capital is Some <==> old(self).capital is Some,
                    decreases s.chain,
                {
                    let next = match self.nearest_enemy(s.pos) {
                        Some(p) => p,
                        None => {
                            break;
                        },
                    };
                    s.pos = next;
                    s.chain = s.chain - 1;
                    self.hit_targets(&s);
                }
                if !s.pierce {
                    return None;
                }
            }
            step = step + 1;
        }
        // A flak shell counts down and then throws its fan.
        if s.fuse > 0 {
            s.fuse = s.fuse - 1;
            if s.fuse == 0 {
                let mut drift: i16 = -2;
                while drift <= 2
                    invariant
                        -2 <= drift <= 3,
                        fragments@.len() >= old(fragments)@.len(),
                        fragments@.subrange(0, old(fragments)@.len() as int) == old(fragments)@,
                        forall|k: int| old(fragments)@.len() <= k < fragments@.len() ==> flak_fragment(#[trigger] fragments@[k]),
                    decreases 3 - drift,
                {
                    let mut fragment = Shot::bolt(s.pos, drift, s.damage);
                    fragment.speed = -1;
                    if self.sector.drag() {
                        fragment.slow();
                    }
                    let ghost pre = fragments@;
                    fragments.push(fragment);
                    assert(fragments@.subrange(0, old(fragments)@.len() as int) =~= pre.subrange(0, old(fragments)@.len() as int));
                    drift = drift + 1;
                }
                return None;
            }
        }
        Some(s)
    }

    /// Advance every player shot, then put the flak fragments that burst this
    /// tick in the air behind them.
    pub fn advance_shots(&mut self)
        requires
            old(self).wf(),
        ensures
            final(self).wf(),
            shots_advanced(*old(self), *final(self)),
    {
        let mut flying: Vec<Shot> = Vec::new();
        std::mem::swap(&mut flying, &mut self.shots);
        let mut kept: Vec<Shot> = Vec::new();
        let mut fragments: Vec<Shot> = Vec::new();
        let ghost empty = self.shots;
        let mut i: usize = 0;
        while i < flying.len()
            invariant
                i <= flying@.len(),
                self.wf(),
                self.status == old(self).status,
                self.ship == old(self).ship,
                self.tick == old(self).tick,
                self.shots == empty,
                self.boss is Some <==> old(self).boss is Some,
                self.capital is Some <==> old(self).capital is Some,
                flying@ == old(self).shots@,
                forall|k: int| 0 <= k < fragments@.len() ==> flak_fragment(#[trigger] fragments@[k]),
                forall|k: int| 0 <= k < kept@.len() ==> #[trigger] from_old(kept@[k], old(self).shots@),
            decreases flying@.len() - i,
        {
            let ghost fr = fragments@;
            if let Some(s) = self.fly_shot(flying[i], &mut fragments) {
                kept.push(s);
                assert(flown_from(kept@[kept@.len() - 1], old(self).shots@[i as int]));
                assert(from_old(kept@[kept@.len() - 1], old(self).shots@));
            }
            proof {
                assert forall|k: int| 0 <= k < fragments@.len() implies flak_fragment(#[trigger] fragments@[k]) by {
                    if k < fr.len() {
                        assert(fragments@[k] == fragments@.subrange(0, fr.len() as int)[k]);
                    }
                }
            }
            i = i + 1;
        }
        let mut k: usize = 0;
        while k < fragments.len()
            invariant
                k <= fragments@.len(),
                forall|j: int| 0 <= j < fragments@.len() ==> flak_fragment(#[trigger] fragments@[j]),
                forall|j: int| 0 <= j < kept@.len() ==> flak_fragment(#[trigger] kept@[j])
                    || from_old(kept@[j], old(self).shots@),
            decreases fragments@.len() - k,
        {
            kept.push(fragments[k]);
            k = k + 1;
        }
        self.shots = kept;
    }

    /// Where the living wingmen ride, as `(squad index, cell)`: one column
    /// offset each, up to three of them, on the row under the hull and inside
    /// the channel.
    pub fn wing_cells(&self) -> (r: Vec<(usize, (i16, i16))>)
        requires
            self.wf(),
        ensures
            wings_ok(*self, r@),
            forall|j: int| #[trigger] eligible(*self, j) && !has_cell(r@, j) ==> r@.len() == 3
                && forall|k: int| 0 <= k < r@.len() ==> (#[trigger] r@[k]).0 < j,
    {
        let mut cells: Vec<(usize, (i16, i16))> = Vec::new();
        let offsets = WING_OFFSETS;
        let mut slot: usize = 0;
        let mut i: usize = 0;
        while i < self.squad.len()
            invariant
                i <= self.squad@.len(),
                slot == cells@.len(),
                slot <= 3,
                offsets == WING_OFFSETS,
                self.wf(),
                wings_ok(*self, cells@),
                forall|k: int| 0 <= k < cells@.len() ==> (#[trigger] cells@[k]).0 < i,
                forall|j: int| 0 <= j < i && #[trigger] eligible(*self, j) && !has_cell(cells@, j) ==> cells@.len() == 3
                    && forall|k: int| 0 <= k < cells@.len() ==> (#[trigger] cells@[k]).0 < j,
            ensures
                wings_ok(*self, cells@),
                forall|j: int| #[trigger] eligible(*self, j) && !has_cell(cells@, j) ==> cells@.len() == 3
                    && forall|k: int| 0 <= k < cells@.len() ==> (#[trigger] cells@[k]).0 < j,
            decreases self.squad@.len() - i,
        {
            if i != self.active && self.squad[i].alive {
                if slot >= 3 {
                    break;
                }
                let offset = offsets[slot];
                slot = slot + 1;
                let row: i16 = if self.ship.0 + 1 <= SHIP_ROW { self.ship.0 + 1 } else { SHIP_ROW };
                let (left, right) = self.terrain.channel(row);
                let col = clamp16(add16(self.ship.1, offset), left, right);
                let ghost before = cells@;
                cells.push((i, (row, col)));
                proof {
                    assert(cells@[cells@.len() - 1].0 == i);
                    assert forall|j: int| 0 <= j < i + 1 && #[trigger] eligible(*self, j) && !has_cell(cells@, j) implies cells@.len() == 3
                        && forall|k: int| 0 <= k < cells@.len() ==> (#[trigger] cells@[k]).0 < j by {
                        if j < i {
                            if !has_cell(before, j) {
                            } else {
                                let k = choose|k: int| 0 <= k < before.len() && (#[trigger] before[k]).0 == j;
                                assert(cells@[k].0 == j);
                            }
                        }
                    }
                }
            }
            i = i + 1;
        }
        cells
    }

    /// Every wing cadence the wingmen fire a bolt each, a little slower than
    /// the hull.
    pub fn advance_wings(&mut self)
        requires
            old(self).wf(),
        ensures
            final(self).wf(),
            wings_advanced(*old(self), *final(self)),
    {
        if self.tick % WING_CADENCE != 0 {
            return;
        }
        let cells = self.wing_cells();
        proof {
            if exists|j: int| #[trigger] eligible(*self, j) {
                let j = choose|j: int| #[trigger] eligible(*self, j);
                if !has_cell(cells@, j) {
                    assert(cells@.len() == 3);
                } else {
                    assert(cells@.len() > 0);
                }
            }
        }
        let ghost before = *self;
        let mut k: usize = 0;
        while k < cells.len()
            invariant
                k <= cells@.len(),
                wings_ok(before, cells@),
                *self == (Game { shots: self.shots, ..before }),
                self.shots@.len() == before.shots@.len() + k,
            decreases cells@.len() - k,
        {
            let (i, (row, col)) = cells[k];
            let damage = self.squad[i].damage();
            self.launch(Shot::bolt((row - 1, col), 0, damage));
            k = k + 1;
        }
    }

    /// A wingman takes a hit; with nothing left it is shot down and sits the
    /// rest of the run out until a yard puts it back in the air.
    pub fn damage_wing(&mut self, index: usize, pips: u32)
        requires
            old(self).wf(),
        ensures
            final(self).wf(),
            index >= old(self).squad@.len() ==> *final(self) == *old(self),
            index < old(self).squad@.len() ==> {
                let w = old(self).squad@[index as int];
                let p: int = if pips >= 1 { pips as int } else { 1 };
                let left: int = if w.shield >= p { w.shield - p } else { 0 };
                &&& final(self).squad@ == old(self).squad@.update(
                    index as int,
                    crate::nova::entities::Wing { shield: left as u32, alive: w.alive && left > 0, ..w },
                )
            },
            *final(self) == (Game { squad: final(self).squad, flash: final(self).flash, chatter: final(self).chatter, ..*old(self) }),
    {
        if index >= self.squad.len() {
            return;
        }
        let ghost prev = self.squad@;
        let mut wing = self.squad.remove(index);
        let p: u32 = if pips >= 1 { pips } else { 1 };
        let soaked = if wing.shield <= p { wing.shield } else { p };
        wing.shield = wing.shield - soaked;
        let name = wing.name;
        let downed = wing.shield == 0;
        if downed {
            wing.alive = false;
        }
        self.squad.insert(index, wing);
        assert(self.squad@ =~= prev.update(index as int, wing));
        if downed {
            if self.flash < 4 {
                self.flash = 4;
            }
            let mut line = concat(name, " is hit! ");
            line.append(name);
            line.append(", come in!");
            self.say(line.as_str());
        }
    }

    /// Where one enemy shot ends up this tick: everything crawls while the
    /// Force is up, hulks and the rock stop it, and it hits the hull or a
    /// wingman whose cell it reaches.
    #[verifier::loop_isolation(false)]
    fn fly_enemy_shot(&self, s: Shot, wings: &Vec<(usize, (i16, i16))>) -> (r: Landing)
        ensures
            self.sense > 0 && self.tick % 2 != 0 ==> r == Landing::Flying(s),
            r matches Landing::Flying(t) ==> t == (Shot { pos: t.pos, ..s }) && (!(self.sense > 0 && self.tick % 2 != 0)
                ==> t.pos.0 == s.pos.0 + shot_steps(s.speed)),
            r matches Landing::Hull(p, b) ==> b == (self.bulwark > 0) && p == (if s.damage >= 1 { s.damage as u32 } else { 1u32 }),
            r matches Landing::Wing(i, p) ==> (exists|k: int| 0 <= k < wings@.len() && (#[trigger] wings@[k]).0 == i)
                && p == (if s.damage >= 1 { s.damage as u32 } else { 1u32 }),
            r matches Landing::Blocked(c) ==> exists|d: int| 0 <= d < self.debris@.len() && (#[trigger] self.debris@[d]).pos == c,
    {
        if self.sense > 0 && self.tick % 2 != 0 {
            // Everything crawls while the Force is up.
            return Landing::Flying(s);
        }
        let ghost s0 = s;
        let mut s = s;
        let steps: i16 = if s.speed == i16::MIN { 0 } else if s.speed < 0 { -s.speed } else { s.speed };
        let mut step: i16 = 0;
        while step < steps
            invariant
                0 <= step <= steps,
                steps == shot_steps(s0.speed),
                s == (Shot { pos: s.pos, ..s0 }),
                s.pos.0 == s0.pos.0 + step,
                step > 0 ==> s.pos.0 < H,
                s0.pos.0 < H || step == 0,
            decreases steps - step,
        {
            s.pos.0 = add16(s.pos.0, 1);
            if step == 0 {
                s.pos.1 = add16(s.pos.1, s.drift);
            }
            if s.pos.0 >= H || !(0 <= s.pos.1 && s.pos.1 < W) {
                return Landing::Gone;
            }
            let mut d: usize = 0;
            while d < self.debris.len()
                invariant
                    d <= self.debris@.len(),
                decreases self.debris@.len() - d,
            {
                if self.debris[d].pos.0 == s.pos.0 && self.debris[d].pos.1 == s.pos.1 {
                    assert(self.debris@[d as int].pos == s.pos);
                    return Landing::Blocked(s.pos);
                }
                d = d + 1;
            }
            if self.terrain.solid(s.pos.0, s.pos.1) {
                return Landing::Gone;
            }
            let pips: u32 = if s.damage >= 1 { s.damage as u32 } else { 1 };
            if s.pos.0 == self.ship.0 && s.pos.1 == self.ship.1 {
                return Landing::Hull(pips, self.bulwark > 0);
            }
            let mut w: usize = 0;
            while w < wings.len()
                invariant
                    w <= wings@.len(),
                decreases wings@.len() - w,
            {
                let (index, cell) = wings[w];
                if cell.0 == s.pos.0 && cell.1 == s.pos.1 {
                    assert(wings@[w as int].0 == index);
                    return Landing::Wing(index, pips);
                }
                w = w + 1;
            }
            step = step + 1;
        }
        Landing::Flying(s)
    }

    /// Advance enemy fire; hulks eat it, the bulwark eats it, and anything that
    /// gets past both and reaches the ship's cell (or a wingman's) is a hit.
    pub fn advance_enemy_shots(&mut self)
        requires
            old(self).wf(),
        ensures
            final(self).wf(),
            enemy_fire_advanced(*old(self), *final(self)),
    {
        let wings = self.wing_cells();
        let ghost crawl = self.sense > 0 && self.tick % 2 != 0;
        let mut kept: Vec<Shot> = Vec::new();
        let mut hits: Vec<u32> = Vec::new();
        let mut wing_hits: Vec<(usize, u32)> = Vec::new();
        let mut blocked: Vec<(i16, i16)> = Vec::new();
        let mut i: usize = 0;
        while i < self.enemy_shots.len()
            invariant
                i <= self.enemy_shots@.len(),
                kept@.len() <= i,
                *self == *old(self),
                crawl == (self.sense > 0 && self.tick % 2 != 0),
                forall|k: int| 0 <= k < kept@.len() ==> #[trigger] fired_on(kept@[k], old(self).enemy_shots@, crawl),
            decreases self.enemy_shots@.len() - i,
        {
            match self.fly_enemy_shot(self.enemy_shots[i], &wings) {
                Landing::Flying(s) => {
                    kept.push(s);
                    assert(fired_on(kept@[kept@.len() - 1], old(self).enemy_shots@, crawl)) by {
                        assert(old(self).enemy_shots@[i as int] == self.enemy_shots@[i as int]);
                    }
                },
                Landing::Gone => {},
                Landing::Blocked(pos) => blocked.push(pos),
                Landing::Hull(pips, shielded) => {
                    if !shielded {
                        hits.push(pips);
                    }
                },
                Landing::Wing(index, pips) => wing_hits.push((index, pips)),
            }
            i = i + 1;
        }
        self.enemy_shots = kept;
        let ghost survivors = self.enemy_shots;
        let mut k: usize = 0;
        while k < blocked.len()
            invariant
                k <= blocked@.len(),
                self.enemy_shots == survivors,
                self.wf(),
                self.status == old(self).status,
                self.ship == old(self).ship,
                self.tick == old(self).tick,
                self.boss is Some <==> old(self).boss is Some,
                self.capital is Some <==> old(self).capital is Some,
            decreases blocked@.len() - k,
        {
            self.hit_debris(blocked[k], 1);
            k = k + 1;
        }
        let mut k: usize = 0;
        while k < hits.len()
            invariant
                k <= hits@.len(),
                self.enemy_shots == survivors,
                self.wf(),
                self.status == old(self).status,
                self.ship == old(self).ship,
                self.tick == old(self).tick,
                self.boss is Some <==> old(self).boss is Some,
                self.capital is Some <==> old(self).capital is Some,
            decreases hits@.len() - k,
        {
            self.damage_ship(hits[k]);
            k = k + 1;
        }
        let mut k: usize = 0;
        while k < wing_hits.len()
            invariant
                k <= wing_hits@.len(),
                self.enemy_shots == survivors,
                self.wf(),
                self.status == old(self).status,
                self.ship == old(self).ship,
                self.tick == old(self).tick,
                self.boss is Some <==> old(self).boss is Some,
                self.capital is Some <==> old(self).capital is Some,
            decreases wing_hits@.len() - k,
        {
            let (index, pips) = wing_hits[k];
            self.damage_wing(index, pips);
            k = k + 1;
        }
    }
}

} // verus!
