//! One tick of the court, the parts that do not shoot back: the timers, the
//! backdrop, the rock, the sector's hazards, pickups, mines, rocks, hulks,
//! transports and walkers.

use vstd::prelude::*;

use super::consts::{ASTEROID_HP, FLARE_ACTIVE, FLARE_CADENCE, FLARE_PERIOD, FORCE_MAX, FORCE_REGEN_TICKS, H, MINE_TRIGGER, REPAIR_CADENCE, SCROLL_CADENCE, SHIELD_KNIT_TICKS, STAR_LAYERS, SURGE_DRAIN, SURGE_STUN, SWAY_CADENCE, SWAY_MAX, TURRETS_PER_MAP, TURRET_CADENCE, W, WALKER_CADENCE};
use super::entities::{Asteroid, Chatter, Debris, Mine, Powerup, Shot, Star, Transport, Walker, WallTurret};
use super::game::Game;
use super::game_fire::fielded;
use super::kinds::{Hazard, Module, PowerKind, TerrainKind};
use crate::arith::{add16, clamp16, dist16, sig_diff};

verus! {

/// A hazard after `tick`: a flare sweeps a column on its cadence and turns
/// back at the walls; wells and streams stay where they are.
pub open spec fn hazard_step(h: Hazard, tick: u32) -> Hazard {
    match h {
        Hazard::SolarFlare { col, dir } => if tick % FLARE_CADENCE == 0 {
            let next = crate::arith::clamp_int(col + dir, i16::MIN as int, i16::MAX as int);
            if 1 <= next < W - 1 {
                Hazard::SolarFlare { col: next as i16, dir }
            } else {
                Hazard::SolarFlare {
                    col: crate::arith::clamp_int(col - dir, i16::MIN as int, i16::MAX as int) as i16,
                    dir: if dir == i16::MIN { i16::MAX } else { (-dir) as i16 },
                }
            }
        } else {
            h
        },
        _ => h,
    }
}

/// A mine at `pos` is set off by a hull at `ship`: within its trigger
/// range along both axes.
pub open spec fn mine_near(pos: (i16, i16), ship: (i16, i16)) -> bool {
    crate::arith::abs_int(pos.0 - ship.0) <= MINE_TRIGGER && crate::arith::abs_int(pos.1 - ship.1) <= MINE_TRIGGER
}

/// Whether a star of `layer` moves on `tick`: the near layer every tick,
/// the farther ones every second and third.
pub open spec fn star_due(layer: usize, tick: u32) -> bool {
    let cadence: int = if layer < STAR_LAYERS { (STAR_LAYERS - layer) as int } else { 0 };
    if cadence == 0 { tick == 0 } else { (tick as int) % cadence == 0 }
}

/// The row a star stands on after `tick`: one lower when it is due, back at
/// the top once it runs off the bottom.
pub open spec fn star_row(s: Star, tick: u32) -> int {
    if star_due(s.layer, tick) {
        let r = crate::arith::clamp_int(s.pos.0 + 1, i16::MIN as int, i16::MAX as int);
        if r >= H { 0 } else { r }
    } else {
        s.pos.0 as int
    }
}

/// `h` is `g` with the ship's own timers a tick on.
pub open spec fn timers_ticked(g: Game, h: Game) -> bool {
    &&& h.tick == g.tick.wrapping_add(1)
    &&& h.fire_cooldown == (if g.fire_cooldown > 0 { g.fire_cooldown - 1 } else { 0 })
    &&& h.invuln == (if g.invuln > 0 { g.invuln - 1 } else { 0 })
    &&& h.rapid == (if g.rapid > 0 { g.rapid - 1 } else { 0 })
    &&& h.bulwark == (if g.bulwark > 0 { g.bulwark - 1 } else { 0 })
    &&& h.drone_stun == (if g.drone_stun > 0 { g.drone_stun - 1 } else { 0 })
    &&& h.sense == (if g.sense > 0 { g.sense - 1 } else { 0 })
    &&& h.energy <= h.spec_max_energy() || h.energy == g.energy
    &&& g.combo_timer == 1 ==> h.combo == 1 && h.combo_timer == 0
    &&& h.shield >= g.shield
    &&& h.status == g.status
    &&& h.ship == g.ship
    &&& h.enemies == g.enemies
    &&& h.shots == g.shots
    &&& h.enemy_shots == g.enemy_shots
    &&& h.lives == g.lives
    &&& h.score == g.score
}

/// `h` is `g` with the backdrop scrolled a tick.
pub open spec fn stars_advanced(g: Game, h: Game) -> bool {
    &&& h.stars@.len() == g.stars@.len()
    &&& h == (Game { stars: h.stars, rng: h.rng, ..g })
    &&& forall|i: int| 0 <= i < g.stars@.len() ==> {
        let (a, b) = (#[trigger] g.stars@[i], h.stars@[i]);
        &&& b.layer == a.layer
        &&& b.pos.0 == star_row(a, g.tick)
        &&& b.pos.0 != 0 ==> b.pos.1 == a.pos.1
    }
}

/// `h` is `g` with the rock scrolled as the tick says.
pub open spec fn rock_advanced(g: Game, h: Game) -> bool {
    &&& h.status == g.status
    &&& h.ship.0 == g.ship.0
    &&& h.tick == g.tick
    &&& h.enemy_shots@.len() >= g.enemy_shots@.len()
    &&& !(g.node.terrain != TerrainKind::Open && g.tick % SCROLL_CADENCE == 0) ==> {
        &&& h.turrets@.len() == g.turrets@.len()
        &&& forall|k: int| 0 <= k < g.turrets@.len() ==> {
            let (a, b) = (#[trigger] g.turrets@[k], h.turrets@[k]);
            b.pos == a.pos && b.cooldown == (if a.cooldown > 0 { (a.cooldown - 1) as u32 } else { TURRET_CADENCE })
        }
    }
}

/// `h` is `g` with the sector's hazards worked a tick.
pub open spec fn hazards_advanced(g: Game, h: Game) -> bool {
    &&& h.hazards@.len() == g.hazards@.len()
    &&& h.status == g.status
    &&& h.ship.0 == g.ship.0
    &&& h.tick == g.tick
    &&& forall|i: int| 0 <= i < g.hazards@.len() ==> #[trigger] h.hazards@[i] == hazard_step(g.hazards@[i], g.tick)
}

/// `h` is `g` with the ion storm worked a tick.
pub open spec fn storm_advanced(g: Game, h: Game) -> bool {
    &&& ({
        let cadence = g.sector.spec_surge_cadence();
        if cadence == 0 || h.tick % cadence != 0 {
            h == g
        } else {
            &&& h.energy == (if g.energy >= SURGE_DRAIN { g.energy - SURGE_DRAIN } else { 0 })
            &&& h.drone_stun == SURGE_STUN
            &&& h.enemy_shots@.len() == g.enemy_shots@.len() + 3
        }
    })
    &&& h.status == g.status
    &&& h.ship == g.ship
    &&& h.tick == g.tick
    &&& h.lives == g.lives
}

/// `h` is `g` with the formation swayed a tick.
pub open spec fn formation_swayed(g: Game, h: Game) -> bool {
    &&& -SWAY_MAX <= g.sway_x <= SWAY_MAX ==> -SWAY_MAX <= h.sway_x <= SWAY_MAX
    &&& h == (Game {
        sway_x: h.sway_x,
        sway_dir: h.sway_dir,
        sway_counter: h.sway_counter,
        ..g
    })
    &&& g.sway_counter > 0 ==> h.sway_counter == g.sway_counter - 1
        && h.sway_x == g.sway_x && h.sway_dir == g.sway_dir
    &&& g.sway_counter == 0 ==> h.sway_counter == SWAY_CADENCE && {
        let next = crate::arith::clamp_int(g.sway_x + g.sway_dir, i16::MIN as int, i16::MAX as int);
        if next < -SWAY_MAX || next > SWAY_MAX {
            h.sway_x == g.sway_x
                && h.sway_dir == (if g.sway_dir == i16::MIN { i16::MAX as int } else { -g.sway_dir })
        } else {
            h.sway_x == next && h.sway_dir == g.sway_dir
        }
    }
}

/// `h` is `g` with the transports run a tick.
pub open spec fn transports_advanced(g: Game, h: Game) -> bool {
    &&& h.transports@.len() == g.transports@.len()
    &&& h.enemy_shots@.len() <= g.enemy_shots@.len()
    &&& h.status == g.status
    &&& h.ship == g.ship
    &&& h.tick == g.tick
    &&& h.lives == g.lives
    &&& g.transports@.len() == 0 || g.tick % 3 != 0 ==> h == g
    &&& g.tick % 3 == 0 ==> forall|i: int| 0 <= i < g.transports@.len() ==> {
        let (a, b) = (#[trigger] g.transports@[i], h.transports@[i]);
        let moving = !a.away && a.hp > 0;
        let col = crate::arith::clamp_int(a.pos.1 + 1, i16::MIN as int, i16::MAX as int);
        &&& b.pos == (if moving { (a.pos.0, col as i16) } else { a.pos })
        &&& b.away == (a.away || (moving && col >= W - 2))
        &&& b.hp <= a.hp
    }
}

/// `h` is `g` with the walkers marched a tick.
pub open spec fn walkers_advanced(g: Game, h: Game) -> bool {
    &&& h.walkers@.len() == g.walkers@.len()
    &&& h == (Game { walkers: h.walkers, enemy_shots: h.enemy_shots, ..g })
    &&& forall|i: int| 0 <= i < g.walkers@.len() ==> {
        let (a, b) = (#[trigger] g.walkers@[i], h.walkers@[i]);
        b == (if a.down {
            a
        } else {
            Walker { cooldown: if a.cooldown > 0 { (a.cooldown - 1) as u32 } else { WALKER_CADENCE }, ..a }
        })
    }
    &&& h.enemy_shots@.len() >= g.enemy_shots@.len()
}

/// `h` is `g` with the mines worked a tick.
pub open spec fn mines_advanced(g: Game, h: Game) -> bool {
    &&& h.mines@.len() <= g.mines@.len()
    &&& h.enemy_shots@.len() == g.enemy_shots@.len()
        + 3 * (g.mines@.len() - h.mines@.len())
    &&& h == (Game { mines: h.mines, enemy_shots: h.enemy_shots, flash: h.flash, ..g })
    &&& forall|k: int| 0 <= k < h.mines@.len() ==> {
        let m = #[trigger] h.mines@[k];
        &&& m.fuse >= 1
        &&& !mine_near(m.pos, g.ship)
        &&& exists|j: int| 0 <= j < g.mines@.len() && (#[trigger] g.mines@[j]).pos == m.pos
            && g.mines@[j].fuse == m.fuse + 1
    }
}

/// `h` is `g` with the rocks drifted a tick.
pub open spec fn rocks_advanced(g: Game, h: Game) -> bool {
    &&& h.status == g.status
    &&& h.ship == g.ship
    &&& h.tick == g.tick
    &&& forall|k: int| 0 <= k < h.asteroids@.len() ==> (#[trigger] h.asteroids@[k]).pos.0 < H
        && h.asteroids@[k].pos != g.ship
}

/// `h` is `g` with the hulks drifted a tick.
pub open spec fn hulks_advanced(g: Game, h: Game) -> bool {
    &&& h.tick % 3 != 0 ==> h == g
    &&& h.debris@.len() <= g.debris@.len()
    &&& h.status == g.status
    &&& h.ship == g.ship
    &&& h.tick == g.tick
    &&& h.tick % 3 == 0 ==> forall|k: int| 0 <= k < h.debris@.len() ==> {
        let d = #[trigger] h.debris@[k];
        &&& d.pos.0 < H && d.pos != g.ship
        &&& exists|j: int| 0 <= j < g.debris@.len() && (#[trigger] g.debris@[j]).pos.1 == d.pos.1
            && d.pos.0 == g.debris@[j].pos.0 + 1 && g.debris@[j].hp == d.hp
    }
}

/// `h` is `g` with the pickups drifted a tick.
pub open spec fn powerups_advanced(g: Game, h: Game) -> bool {
    &&& h.powerups@.len() <= g.powerups@.len()
    &&& h.status == g.status
    &&& h.ship == g.ship
    &&& h.tick == g.tick
    &&& h.lives >= g.lives
    &&& forall|k: int| 0 <= k < h.powerups@.len() ==> {
        let p = #[trigger] h.powerups@[k];
        p.pos.0 < H && !(crate::arith::abs_int(p.pos.0 - g.ship.0) <= 1 && crate::arith::abs_int(p.pos.1 - g.ship.1) <= 1)
    }
}

impl Game {
    /// Age every timer by one tick: the chain cools, energy trickles back,
    /// deflectors knit while they have the power, the repair bay hands a pip
    /// back on its cadence, and old radio traffic fades.
    pub fn tick_timers(&mut self)
        requires
            old(self).wf(),
        ensures
            final(self).wf(),
            timers_ticked(*old(self), *final(self)),
    {
        self.tick = self.tick.wrapping_add(1);
        self.fire_cooldown = self.fire_cooldown.saturating_sub(1);
        self.invuln = self.invuln.saturating_sub(1);
        self.rapid = self.rapid.saturating_sub(1);
        self.flash = self.flash.saturating_sub(1);
        self.bulwark = self.bulwark.saturating_sub(1);
        self.drone_stun = self.drone_stun.saturating_sub(1);
        self.banner = self.banner.saturating_sub(1);
        self.sense = self.sense.saturating_sub(1);
        if self.tick % FORCE_REGEN_TICKS == 0 && self.force < FORCE_MAX {
            self.force = self.force + 1;
        }
        let mut kept: Vec<Chatter> = Vec::new();
        let mut i: usize = 0;
        while i < self.chatter.len()
            invariant
                i <= self.chatter@.len(),
            decreases self.chatter@.len() - i,
        {
            let ticks = self.chatter[i].ticks;
            if ticks > 1 {
                let line = self.chatter[i].line.clone();
                kept.push(Chatter { line, ticks: ticks - 1 });
            }
            i = i + 1;
        }
        self.chatter = kept;
        self.objective_ticks = self.objective_ticks.saturating_sub(1);
        let max = self.max_energy();
        let topped = self.energy.saturating_add(self.regen());
        self.energy = if topped <= max { topped } else { max };
        if self.combo_timer > 0 {
            self.combo_timer = self.combo_timer - 1;
            if self.combo_timer == 0 {
                self.combo = 1;
            }
        }
        if self.power.shields > 0 && self.shield < self.max_shield {
            let knit = SHIELD_KNIT_TICKS / self.power.shields;
            let every = if knit >= 30 { knit } else { 30 };
            if self.tick % every == 0 {
                self.shield = self.shield + 1;
            }
        }
        if self.loadout.has(Module::RepairBay) {
            self.repair_timer = self.repair_timer.saturating_sub(1);
            if self.repair_timer == 0 {
                self.repair_timer = REPAIR_CADENCE;
                if self.shield < self.max_shield {
                    self.shield = self.shield + 1;
                }
            }
        }
    }

    /// Drift the formation one step on its cadence, reversing at the edges.
    pub fn sway(&mut self)
        ensures
            formation_swayed(*old(self), *final(self)),
    {
        if self.sway_counter == 0 {
            let next = add16(self.sway_x, self.sway_dir);
            if next < -SWAY_MAX || next > SWAY_MAX {
                self.sway_dir = if self.sway_dir == i16::MIN { i16::MAX } else { -self.sway_dir };
            } else {
                self.sway_x = next;
            }
            self.sway_counter = SWAY_CADENCE;
        } else {
            self.sway_counter = self.sway_counter - 1;
        }
    }

    /// Scroll the backdrop; the near layer moves every tick and the far ones
    /// less often, and whatever wraps off the bottom is re-scattered.
    pub fn advance_stars(&mut self)
        ensures
            stars_advanced(*old(self), *final(self)),
    {
        let tick = self.tick;
        let ghost before = *self;
        let mut wrapped: usize = 0;
        let mut i: usize = 0;
        while i < self.stars.len()
            invariant
                i <= self.stars@.len(),
                self.stars@.len() == before.stars@.len(),
                *self == (Game { stars: self.stars, ..before }),
                wrapped <= i,
                tick == before.tick,
                forall|j: int| i <= j < self.stars@.len() ==> #[trigger] self.stars@[j] == before.stars@[j],
                forall|j: int| 0 <= j < i ==> {
                    let (a, b) = (#[trigger] before.stars@[j], self.stars@[j]);
                    b.layer == a.layer && b.pos.0 == star_row(a, tick) && b.pos.1 == a.pos.1
                },
            decreases self.stars@.len() - i,
        {
            let mut star = self.stars[i];
            let cadence: u32 = if star.layer < STAR_LAYERS { (STAR_LAYERS - star.layer) as u32 } else { 0 };
            let due = if cadence == 0 { tick == 0 } else { tick % cadence == 0 };
            if due {
                star.pos.0 = add16(star.pos.0, 1);
                if star.pos.0 >= H {
                    star.pos.0 = 0;
                    wrapped = wrapped + 1;
                }
            }
            self.stars.set(i, star);
            i = i + 1;
        }
        // Re-scatter whatever wrapped so the field never settles into columns.
        let ghost mid = *self;
        let mut k: usize = 0;
        while k < wrapped
            invariant
                k <= wrapped,
                self.stars@.len() == before.stars@.len(),
                *self == (Game { stars: self.stars, rng: self.rng, ..mid }),
                forall|j: int| 0 <= j < self.stars@.len() ==> {
                    let (a, b) = (#[trigger] before.stars@[j], self.stars@[j]);
                    &&& b.layer == a.layer
                    &&& b.pos.0 == star_row(a, tick)
                    &&& b.pos.0 != 0 ==> b.pos.1 == a.pos.1
                },
            decreases wrapped - k,
        {
            let col = (self.rand() % W as u64) as i16;
            let mut j: usize = 0;
            while j < self.stars.len()
                invariant
                    j <= self.stars@.len(),
                ensures
                    j <= self.stars@.len(),
                    j < self.stars@.len() ==> self.stars@[j as int].pos.0 == 0,
                decreases self.stars@.len() - j,
            {
                if self.stars[j].pos.0 == 0 {
                    break;
                }
                j = j + 1;
            }
            if j < self.stars.len() {
                let mut star = self.stars[j];
                star.pos.1 = col;
                self.stars.set(j, star);
            }
            k = k + 1;
        }
    }

    /// Fire an ion surge if the sector is due one: it drains the reactor, stuns
    /// the drones and throws lightning down a few lanes.
    pub fn advance_storm(&mut self)
        requires
            old(self).wf(),
        ensures
            final(self).wf(),
            storm_advanced(*old(self), *final(self)),
    {
        let cadence = self.sector.surge_cadence();
        if cadence == 0 || self.tick % cadence != 0 {
            return;
        }
        self.energy = self.energy.saturating_sub(SURGE_DRAIN);
        self.drone_stun = SURGE_STUN;
        if self.flash < 3 {
            self.flash = 3;
        }
        let ghost before = *self;
        let mut k: usize = 0;
        while k < 3
            invariant
                k <= 3,
                before.wf(),
                *self == (Game { enemy_shots: self.enemy_shots, rng: self.rng, ..before }),
                self.enemy_shots@.len() == before.enemy_shots@.len() + k,
            decreases 3 - k,
        {
            let col = (self.rand() % (W as u64 - 4)) as i16 + 2;
            self.launch_enemy(Shot::enemy((0, col), 0, 2).heavy());
            k = k + 1;
        }
    }

    /// Scroll the rock, ride the turrets down with it and let them shoot; rock
    /// closing on the hull shoves it aside.
    pub fn advance_terrain(&mut self)
        requires
            old(self).wf(),
        ensures
            final(self).wf(),
            rock_advanced(*old(self), *final(self)),
    {
        let ghost scrolls = self.node.terrain != TerrainKind::Open && self.tick % SCROLL_CADENCE == 0;
        if self.node.terrain != TerrainKind::Open && self.tick % SCROLL_CADENCE == 0 {
            self.terrain.scroll();
            let mut kept: Vec<WallTurret> = Vec::new();
            let mut i: usize = 0;
            while i < self.turrets.len()
                invariant
                    i <= self.turrets@.len(),
                decreases self.turrets@.len() - i,
            {
                let mut t = self.turrets[i];
                t.pos.0 = add16(t.pos.0, 1);
                if t.pos.0 < H {
                    kept.push(t);
                }
                i = i + 1;
            }
            self.turrets = kept;
            if self.turrets.len() < TURRETS_PER_MAP {
                if let Some(turret) = self.turret_on_the_rock() {
                    self.turrets.push(turret);
                }
            }
        }
        // Turret fire, aimed down the court at the hull.
        let ship = self.ship;
        let mut volley: Vec<Shot> = Vec::new();
        let ghost before = *self;
        let ghost t0 = self.turrets@;
        let mut i: usize = 0;
        while i < self.turrets.len()
            invariant
                i <= self.turrets@.len(),
                *self == (Game { turrets: self.turrets, ..before }),
                forall|k: int| 0 <= k < volley@.len() ==> (#[trigger] volley@[k]).speed == 1,
                self.turrets@.len() == t0.len(),
                forall|k: int| i <= k < t0.len() ==> #[trigger] self.turrets@[k] == t0[k],
                forall|k: int| 0 <= k < i ==> {
                    let (a, b) = (#[trigger] t0[k], self.turrets@[k]);
                    b.pos == a.pos && b.cooldown == (if a.cooldown > 0 { (a.cooldown - 1) as u32 } else { TURRET_CADENCE })
                },
            decreases self.turrets@.len() - i,
        {
            let mut t = self.turrets[i];
            if t.cooldown > 0 {
                t.cooldown = t.cooldown - 1;
            } else {
                t.cooldown = TURRET_CADENCE;
                volley.push(Shot::enemy((add16(t.pos.0, 1), t.pos.1), sig_diff(ship.1, t.pos.1), 1));
            }
            self.turrets.set(i, t);
            i = i + 1;
        }
        self.launch_volley(&volley);
        // Rock closing on the hull shoves it aside; it only crushes when there
        // is nowhere left to go.
        self.shove_into_lane();
    }

    /// Put every shot of an enemy volley in the air, in order.
    pub fn launch_volley(&mut self, volley: &Vec<Shot>)
        requires
            forall|k: int| 0 <= k < volley@.len() ==> (#[trigger] volley@[k]).speed > i16::MIN,
        ensures
            final(self).enemy_shots@.len() == old(self).enemy_shots@.len() + volley@.len(),
            final(self).enemy_shots@ == old(self).enemy_shots@ + volley@.map_values(|s: Shot| fielded(*old(self), s)),
            *final(self) == (Game { enemy_shots: final(self).enemy_shots, ..*old(self) }),
    {
        let mut k: usize = 0;
        while k < volley.len()
            invariant
                k <= volley@.len(),
                forall|j: int| 0 <= j < volley@.len() ==> (#[trigger] volley@[j]).speed > i16::MIN,
                self.enemy_shots@.len() == old(self).enemy_shots@.len() + k,
                self.enemy_shots@ == old(self).enemy_shots@ + volley@.subrange(0, k as int).map_values(|s: Shot| fielded(*old(self), s)),
                *self == (Game { enemy_shots: self.enemy_shots, ..*old(self) }),
            decreases volley@.len() - k,
        {
            let ghost pre = self.enemy_shots@;
            self.launch_enemy(volley[k]);
            k = k + 1;
            assert(volley@.subrange(0, k as int).map_values(|s: Shot| fielded(*old(self), s))
                =~= volley@.subrange(0, k - 1).map_values(|s: Shot| fielded(*old(self), s)).push(fielded(*old(self), volley@[k - 1])));
            assert(self.enemy_shots@ =~= pre.push(self.enemy_shots@.last()));
        }
        assert(volley@.subrange(0, volley@.len() as int) =~= volley@);
    }

    /// Run whatever the sector does to the hull beyond the rock and the wave:
    /// wells and streams drag it sideways, and a flare burns it.
    pub fn advance_hazards(&mut self)
        requires
            old(self).wf(),
        ensures
            final(self).wf(),
            hazards_advanced(*old(self), *final(self)),
    {
        let tick = self.tick;
        let ship = self.ship;
        let mut pull: i16 = 0;
        let mut burn = false;
        let mut updated: Vec<Hazard> = Vec::new();
        let mut i: usize = 0;
        while i < self.hazards.len()
            invariant
                i <= self.hazards@.len(),
                updated@.len() == i,
                tick == self.tick,
                self.hazards == old(self).hazards,
                forall|j: int| 0 <= j < i ==> #[trigger] updated@[j] == hazard_step(self.hazards@[j], tick),
            decreases self.hazards@.len() - i,
        {
            let hazard = self.hazards[i];
            match hazard {
                Hazard::GravityWell { pos } => {
                    if tick % 2 == 0 {
                        pull = add16(pull, sig_diff(pos.1, ship.1));
                    }
                    updated.push(hazard);
                },
                Hazard::IonStream { push } => {
                    if tick % 3 == 0 {
                        pull = add16(pull, push);
                    }
                    updated.push(hazard);
                },
                Hazard::SolarFlare { col, dir } => {
                    let (col, dir) = if tick % FLARE_CADENCE == 0 {
                        let next = add16(col, dir);
                        if 1 <= next && next < W - 1 {
                            (next, dir)
                        } else {
                            (crate::arith::sub16(col, dir), if dir == i16::MIN { i16::MAX } else { -dir })
                        }
                    } else {
                        (col, dir)
                    };
                    if ship.1 == col && tick % FLARE_PERIOD < FLARE_ACTIVE {
                        burn = true;
                    }
                    updated.push(Hazard::SolarFlare { col, dir });
                },
            }
            i = i + 1;
        }
        self.hazards = updated;
        if pull != 0 {
            let (left, right) = self.terrain.channel(self.ship.0);
            self.ship.1 = clamp16(add16(self.ship.1, pull), left, right);
        }
        if burn {
            self.damage_ship(1);
        }
    }

    /// Blow a mine: it throws a three-way spread down the court.
    pub fn detonate(&mut self, pos: (i16, i16))
        ensures
            final(self).enemy_shots@.len() == old(self).enemy_shots@.len() + 3,
            final(self).flash >= 2,
            *final(self) == (Game { enemy_shots: final(self).enemy_shots, flash: final(self).flash, ..*old(self) }),
    {
        self.launch_enemy(Shot::enemy(pos, -1, 1));
        self.launch_enemy(Shot::enemy(pos, 0, 1));
        self.launch_enemy(Shot::enemy(pos, 1, 1));
        if self.flash < 2 {
            self.flash = 2;
        }
    }

    /// Count mines down; one whose fuse runs out, or that the ship flies too
    /// close to, goes off.
    pub fn advance_mines(&mut self)
        requires
            old(self).wf(),
        ensures
            final(self).wf(),
            mines_advanced(*old(self), *final(self)),
    {
        let ship = self.ship;
        let mut kept: Vec<Mine> = Vec::new();
        let mut blasts: Vec<(i16, i16)> = Vec::new();
        let mut i: usize = 0;
        while i < self.mines.len()
            invariant
                i <= self.mines@.len(),
                kept@.len() + blasts@.len() == i,
                self.mines == old(self).mines,
                ship == old(self).ship,
                forall|k: int| 0 <= k < kept@.len() ==> {
                    let m = #[trigger] kept@[k];
                    &&& m.fuse >= 1
                    &&& !mine_near(m.pos, ship)
                    &&& exists|j: int| 0 <= j < old(self).mines@.len() && (#[trigger] old(self).mines@[j]).pos == m.pos
                        && old(self).mines@[j].fuse == m.fuse + 1
                },
            decreases self.mines@.len() - i,
        {
            let mut m = self.mines[i];
            m.fuse = m.fuse.saturating_sub(1);
            let near = dist16(m.pos.0, ship.0) <= MINE_TRIGGER as i32 && dist16(m.pos.1, ship.1) <= MINE_TRIGGER as i32;
            if m.fuse == 0 || near {
                blasts.push(m.pos);
            } else {
                assert(old(self).mines@[i as int].pos == m.pos);
                kept.push(m);
            }
            i = i + 1;
        }
        self.mines = kept;
        let ghost before = *self;
        let mut k: usize = 0;
        while k < blasts.len()
            invariant
                k <= blasts@.len(),
                *self == (Game { enemy_shots: self.enemy_shots, flash: self.flash, ..before }),
                self.enemy_shots@.len() == before.enemy_shots@.len() + 3 * k,
            decreases blasts@.len() - k,
        {
            self.detonate(blasts[k]);
            k = k + 1;
        }
    }

    /// Tumble pickups down the court at half speed, pulled sideways by the
    /// magnet if one is fitted, and collect the ones the ship flies into.
    pub fn advance_powerups(&mut self)
        requires
            old(self).wf(),
        ensures
            final(self).wf(),
            powerups_advanced(*old(self), *final(self)),
    {
        let ship = self.ship;
        let falling = self.tick % 2 == 0;
        let magnet = self.loadout.has(Module::Magnet);
        let mut kept: Vec<Powerup> = Vec::new();
        let mut taken: Vec<PowerKind> = Vec::new();
        let mut i: usize = 0;
        while i < self.powerups.len()
            invariant
                i <= self.powerups@.len(),
                kept@.len() <= i,
                ship == old(self).ship,
                forall|k: int| 0 <= k < kept@.len() ==> {
                    let p = #[trigger] kept@[k];
                    p.pos.0 < H && !(crate::arith::abs_int(p.pos.0 - ship.0) <= 1 && crate::arith::abs_int(p.pos.1 - ship.1) <= 1)
                },
            decreases self.powerups@.len() - i,
        {
            let mut p = self.powerups[i];
            if falling {
                p.pos.0 = add16(p.pos.0, 1);
            }
            if magnet && dist16(p.pos.0, ship.0) <= 8 {
                p.pos.1 = add16(p.pos.1, sig_diff(ship.1, p.pos.1));
            }
            if p.pos.0 < H {
                if dist16(p.pos.0, ship.0) <= 1 && dist16(p.pos.1, ship.1) <= 1 {
                    taken.push(p.kind);
                } else {
                    kept.push(p);
                }
            }
            i = i + 1;
        }
        self.powerups = kept;
        let ghost plen = self.powerups@.len();
        let ghost kept_now = self.powerups;
        let mut k: usize = 0;
        while k < taken.len()
            invariant
                k <= taken@.len(),
                self.wf(),
                self.powerups@.len() == plen,
                self.powerups == kept_now,
                plen <= old(self).powerups@.len(),
                self.status == old(self).status,
                self.ship == old(self).ship,
                self.tick == old(self).tick,
                self.lives >= old(self).lives,
            decreases taken@.len() - k,
        {
            self.collect(taken[k]);
            k = k + 1;
        }
    }

    /// Drift rocks down the court, spawning them at the sector's rate; flying
    /// into one costs the ship a pip and breaks the rock.
    pub fn advance_asteroids(&mut self)
        requires
            old(self).wf(),
        ensures
            final(self).wf(),
            rocks_advanced(*old(self), *final(self)),
    {
        let chance = self.odds(self.sector.asteroid_chance());
        if self.rand() % chance == 0 {
            let col = (self.rand() % (W as u64 - 4)) as i16 + 2;
            let drift = (self.rand() % 3) as i16 - 1;
            let hp = ASTEROID_HP + self.wave_armour();
            self.asteroids.push(Asteroid { pos: (0, col), hp, drift });
        }
        let ship = self.ship;
        let falling = self.tick % 2 == 0;
        let mut kept: Vec<Asteroid> = Vec::new();
        let mut rammed = false;
        let mut i: usize = 0;
        while i < self.asteroids.len()
            invariant
                i <= self.asteroids@.len(),
                ship == old(self).ship,
                forall|k: int| 0 <= k < kept@.len() ==> (#[trigger] kept@[k]).pos.0 < H && kept@[k].pos != ship,
            decreases self.asteroids@.len() - i,
        {
            let mut a = self.asteroids[i];
            if falling {
                a.pos.0 = add16(a.pos.0, 1);
                a.pos.1 = add16(a.pos.1, a.drift);
                if !(1 <= a.pos.1 && a.pos.1 < W - 1) {
                    a.drift = if a.drift == i16::MIN { i16::MAX } else { -a.drift };
                    a.pos.1 = clamp16(a.pos.1, 1, W - 2);
                }
            }
            if a.pos.0 < H {
                if a.pos.0 == ship.0 && a.pos.1 == ship.1 {
                    rammed = true;
                } else {
                    kept.push(a);
                }
            }
            i = i + 1;
        }
        self.asteroids = kept;
        if rammed {
            self.damage_ship(1);
        }
    }

    /// Creep the hulks down the lane every third tick; one that reaches the
    /// ship breaks on it, and costs two pips.
    pub fn advance_debris(&mut self)
        requires
            old(self).wf(),
        ensures
            final(self).wf(),
            hulks_advanced(*old(self), *final(self)),
    {
        if self.tick % 3 != 0 {
            return;
        }
        let ship = self.ship;
        let mut kept: Vec<Debris> = Vec::new();
        let mut rammed = false;
        let mut i: usize = 0;
        while i < self.debris.len()
            invariant
                i <= self.debris@.len(),
                kept@.len() <= i,
                ship == old(self).ship,
                self.debris == old(self).debris,
                forall|k: int| 0 <= k < kept@.len() ==> {
                    let d = #[trigger] kept@[k];
                    &&& d.pos.0 < H && d.pos != ship
                    &&& exists|j: int| 0 <= j < old(self).debris@.len() && (#[trigger] old(self).debris@[j]).pos.1 == d.pos.1
                        && d.pos.0 == old(self).debris@[j].pos.0 + 1 && old(self).debris@[j].hp == d.hp
                },
            decreases self.debris@.len() - i,
        {
            let mut d = self.debris[i];
            d.pos.0 = add16(d.pos.0, 1);
            if d.pos.0 < H {
                if d.pos.0 == ship.0 && d.pos.1 == ship.1 {
                    rammed = true;
                } else {
                    kept.push(d);
                }
            }
            i = i + 1;
        }
        self.debris = kept;
        if rammed {
            // A hulk is a great deal heavier than a rock.
            self.damage_ship(2);
        }
    }

    /// Run the transports for the far side every third tick, and let enemy
    /// fire that reaches one chew on it.
    pub fn advance_transports(&mut self)
        requires
            old(self).wf(),
        ensures
            final(self).wf(),
            transports_advanced(*old(self), *final(self)),
    {
        if self.transports.len() == 0 || self.tick % 3 != 0 {
            return;
        }
        let mut lost: usize = 0;
        let mut away: usize = 0;
        let n = self.transports.len();
        let ghost before = *self;
        let mut i: usize = 0;
        while i < n
            invariant
                i <= n,
                n == self.transports@.len(),
                away <= i,
                *self == (Game { transports: self.transports, ..before }),
                before == *old(self),
                forall|j: int| i <= j < n ==> #[trigger] self.transports@[j] == old(self).transports@[j],
                forall|j: int| 0 <= j < i ==> {
                    let (a, b) = (#[trigger] old(self).transports@[j], self.transports@[j]);
                    let moving = !a.away && a.hp > 0;
                    let col = crate::arith::clamp_int(a.pos.1 + 1, i16::MIN as int, i16::MAX as int);
                    &&& b.pos == (if moving { (a.pos.0, col as i16) } else { a.pos })
                    &&& b.away == (a.away || (moving && col >= W - 2))
                    &&& b.hp == a.hp
                },
            decreases n - i,
        {
            let mut t = self.transports[i];
            if !t.away && t.hp > 0 {
                t.pos.1 = add16(t.pos.1, 1);
                if t.pos.1 >= W - 2 {
                    t.away = true;
                    away = away + 1;
                }
                self.transports.set(i, t);
            }
            i = i + 1;
        }
        // Anything Imperial in the same cell chews on them.
        let ghost moved = self.transports@;
        let mut kept: Vec<Shot> = Vec::new();
        let mut hits: Vec<usize> = Vec::new();
        let mut s: usize = 0;
        while s < self.enemy_shots.len()
            invariant
                s <= self.enemy_shots@.len(),
                kept@.len() <= s,
                n == self.transports@.len(),
                self.transports@ == moved,
                forall|k: int| 0 <= k < hits@.len() ==> (#[trigger] hits@[k]) < n,
            decreases self.enemy_shots@.len() - s,
        {
            let shot = self.enemy_shots[s];
            let mut hit: Option<usize> = None;
            let mut j: usize = 0;
            while j < n
                invariant
                    j <= n,
                    n == self.transports@.len(),
                    hit matches Some(h) ==> h < n,
                decreases n - j,
            {
                let t = self.transports[j];
                if hit.is_none() && !t.away && t.hp > 0 && t.pos.0 == shot.pos.0 && t.pos.1 == shot.pos.1 {
                    hit = Some(j);
                }
                j = j + 1;
            }
            match hit {
                Some(h) => hits.push(h),
                None => kept.push(shot),
            }
            s = s + 1;
        }
        self.enemy_shots = kept;
        let ghost mid = *self;
        let mut k: usize = 0;
        while k < hits.len()
            invariant
                k <= hits@.len(),
                n == self.transports@.len(),
                *self == (Game { transports: self.transports, ..mid }),
                forall|j: int| 0 <= j < hits@.len() ==> (#[trigger] hits@[j]) < n,
                moved.len() == n,
                forall|j: int| 0 <= j < n ==> {
                    let (a, b) = (#[trigger] moved[j], self.transports@[j]);
                    b.pos == a.pos && b.away == a.away && b.hp <= a.hp
                },
            decreases hits@.len() - k,
        {
            let h = hits[k];
            let mut t = self.transports[h];
            t.hp = crate::arith::sub32(t.hp, 3);
            if t.hp <= 0 {
                lost = lost.saturating_add(1);
            }
            self.transports.set(h, t);
            k = k + 1;
        }
        if lost > 0 {
            self.say("They got one of the transports!");
        }
        if away > 0 {
            self.say("Transport away. Keep the rest of them alive.");
        }
    }

    /// Let the walkers that are still standing fire up the court on their
    /// cadence.
    pub fn advance_walkers(&mut self)
        requires
            old(self).wf(),
        ensures
            final(self).wf(),
            walkers_advanced(*old(self), *final(self)),
    {
        if self.walkers.len() == 0 {
            return;
        }
        let mut volley: Vec<Shot> = Vec::new();
        let n = self.walkers.len();
        let ghost before = *self;
        let mut i: usize = 0;
        while i < n
            invariant
                i <= n,
                n == self.walkers@.len(),
                *self == (Game { walkers: self.walkers, ..before }),
                forall|k: int| 0 <= k < volley@.len() ==> (#[trigger] volley@[k]).speed == 1,
                before == *old(self),
                forall|j: int| i <= j < n ==> #[trigger] self.walkers@[j] == old(self).walkers@[j],
                forall|j: int| 0 <= j < i ==> {
                    let (a, b) = (#[trigger] old(self).walkers@[j], self.walkers@[j]);
                    b == (if a.down {
                        a
                    } else {
                        Walker { cooldown: if a.cooldown > 0 { (a.cooldown - 1) as u32 } else { WALKER_CADENCE }, ..a }
                    })
                },
            decreases n - i,
        {
            let mut w = self.walkers[i];
            if !w.down {
                if w.cooldown > 0 {
                    w.cooldown = w.cooldown - 1;
                } else {
                    w.cooldown = WALKER_CADENCE;
                    volley.push(Shot::enemy((crate::arith::sub16(w.pos.0, 1), w.pos.1), 0, 1).heavy());
                }
                self.walkers.set(i, w);
            }
            i = i + 1;
        }
        self.launch_volley(&volley);
    }
}

} // verus!
