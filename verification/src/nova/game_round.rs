//! The round as a whole: the smart bomb, the missile launcher and what it
//! aims at, settling the round, and the tick that runs everything.

use vstd::prelude::*;

use super::consts::{BOMB_DAMAGE, INTERMISSION_TICKS, MISSILE_SALVO};
use super::boss::{Boss, BossPart};
use super::capital::Capital;
use super::entities::{Asteroid, Debris, Enemy, Shot, WallTurret};
use super::game::Game;
use super::game_fire::launched;
use super::game_foes::{boss_advanced, capital_advanced, enemies_advanced};
use super::game_tick::{formation_swayed, hazards_advanced, hulks_advanced, mines_advanced, powerups_advanced, rock_advanced, rocks_advanced, stars_advanced, storm_advanced, timers_ticked, transports_advanced, walkers_advanced};
use super::game_volley::{enemy_fire_advanced, shots_advanced, wings_advanced};
use super::kinds::{BossKind, Emplacement, Objective, Status};
use crate::arith::{add32, mul32, quot32, sig_diff, sub32};

verus! {

/// An emplacement of `kind` still stands on `c`.
pub open spec fn standing_kind(c: Capital, kind: Emplacement) -> bool {
    exists|i: int| 0 <= i < c.parts@.len() && (#[trigger] c.parts@[i]).kind == kind && c.parts@[i].hp > 0
}

/// The cell of the first emplacement of `kind` still standing on `c`, from
/// part `i` on.
pub open spec fn first_standing(c: Capital, kind: Emplacement, i: int) -> Option<(i16, i16)>
    decreases c.parts@.len() - i,
{
    if i < 0 || i >= c.parts@.len() {
        None
    } else if c.parts@[i].kind == kind && c.parts@[i].hp > 0 {
        Some((
            crate::arith::clamp_int(c.pos.0 + c.parts@[i].offset.0, i16::MIN as int, i16::MAX as int) as i16,
            crate::arith::clamp_int(c.pos.1 + c.parts@[i].offset.1, i16::MIN as int, i16::MAX as int) as i16,
        ))
    } else {
        first_standing(c, kind, i + 1)
    }
}

/// What each round of a missile salvo hits for: a guided salvo far harder.
pub open spec fn salvo_damage(g: Game) -> i32 {
    let clamp = |x: int| crate::arith::clamp_int(x, i32::MIN as int, i32::MAX as int);
    if g.guided {
        clamp(clamp(g.spec_gun_damage() * 3) + 12) as i32
    } else {
        clamp(g.spec_gun_damage() + 4) as i32
    }
}

/// Round `slot` of a salvo as it leaves the rail, beside the hull: a seeking
/// missile with a blast radius of one.
pub open spec fn salvo_round(g: Game, slot: int) -> Shot {
    let dx: int = if slot % 2 == 0 { -2 } else { 2 };
    Shot {
        speed: -1i16,
        homing: true,
        kind: super::kinds::ShotKind::Missile,
        splash: 1,
        ..Shot::spec_bolt(((g.ship.0 - 1) as i16, (g.ship.1 + dx) as i16), 0, salvo_damage(g))
    }
}

/// `a + b` held at `u32::MAX`.
pub open spec fn sat_sum(a: int, b: int) -> u32 {
    if a + b > u32::MAX { u32::MAX } else { (a + b) as u32 }
}

/// Hit points after a bomb's bite.
pub open spec fn bitten(hp: i32) -> i32 {
    crate::arith::clamp_int(hp - BOMB_DAMAGE, i32::MIN as int, i32::MAX as int) as i32
}

/// The first `n` enemies after a bomb: each loses the bomb's damage, those
/// left with hit points stay in order, and the bounty of the rest is summed.
pub open spec fn bombed(es: Seq<Enemy>, n: int) -> (Seq<Enemy>, u32)
    decreases n,
{
    if n <= 0 {
        (Seq::empty(), 0)
    } else {
        let (left, pay) = bombed(es, n - 1);
        let e = es[n - 1];
        if bitten(e.hp) <= 0 {
            (left, sat_sum(pay as int, e.kind.spec_score() as int))
        } else {
            (left.push(Enemy { hp: bitten(e.hp), ..e }), pay)
        }
    }
}

/// The first `n` rocks that outlast a bomb, in order, each bitten.
pub open spec fn rocks_left(rs: Seq<Asteroid>, n: int) -> Seq<Asteroid>
    decreases n,
{
    if n <= 0 {
        Seq::empty()
    } else if rs[n - 1].hp > BOMB_DAMAGE {
        rocks_left(rs, n - 1).push(Asteroid { hp: (rs[n - 1].hp - BOMB_DAMAGE) as i32, ..rs[n - 1] })
    } else {
        rocks_left(rs, n - 1)
    }
}

/// The first `n` hulks that outlast a bomb, in order, each bitten.
pub open spec fn hulks_left(ds: Seq<Debris>, n: int) -> Seq<Debris>
    decreases n,
{
    if n <= 0 {
        Seq::empty()
    } else if ds[n - 1].hp > BOMB_DAMAGE {
        hulks_left(ds, n - 1).push(Debris { hp: (ds[n - 1].hp - BOMB_DAMAGE) as i32, ..ds[n - 1] })
    } else {
        hulks_left(ds, n - 1)
    }
}

/// The first `n` wall guns after a bomb: each bitten, those still standing
/// kept in order.
pub open spec fn guns_left(ts: Seq<WallTurret>, n: int) -> Seq<WallTurret>
    decreases n,
{
    if n <= 0 {
        Seq::empty()
    } else if bitten(ts[n - 1].hp) > 0 {
        guns_left(ts, n - 1).push(WallTurret { hp: bitten(ts[n - 1].hp), ..ts[n - 1] })
    } else {
        guns_left(ts, n - 1)
    }
}

/// `h` is `g` after one tick of a round in play, by way of the boards `s`
/// between the steps: the ship's timers, the backdrop, the rock, the
/// hazards, the storm, the sway, the enemy hulls, the boss, the capital
/// ship, the transports, the walkers, the wingmen, the hull's shots, the
/// enemy fire, the mines, the rocks, the hulks and the pickups each take
/// their turn as their own rules say, and then the round is settled.
pub open spec fn tick_chain(g: Game, s: Seq<Game>, h: Game) -> bool {
    &&& s.len() == 18
    &&& timers_ticked(g, s[0])
    &&& stars_advanced(s[0], s[1])
    &&& rock_advanced(s[1], s[2])
    &&& hazards_advanced(s[2], s[3])
    &&& storm_advanced(s[3], s[4])
    &&& formation_swayed(s[4], s[5])
    &&& enemies_advanced(s[5], s[6])
    &&& boss_advanced(s[6], s[7])
    &&& capital_advanced(s[7], s[8])
    &&& transports_advanced(s[8], s[9])
    &&& walkers_advanced(s[9], s[10])
    &&& wings_advanced(s[10], s[11])
    &&& shots_advanced(s[11], s[12])
    &&& enemy_fire_advanced(s[12], s[13])
    &&& mines_advanced(s[13], s[14])
    &&& rocks_advanced(s[14], s[15])
    &&& hulks_advanced(s[15], s[16])
    &&& powerups_advanced(s[16], s[17])
    &&& round_settled(s[17], h)
}

/// `h` is `g` a tick on: a round in play ticks over and ends won, lost or
/// still running; the pause after a cleared wave counts down to the hangar;
/// anywhere else nothing moves.
pub open spec fn stepped(g: Game, h: Game) -> bool {
    &&& g.status == Status::Playing ==> {
        &&& exists|s: Seq<Game>| #[trigger] tick_chain(g, s, h)
        &&& h.tick == g.tick.wrapping_add(1)
        &&& (h.status == Status::Playing || h.status == Status::Lost
            || h.status == Status::WaveClear)
        &&& (h.lives == 0 ==> h.status == Status::Lost)
        &&& (h.status == Status::WaveClear ==> h.intermission == INTERMISSION_TICKS)
    }
    &&& g.status == Status::WaveClear ==> {
        let left: int = if g.intermission > 0 { g.intermission - 1 } else { 0 };
        &&& h.intermission == left
        &&& h.status == (if left == 0 { Status::Hangar } else { Status::WaveClear })
        &&& h == (Game { intermission: h.intermission, status: h.status, ..g })
    }
    &&& g.status != Status::Playing && g.status != Status::WaveClear ==> h == g
}

/// How hard a bomb bites a boss: a twelfth of its hull, at least the bomb's
/// own damage.
pub open spec fn boss_bite(b: Boss) -> i32 {
    let share = crate::arith::quot(b.max_hp as int, 12);
    if share >= BOMB_DAMAGE { share as i32 } else { BOMB_DAMAGE }
}

/// The first `n` parts of a boss after a bomb: each bitten, those still
/// standing kept in order.
pub open spec fn parts_left(ps: Seq<BossPart>, bite: i32, n: int) -> Seq<BossPart>
    decreases n,
{
    if n <= 0 {
        Seq::empty()
    } else {
        let hp = crate::arith::clamp_int(ps[n - 1].hp - bite, i32::MIN as int, i32::MAX as int) as i32;
        if hp > 0 {
            parts_left(ps, bite, n - 1).push(BossPart { hp, ..ps[n - 1] })
        } else {
            parts_left(ps, bite, n - 1)
        }
    }
}

/// `nb` is boss `b` after a bomb: its parts bitten, and its hull too unless
/// a standing turret still shields it.
pub open spec fn boss_bombed(b: Boss, nb: Boss) -> bool {
    let bite = boss_bite(b);
    let parts = parts_left(b.parts@, bite, b.parts@.len() as int);
    let shielded = b.kind == BossKind::Twin && parts.len() > 0;
    &&& nb.parts@ == parts
    &&& nb.hp == (if shielded { b.hp } else { crate::arith::clamp_int(b.hp - bite, i32::MIN as int, i32::MAX as int) as i32 })
    &&& nb.kind == b.kind && nb.pos == b.pos && nb.max_hp == b.max_hp && nb.dir == b.dir
    &&& nb.cooldown == b.cooldown && nb.minion_timer == b.minion_timer && nb.tick == b.tick
}

/// `h` is `g` after a smart bomb is called for.
pub open spec fn bomb_dropped(g: Game, h: Game) -> bool {
    &&& (g.status != Status::Playing || g.bombs == 0) ==> h == g
    &&& !(g.status != Status::Playing || g.bombs == 0) ==> {
        let (left, pay) = bombed(g.enemies@, g.enemies@.len() as int);
        &&& h.enemy_shots@.len() == 0
        &&& h.mines@.len() == 0
        &&& h.enemies@ == left
        &&& h.asteroids@ == rocks_left(g.asteroids@, g.asteroids@.len() as int)
        &&& h.debris@ == hulks_left(g.debris@, g.debris@.len() as int)
        &&& h.turrets@ == guns_left(g.turrets@, g.turrets@.len() as int)
        &&& h.bombs >= g.bombs - 1
        &&& (h.level == g.level && g.level < u32::MAX
            ==> h.bombs == g.bombs - 1)
        &&& h.score >= sat_sum(g.score as int, pay * g.difficulty.spec_score_bonus())
        &&& h.flash == 6
        &&& g.boss is None ==> h.boss is None
        &&& g.boss matches Some(b) ==> match h.boss {
            Some(nb) => boss_bombed(b, nb),
            None => {
                let parts = parts_left(b.parts@, boss_bite(b), b.parts@.len() as int);
                &&& !(b.kind == BossKind::Twin && parts.len() > 0)
                &&& b.hp - boss_bite(b) <= 0
            },
        }
    }
    &&& h.tick == g.tick
    &&& h.ship == g.ship
    &&& h.lives == 0 ==> h.status == Status::Lost || h.status == g.status
}

/// `h` is `g` after the missile launcher is fired.
pub open spec fn salvo_fired(g: Game, h: Game) -> bool {
    &&& (g.status != Status::Playing || g.missiles == 0) ==> h == g
    &&& !(g.status != Status::Playing || g.missiles == 0) ==> {
        &&& h.missiles == g.missiles - 1
        &&& h.shots@.len() == g.shots@.len() + MISSILE_SALVO
        &&& h.shots@.subrange(0, g.shots@.len() as int) == g.shots@
        &&& !h.guided
        &&& forall|k: int| 0 <= k < MISSILE_SALVO ==> {
            let fired = #[trigger] h.shots@[g.shots@.len() + k];
            let round = launched(g, salvo_round(g, k));
            if g.guided && g.spec_weak_point() is Some {
                &&& fired == (Shot { drift: fired.drift, homing: false, ..round })
                &&& fired.drift == crate::arith::sign(g.spec_weak_point().unwrap().1 - round.pos.1)
            } else {
                fired == round
            }
        }
    }
    &&& h == (Game { missiles: h.missiles, shots: h.shots, guided: h.guided, ..g })
}

/// `h` is `g` with the round settled.
pub open spec fn round_settled(g: Game, h: Game) -> bool {
    &&& h.tick == g.tick
    &&& h.ship == g.ship
    &&& h.enemies == g.enemies
    &&& h.enemy_shots == g.enemy_shots
    &&& h.mines == g.mines
    &&& h.asteroids == g.asteroids
    &&& h.boss != g.boss ==> h.boss is None
        && (g.boss matches Some(b) && b.hp <= 0 && !b.spec_armoured())
    &&& h.debris == g.debris
    &&& h.turrets == g.turrets
    &&& h.shots == g.shots
    &&& h.flash == g.flash
    &&& h.score >= g.score
    &&& h.level >= g.level
    &&& h.bombs >= g.bombs
    &&& h.level == g.level && g.level < u32::MAX ==> h.bombs == g.bombs
    &&& h.lives == 0 ==> h.status == Status::Lost
    &&& h.status == g.status || h.status == Status::Lost
        || (h.status == Status::WaveClear && g.status == Status::Playing)
    &&& h.status == Status::WaveClear && g.status == Status::Playing
        ==> h.intermission == INTERMISSION_TICKS
}

impl Game {
    /// The cell of the first standing emplacement of `kind` on `cap`.
    fn pick(cap: &Capital, kind: Emplacement) -> (r: Option<(i16, i16)>)
        ensures
            r == first_standing(*cap, kind, 0),
            r is Some <==> exists|i: int| 0 <= i < cap.parts@.len() && (#[trigger] cap.parts@[i]).kind == kind && cap.parts@[i].hp > 0,
    {
        let mut i: usize = 0;
        while i < cap.parts.len()
            invariant
                i <= cap.parts@.len(),
                forall|j: int| 0 <= j < i ==> !((#[trigger] cap.parts@[j]).kind == kind && cap.parts@[j].hp > 0),
                first_standing(*cap, kind, 0) == first_standing(*cap, kind, i as int),
            decreases cap.parts@.len() - i,
        {
            let p = cap.parts[i];
            if p.kind == kind && p.hp > 0 {
                return Some(cap.part_cell(&cap.parts[i]));
            }
            i = i + 1;
        }
        None
    }

    /// The weak point a guided salvo goes for: an open exhaust port first, then
    /// a shield generator, a battery, or a hangar bay, in that order.
    pub open spec fn spec_weak_point(&self) -> Option<(i16, i16)> {
        match self.capital {
            None => None,
            Some(c) => {
                if !c.spec_shielded() && first_standing(c, Emplacement::ExhaustPort, 0) is Some {
                    first_standing(c, Emplacement::ExhaustPort, 0)
                } else if first_standing(c, Emplacement::ShieldDome, 0) is Some {
                    first_standing(c, Emplacement::ShieldDome, 0)
                } else if first_standing(c, Emplacement::Turbolaser, 0) is Some {
                    first_standing(c, Emplacement::Turbolaser, 0)
                } else {
                    first_standing(c, Emplacement::HangarBay, 0)
                }
            },
        }
    }

    /// The weak point a guided salvo goes for: an open exhaust port first, then
    /// a shield generator, a battery, or a hangar bay, in that order.
    pub fn weak_point(&self) -> (r: Option<(i16, i16)>)
        ensures
            r == self.spec_weak_point(),
            self.capital is None ==> r is None,
            self.capital matches Some(c) ==> (r is Some <==> ((!c.spec_shielded() && standing_kind(c, Emplacement::ExhaustPort))
                || standing_kind(c, Emplacement::ShieldDome) || standing_kind(c, Emplacement::Turbolaser)
                || standing_kind(c, Emplacement::HangarBay))),
    {
        let cap = match &self.capital {
            Some(c) => c,
            None => {
                return None;
            },
        };
        if !cap.shielded() {
            if let Some(port) = Self::pick(cap, Emplacement::ExhaustPort) {
                return Some(port);
            }
        }
        if let Some(dome) = Self::pick(cap, Emplacement::ShieldDome) {
            return Some(dome);
        }
        if let Some(battery) = Self::pick(cap, Emplacement::Turbolaser) {
            return Some(battery);
        }
        Self::pick(cap, Emplacement::HangarBay)
    }

    /// Fire the missile launcher: seeking rounds off their own ammunition
    /// rather than the gun cadence. A guided salvo hits far harder, flies
    /// straight at the weak point, and uses the guidance up.
    pub fn fire_missiles(&mut self)
        requires
            old(self).wf(),
        ensures
            final(self).wf(),
            salvo_fired(*old(self), *final(self)),
    {
        if self.status != Status::Playing || self.missiles == 0 {
            return;
        }
        self.missiles = self.missiles - 1;
        let damage = if self.guided {
            add32(mul32(self.gun_damage(), 3), 12)
        } else {
            add32(self.gun_damage(), 4)
        };
        let r = self.ship.0 - 1;
        let c = self.ship.1;
        // A guided salvo goes for the weak point rather than the nearest hull.
        let aim = if self.guided { self.weak_point() } else { None };
        let ghost before = *self;
        let mut slot: u32 = 0;
        while slot < MISSILE_SALVO
            invariant
                slot <= MISSILE_SALVO,
                *self == (Game { shots: self.shots, ..before }),
                self.shots@.len() == before.shots@.len() + slot,
                self.shots@.subrange(0, old(self).shots@.len() as int) == old(self).shots@,
                before == (Game { missiles: before.missiles, ..*old(self) }),
                r == old(self).ship.0 - 1,
                c == old(self).ship.1,
                damage == salvo_damage(*old(self)),
                aim == (if old(self).guided { old(self).spec_weak_point() } else { None }),
                forall|k: int| 0 <= k < slot ==> {
                    let fired = #[trigger] self.shots@[old(self).shots@.len() + k];
                    let round = launched(*old(self), salvo_round(*old(self), k));
                    if old(self).guided && old(self).spec_weak_point() is Some {
                        &&& fired == (Shot { drift: fired.drift, homing: false, ..round })
                        &&& fired.drift == crate::arith::sign(old(self).spec_weak_point().unwrap().1 - round.pos.1)
                    } else {
                        fired == round
                    }
                },
                1 <= c <= 74,
            decreases MISSILE_SALVO - slot,
        {
            let dx: i16 = if slot % 2 == 0 { -2 } else { 2 };
            let mut missile = Shot::missile((r, c + dx), damage);
            missile.splash = 1;
            if let Some(target) = aim {
                missile.drift = sig_diff(target.1, c + dx);
                missile.homing = false;
            }
            self.launch(missile);
            slot = slot + 1;
        }
        self.guided = false;
    }

    /// Settle the round: a dead boss pays a bounty, no lives left ends the run,
    /// a wrecked capital ship pays its own, and once the objective is met the
    /// wave is cleared and the countdown to the hangar starts.
    pub fn check_end(&mut self)
        requires
            old(self).wf(),
        ensures
            final(self).wf(),
            round_settled(*old(self), *final(self)),
    {
        let mut boss_down = false;
        match &self.boss {
            Some(b) => {
                if b.hp <= 0 && !b.armoured() {
                    boss_down = true;
                }
            },
            None => {},
        }
        if boss_down {
            let bounty = crate::arith::mulu32(500, self.wave);
            self.boss = None;
            self.add_score(bounty);
            self.gain_xp(bounty / 2);
        }
        if self.lives == 0 {
            self.status = Status::Lost;
            return;
        }
        let mut wrecked = false;
        match &self.capital {
            Some(c) => {
                if c.hp <= 0 {
                    wrecked = true;
                }
            },
            None => {},
        }
        if wrecked {
            let wide: u64 = 2_000 + 400 * self.wave as u64;
            let bounty: u32 = if wide <= u32::MAX as u64 { wide as u32 } else { u32::MAX };
            self.capital = None;
            self.say("She's coming apart! Break off, break off.");
            self.add_score(bounty);
            self.gain_xp(bounty / 4);
        }
        // What counts as done depends on what was asked for.
        let swept = self.enemies.len() == 0 && self.boss.is_none() && self.capital.is_none();
        let done = match self.objective {
            Objective::Destroy => swept,
            Objective::CoreRun => self.capital.is_none(),
            Objective::Survive { .. } => self.objective_ticks == 0,
            Objective::Walkers { .. } => {
                let mut all = self.walkers.len() > 0;
                let mut i: usize = 0;
                while i < self.walkers.len()
                    invariant
                        i <= self.walkers@.len(),
                    decreases self.walkers@.len() - i,
                {
                    if !self.walkers[i].down {
                        all = false;
                    }
                    i = i + 1;
                }
                all
            },
            Objective::Escort { .. } => {
                let mut all = self.transports.len() > 0;
                let mut i: usize = 0;
                while i < self.transports.len()
                    invariant
                        i <= self.transports@.len(),
                    decreases self.transports@.len() - i,
                {
                    let t = self.transports[i];
                    if !(t.away || t.hp <= 0) {
                        all = false;
                    }
                    i = i + 1;
                }
                all
            },
        };
        if done && self.status == Status::Playing {
            if let Objective::Escort { needed } = self.objective {
                let mut away: usize = 0;
                let mut i: usize = 0;
                while i < self.transports.len()
                    invariant
                        i <= self.transports@.len(),
                        away <= i,
                    decreases self.transports@.len() - i,
                {
                    if self.transports[i].away {
                        away = away + 1;
                    }
                    i = i + 1;
                }
                if away >= needed {
                    self.say("All transports away. Good work.");
                    let bonus = crate::arith::mulu32(500, if away <= u32::MAX as usize { away as u32 } else { u32::MAX });
                    self.add_score(bonus);
                } else {
                    self.say("We lost too many of them.");
                }
            }
            self.status = Status::WaveClear;
            self.intermission = INTERMISSION_TICKS;
            self.map.clear_here();
            let bonus = crate::arith::mulu32(100, self.wave);
            self.add_score(bonus);
            self.credits = self.credits.saturating_add(bonus);
        }
    }

    /// Drop a smart bomb: every enemy shot and mine is wiped and everything on
    /// the court takes damage, the boss and its parts included; the kills pay
    /// out and the round is settled.
    pub fn bomb(&mut self)
        requires
            old(self).wf(),
        ensures
            final(self).wf(),
            bomb_dropped(*old(self), *final(self)),
    {
        if self.status != Status::Playing || self.bombs == 0 {
            return;
        }
        self.bombs = self.bombs - 1;
        self.flash = 6;
        self.enemy_shots.clear();
        self.mines.clear();
        let mut survivors: Vec<Enemy> = Vec::new();
        let mut payout: u32 = 0;
        let mut i: usize = 0;
        while i < self.enemies.len()
            invariant
                i <= self.enemies@.len(),
                (survivors@, payout) == bombed(self.enemies@, i as int),
            decreases self.enemies@.len() - i,
        {
            let mut e = self.enemies[i];
            e.hp = sub32(e.hp, BOMB_DAMAGE);
            if e.hp <= 0 {
                payout = payout.saturating_add(e.kind.score());
            } else {
                survivors.push(e);
            }
            i = i + 1;
        }
        self.enemies = survivors;
        let mut rocks: Vec<Asteroid> = Vec::new();
        let mut i: usize = 0;
        while i < self.asteroids.len()
            invariant
                i <= self.asteroids@.len(),
                rocks@ == rocks_left(self.asteroids@, i as int),
            decreases self.asteroids@.len() - i,
        {
            if self.asteroids[i].hp > BOMB_DAMAGE {
                let mut rock = self.asteroids[i];
                rock.hp = rock.hp - BOMB_DAMAGE;
                rocks.push(rock);
            }
            i = i + 1;
        }
        self.asteroids = rocks;
        let mut hulks: Vec<Debris> = Vec::new();
        let mut i: usize = 0;
        while i < self.debris.len()
            invariant
                i <= self.debris@.len(),
                hulks@ == hulks_left(self.debris@, i as int),
            decreases self.debris@.len() - i,
        {
            if self.debris[i].hp > BOMB_DAMAGE {
                let mut hulk = self.debris[i];
                hulk.hp = hulk.hp - BOMB_DAMAGE;
                hulks.push(hulk);
            }
            i = i + 1;
        }
        self.debris = hulks;
        let mut guns: Vec<WallTurret> = Vec::new();
        let mut i: usize = 0;
        while i < self.turrets.len()
            invariant
                i <= self.turrets@.len(),
                guns@ == guns_left(self.turrets@, i as int),
            decreases self.turrets@.len() - i,
        {
            let mut t = self.turrets[i];
            t.hp = sub32(t.hp, BOMB_DAMAGE);
            if t.hp > 0 {
                guns.push(t);
            }
            i = i + 1;
        }
        self.turrets = guns;
        match self.boss.take() {
            Some(mut boss) => {
                let share = quot32(boss.max_hp, 12);
                let bite = if share >= BOMB_DAMAGE { share } else { BOMB_DAMAGE };
                let mut standing: Vec<super::boss::BossPart> = Vec::new();
                let mut k: usize = 0;
                while k < boss.parts.len()
                    invariant
                        k <= boss.parts@.len(),
                        standing@.len() <= k,
                        bite == boss_bite(boss),
                        standing@ == parts_left(boss.parts@, bite, k as int),
                    decreases boss.parts@.len() - k,
                {
                    let mut part = boss.parts[k];
                    part.hp = sub32(part.hp, bite);
                    if part.hp > 0 {
                        standing.push(part);
                    }
                    k = k + 1;
                }
                let ghost was = boss;
                boss.parts = standing;
                if !boss.armoured() {
                    boss.hp = sub32(boss.hp, bite);
                }
                assert(boss_bombed(was, boss));
                self.boss = Some(boss);
            },
            None => {},
        }
        self.add_score(payout);
        self.gain_xp(payout);
        self.check_end();
    }

    /// Advance one tick of the round, or of the pause before the hangar
    /// opens; anywhere else nothing moves.
    pub fn step(&mut self)
        requires
            old(self).wf(),
        ensures
            final(self).wf(),
            stepped(*old(self), *final(self)),
    {
        match self.status {
            Status::Playing => {
                self.tick_timers();
                let ghost s0 = *self;
                self.advance_stars();
                let ghost s1 = *self;
                self.advance_terrain();
                let ghost s2 = *self;
                self.advance_hazards();
                let ghost s3 = *self;
                self.advance_storm();
                let ghost s4 = *self;
                self.sway();
                let ghost s5 = *self;
                self.advance_enemies();
                let ghost s6 = *self;
                self.advance_boss();
                let ghost s7 = *self;
                self.advance_capital();
                let ghost s8 = *self;
                self.advance_transports();
                let ghost s9 = *self;
                self.advance_walkers();
                let ghost s10 = *self;
                self.advance_wings();
                let ghost s11 = *self;
                self.advance_shots();
                let ghost s12 = *self;
                self.advance_enemy_shots();
                let ghost s13 = *self;
                self.advance_mines();
                let ghost s14 = *self;
                self.advance_asteroids();
                let ghost s15 = *self;
                self.advance_debris();
                let ghost s16 = *self;
                self.advance_powerups();
                let ghost s17 = *self;
                self.check_end();
                assert(tick_chain(*old(self), seq![s0, s1, s2, s3, s4, s5, s6, s7, s8, s9, s10, s11, s12, s13, s14, s15, s16, s17], *self));
            },
            Status::WaveClear => {
                self.intermission = self.intermission.saturating_sub(1);
                if self.intermission == 0 {
                    self.status = Status::Hangar;
                }
            },
            _ => {},
        }
    }
}

} // verus!
