//! Banking a run: score and its extends, experience and levels, salvage,
//! pickups, and what a hit on the hull costs.

use vstd::prelude::*;

use super::consts::{COMBO_TICKS, EXTEND_SCORE, FORCE_MAX, FORCE_PER_KILL, INVULN_TICKS, MAX_COMBO, MAX_DRONES, MAX_SHIELD_PIPS, MAX_WEAPON_LEVEL, MEDAL_SCORE, MISSILE_PACK, RAPID_TICKS, SENSE_TICKS, XP_PER_LEVEL};
use super::game::Game;
use super::kinds::{ForcePower, LevelReward, Module, NodeKind, Part, PowerKind, Status, Weapon};
use crate::arith::{clamp_int, sat_u32};

verus! {

/// The salvage a kill worth `base` pays before the galaxy's bonus is added.
pub open spec fn salvage_before_bonus(g: Game, base: u32) -> int {
    let s1 = base / 2 + 5;
    let s2 = if g.loadout.spec_has(Module::Salvager) { s1 + s1 / 2 } else { s1 };
    if g.spec_danger() || g.node.kind == NodeKind::Elite { sat_u32(2 * s2) as int } else { s2 }
}

/// The salvage a kill worth `base` pays: half of it and five more, half again
/// with a salvager fitted, doubled on a danger run or in an elite system, and
/// topped up by the galaxy's bonus.
pub open spec fn salvage(g: Game, base: u32) -> u32 {
    let s = salvage_before_bonus(g, base);
    sat_u32(s + s * g.galaxy.spec_salvage_bonus() / 100)
}

/// `h` is `g` after reaching for the Force's `power`: `r` says whether it
/// answered, and what it did.
pub open spec fn forced(g: Game, power: ForcePower, r: bool, h: Game) -> bool {
    &&& r == (g.status == Status::Playing && g.force >= power.spec_cost())
    &&& !r ==> h == g
    &&& r ==> h.force == g.force - power.spec_cost()
    &&& r && power == ForcePower::Sense ==> h.sense == SENSE_TICKS
    &&& r && power == ForcePower::Guided ==> h.guided
    &&& r && power == ForcePower::Pull ==> h.powerups@.len() == g.powerups@.len()
            && forall|i: int| 0 <= i < h.powerups@.len() ==> #[trigger] h.powerups@[i].pos == g.ship
                && h.powerups@[i].kind == g.powerups@[i].kind
    &&& h.status == g.status
    &&& h.ship == g.ship
}

impl Game {
    /// Bank points at the difficulty's multiplier, paying out a spare life at
    /// every extend threshold the score crosses.
    pub fn add_score(&mut self, points: u32)
        ensures
            final(self).score == sat_u32(old(self).score + points * old(self).difficulty.spec_score_bonus()),
            final(self).next_extend >= old(self).next_extend,
            (final(self).next_extend - old(self).next_extend) % (EXTEND_SCORE as int) == 0,
            final(self).lives == sat_u32(
                old(self).lives + (final(self).next_extend - old(self).next_extend) / (EXTEND_SCORE as int),
            ),
            final(self).score < final(self).next_extend || final(self).next_extend > u32::MAX - EXTEND_SCORE,
            final(self).next_extend == old(self).next_extend
                || final(self).next_extend - EXTEND_SCORE <= final(self).score,
            *final(self) == (Game {
                score: final(self).score,
                lives: final(self).lives,
                next_extend: final(self).next_extend,
                ..*old(self)
            }),
    {
        let bonus = self.difficulty.score_bonus();
        assert(bonus <= 3);
        assert(points as u64 * bonus as u64 <= 0xffff_ffff * 3) by (nonlinear_arith)
            requires points <= 0xffff_ffff, bonus <= 3;
        let gained: u64 = points as u64 * bonus as u64;
        let total: u64 = self.score as u64 + gained;
        self.score = if total <= u32::MAX as u64 { total as u32 } else { u32::MAX };
        let ghost start_next = self.next_extend;
        let ghost start_lives = self.lives;
        while self.score >= self.next_extend && self.next_extend <= u32::MAX - EXTEND_SCORE
            invariant
                self.next_extend >= start_next,
                (self.next_extend - start_next) % (EXTEND_SCORE as int) == 0,
                self.lives == sat_u32(start_lives + (self.next_extend - start_next) / (EXTEND_SCORE as int)),
                self.next_extend == start_next || self.next_extend - EXTEND_SCORE <= self.score,
                start_next == old(self).next_extend,
                start_lives == old(self).lives,
                self.score == (if total <= u32::MAX as u64 { total as u32 } else { u32::MAX }),
                *self == (Game { score: self.score, lives: self.lives, next_extend: self.next_extend, ..*old(self) }),
            decreases u32::MAX - self.next_extend,
        {
            self.lives = self.lives.saturating_add(1);
            self.next_extend = self.next_extend + EXTEND_SCORE;
        }
    }

    /// Recompute the shield ceiling from the hull, its plating and the levels,
    /// and pull the shield down under it.
    pub fn recompute_shield(&mut self)
        ensures
            final(self).max_shield == clamp_int(
                old(self).class.spec_max_shield() + old(self).loadout.spec_tier(Part::Plating) + old(self).bonus_plating,
                0,
                MAX_SHIELD_PIPS as int,
            ),
            final(self).shield == (if old(self).shield <= final(self).max_shield { old(self).shield } else { final(self).max_shield }),
            *final(self) == (Game { max_shield: final(self).max_shield, shield: final(self).shield, ..*old(self) }),
    {
        let ceiling: u64 = self.class.max_shield() as u64 + self.loadout.tier(Part::Plating) as u64
            + self.bonus_plating as u64;
        self.max_shield = if ceiling <= MAX_SHIELD_PIPS as u64 { ceiling as u32 } else { MAX_SHIELD_PIPS };
        if self.shield > self.max_shield {
            self.shield = self.max_shield;
        }
    }

    /// Bank experience and salvage, levelling the pilot up when the bar fills;
    /// every level hands out the reward of its place in the rotation.
    pub fn gain_xp(&mut self, base: u32)
        requires
            old(self).wf(),
        ensures
            final(self).wf(),
            final(self).credits == sat_u32(old(self).credits + salvage(*old(self), base)),
            final(self).level >= old(self).level,
            final(self).bombs >= old(self).bombs,
            final(self).level == old(self).level && old(self).level < u32::MAX ==> final(self).bombs == old(self).bombs,
            final(self).xp < final(self).xp_next,
            *final(self) == (Game {
                credits: final(self).credits,
                xp: final(self).xp,
                level: final(self).level,
                xp_next: final(self).xp_next,
                bonus_plating: final(self).bonus_plating,
                bonus_damage: final(self).bonus_damage,
                bonus_regen: final(self).bonus_regen,
                max_shield: final(self).max_shield,
                shield: final(self).shield,
                bombs: final(self).bombs,
                ..*old(self)
            }),
    {
        let s1: u64 = (base / 2) as u64 + 5;
        let s2: u64 = if self.loadout.has(Module::Salvager) { s1 + s1 / 2 } else { s1 };
        let s3: u64 = if self.danger() || self.node.kind == NodeKind::Elite {
            if 2 * s2 <= u32::MAX as u64 { 2 * s2 } else { u32::MAX as u64 }
        } else {
            s2
        };
        assert(s3 <= u32::MAX);
        let bonus: u64 = self.galaxy.salvage_bonus() as u64;
        assert(bonus <= 60);
        assert(s3 * bonus <= u32::MAX as u64 * 60) by (nonlinear_arith)
            requires s3 <= u32::MAX, bonus <= 60;
        let s4: u64 = s3 + s3 * bonus / 100;
        let salvage_now: u64 = if s4 <= u32::MAX as u64 { s4 } else { u32::MAX as u64 };
        let credits: u64 = self.credits as u64 + salvage_now;
        self.credits = if credits <= u32::MAX as u64 { credits as u32 } else { u32::MAX };
        self.xp = self.xp.saturating_add(base / 4 + 1);
        let ghost mid = *self;
        while self.xp >= self.xp_next
            invariant
                self.wf(),
                self.level >= old(self).level,
                self.bombs >= old(self).bombs,
                self.level == old(self).level && old(self).level < u32::MAX ==> self.bombs == old(self).bombs,
                mid == (Game { credits: mid.credits, xp: mid.xp, ..*old(self) }),
                *self == (Game {
                    xp: self.xp,
                    level: self.level,
                    xp_next: self.xp_next,
                    bonus_plating: self.bonus_plating,
                    bonus_damage: self.bonus_damage,
                    bonus_regen: self.bonus_regen,
                    max_shield: self.max_shield,
                    shield: self.shield,
                    bombs: self.bombs,
                    ..mid
                }),
            decreases self.xp,
        {
            self.xp = self.xp - self.xp_next;
            self.level = self.level.saturating_add(1);
            self.xp_next = crate::arith::mulu32(XP_PER_LEVEL, self.level);
            match LevelReward::of_level(self.level) {
                LevelReward::Plating => {
                    self.bonus_plating = self.bonus_plating.saturating_add(1);
                    self.recompute_shield();
                    self.shield = self.shield + 1;
                },
                LevelReward::Firepower => self.bonus_damage = crate::arith::add32(self.bonus_damage, 1),
                LevelReward::Cell => self.bonus_regen = self.bonus_regen.saturating_add(1),
                LevelReward::Bomb => self.bombs = self.bombs.saturating_add(1),
            }
        }
    }

    /// Bank a kill at the current chain multiplier, extend the chain, and feed
    /// the Force.
    pub fn award(&mut self, base: u32)
        requires
            old(self).wf(),
        ensures
            final(self).wf(),
            final(self).combo == (if old(self).combo + 1 <= MAX_COMBO { old(self).combo + 1 } else { MAX_COMBO as int }),
            final(self).combo_timer == COMBO_TICKS,
            final(self).force == (if old(self).force + FORCE_PER_KILL <= FORCE_MAX { old(self).force + FORCE_PER_KILL } else { FORCE_MAX as int }),
            final(self).score == sat_u32(old(self).score + sat_u32(base * old(self).combo) * old(self).difficulty.spec_score_bonus()),
            final(self).credits == sat_u32(old(self).credits + salvage(*old(self), base)),
            final(self).lives >= old(self).lives,
            *final(self) == (Game {
                score: final(self).score,
                lives: final(self).lives,
                next_extend: final(self).next_extend,
                credits: final(self).credits,
                xp: final(self).xp,
                level: final(self).level,
                xp_next: final(self).xp_next,
                bonus_plating: final(self).bonus_plating,
                bonus_damage: final(self).bonus_damage,
                bonus_regen: final(self).bonus_regen,
                max_shield: final(self).max_shield,
                shield: final(self).shield,
                bombs: final(self).bombs,
                combo: final(self).combo,
                combo_timer: final(self).combo_timer,
                force: final(self).force,
                ..*old(self)
            }),
    {
        let points = crate::arith::mulu32(base, self.combo);
        let ghost before = *self;
        self.add_score(points);
        assert(salvage(*self, base) == salvage(before, base));
        self.gain_xp(base);
        self.combo = if self.combo < MAX_COMBO { self.combo + 1 } else { MAX_COMBO };
        self.combo_timer = COMBO_TICKS;
        self.force = if self.force + FORCE_PER_KILL <= FORCE_MAX { self.force + FORCE_PER_KILL } else { FORCE_MAX };
    }

    /// Put a gun in the racks, if it is not there already, and fit it.
    pub fn stock_gun(&mut self, weapon: Weapon)
        ensures
            final(self).weapon == weapon,
            final(self).owned@.contains(weapon),
            old(self).owned@.contains(weapon) ==> final(self).owned@ == old(self).owned@,
            !old(self).owned@.contains(weapon) ==> final(self).owned@ == old(self).owned@.push(weapon),
            *final(self) == (Game { weapon: final(self).weapon, owned: final(self).owned, ..*old(self) }),
    {
        let mut found = false;
        let mut i: usize = 0;
        while i < self.owned.len()
            invariant
                i <= self.owned@.len(),
                found == (exists|j: int| 0 <= j < i && self.owned@[j] == weapon),
            decreases self.owned@.len() - i,
        {
            if self.owned[i] == weapon {
                found = true;
            }
            i = i + 1;
        }
        if !found {
            self.owned.push(weapon);
            assert(self.owned@[self.owned@.len() - 1] == weapon);
        }
        self.weapon = weapon;
    }

    /// Take a hit: the bulwark eats it, then the flash of the last hit, then
    /// shield pips; a hit they cannot soak costs a life, refills the shield and
    /// drops the gun a level and a drone. Either way the chain breaks.
    pub fn damage_ship(&mut self, pips: u32)
        requires
            old(self).wf(),
        ensures
            final(self).wf(),
            old(self).invuln > 0 || old(self).bulwark > 0 ==> *final(self) == *old(self),
            old(self).invuln == 0 && old(self).bulwark == 0 ==> {
                let p: int = if pips >= 1 { pips as int } else { 1 };
                &&& final(self).invuln == INVULN_TICKS
                &&& final(self).combo == 1
                &&& final(self).combo_timer == 0
                &&& (old(self).shield >= p ==> {
                    &&& final(self).shield == old(self).shield - p
                    &&& final(self).lives == old(self).lives
                    &&& final(self).weapon_level == old(self).weapon_level
                    &&& final(self).drones == old(self).drones
                })
                &&& (old(self).shield < p ==> {
                    &&& final(self).lives == (if old(self).lives > 0 { old(self).lives - 1 } else { 0 })
                    &&& final(self).shield == old(self).max_shield
                    &&& final(self).weapon_level == (if old(self).weapon_level > 1 { old(self).weapon_level - 1 } else { 1 })
                    &&& final(self).drones@ == (if old(self).drones@.len() > 0 { old(self).drones@.drop_last() } else { old(self).drones@ })
                })
            },
            *final(self) == (Game {
                invuln: final(self).invuln,
                combo: final(self).combo,
                combo_timer: final(self).combo_timer,
                shield: final(self).shield,
                lives: final(self).lives,
                weapon_level: final(self).weapon_level,
                drones: final(self).drones,
                chatter: final(self).chatter,
                ..*old(self)
            }),
    {
        if self.invuln > 0 || self.bulwark > 0 {
            return;
        }
        self.invuln = INVULN_TICKS;
        self.combo = 1;
        self.combo_timer = 0;
        let pips = if pips >= 1 { pips } else { 1 };
        let soaked = if self.shield <= pips { self.shield } else { pips };
        self.shield = self.shield - soaked;
        if soaked == pips {
            if self.shield == 0 {
                self.say("Deflectors gone!");
            }
            return;
        }
        self.lives = self.lives.saturating_sub(1);
        self.shield = self.max_shield;
        self.weapon_level = if self.weapon_level > 1 { self.weapon_level - 1 } else { 1 };
        self.drones.pop();
        self.say("I'm hit! Punching out — bring up the spare.");
    }

    /// Pick up a dropped powerup: a matching gun levels up, another gun goes
    /// in the racks, and the rest top up what they name. Every pickup scores.
    pub fn collect(&mut self, kind: PowerKind)
        requires
            old(self).wf(),
        ensures
            final(self).wf(),
            kind == PowerKind::Gun(old(self).weapon) ==> final(self).weapon == old(self).weapon
                && final(self).weapon_level == (if old(self).weapon_level < MAX_WEAPON_LEVEL { old(self).weapon_level + 1 } else { MAX_WEAPON_LEVEL as int }),
            (kind matches PowerKind::Gun(w) && w != old(self).weapon) ==> final(self).weapon == kind->Gun_0
                && final(self).weapon_level == old(self).weapon_level
                && final(self).owned@.contains(kind->Gun_0),
            kind == PowerKind::Shield ==> final(self).shield == (if old(self).shield + 1 <= old(self).max_shield + 2 { old(self).shield + 1 } else { old(self).max_shield + 2 }),
            kind == PowerKind::Bomb ==> final(self).bombs == sat_u32(old(self).bombs + 1),
            kind == PowerKind::Rapid ==> final(self).rapid == RAPID_TICKS,
            kind == PowerKind::Missiles ==> final(self).missiles == sat_u32(old(self).missiles + MISSILE_PACK),
            kind == PowerKind::Medal ==> final(self).medals == sat_u32(old(self).medals + 1),
            kind == PowerKind::Drone && old(self).drones@.len() < MAX_DRONES ==> final(self).drones@.len() == old(self).drones@.len() + 1,
            final(self).score >= old(self).score,
            final(self).lives >= old(self).lives,
            *final(self) == (Game {
                weapon_level: final(self).weapon_level,
                weapon: final(self).weapon,
                owned: final(self).owned,
                missiles: final(self).missiles,
                shield: final(self).shield,
                bombs: final(self).bombs,
                rapid: final(self).rapid,
                drones: final(self).drones,
                credits: final(self).credits,
                medals: final(self).medals,
                score: final(self).score,
                lives: final(self).lives,
                next_extend: final(self).next_extend,
                ..*old(self)
            }),
    {
        match kind {
            PowerKind::Gun(w) => {
                if w == self.weapon {
                    self.weapon_level = if self.weapon_level < MAX_WEAPON_LEVEL { self.weapon_level + 1 } else { MAX_WEAPON_LEVEL };
                } else {
                    self.stock_gun(w);
                }
            },
            PowerKind::Missiles => self.missiles = self.missiles.saturating_add(MISSILE_PACK),
            PowerKind::Shield => {
                self.shield = if self.shield + 1 <= self.max_shield + 2 { self.shield + 1 } else { self.max_shield + 2 };
            },
            PowerKind::Bomb => self.bombs = self.bombs.saturating_add(1),
            PowerKind::Rapid => self.rapid = RAPID_TICKS,
            PowerKind::Drone => {
                if self.drones.len() < MAX_DRONES {
                    let mut left = false;
                    let mut i: usize = 0;
                    while i < self.drones.len()
                        invariant
                            i <= self.drones@.len(),
                        decreases self.drones@.len() - i,
                    {
                        if self.drones[i] == -1 {
                            left = true;
                        }
                        i = i + 1;
                    }
                    let side: i16 = if left { 1 } else { -1 };
                    self.drones.push(side);
                } else {
                    self.credits = self.credits.saturating_add(MEDAL_SCORE / 2);
                }
            },
            PowerKind::Medal => {
                self.medals = self.medals.saturating_add(1);
                self.add_score(MEDAL_SCORE);
                self.credits = self.credits.saturating_add(MEDAL_SCORE / 2);
            },
            PowerKind::Life => self.lives = self.lives.saturating_add(1),
        }
        self.add_score(25);
    }

    /// Reach for the Force. It only answers in a fight, and only if there is
    /// enough of it; what it does depends on the power asked for.
    pub fn use_force(&mut self, power: ForcePower) -> (r: bool)
        requires
            old(self).wf(),
        ensures
            final(self).wf(),
            forced(*old(self), power, r, *final(self)),
    {
        if self.status != Status::Playing || self.force < power.cost() {
            return false;
        }
        self.force = self.force - power.cost();
        match power {
            ForcePower::Sense => {
                self.sense = SENSE_TICKS;
                self.say("Stretch out with your feelings.");
            },
            ForcePower::Pull => {
                let ship = self.ship;
                let ghost before = *self;
                let mut i: usize = 0;
                while i < self.powerups.len()
                    invariant
                        *self == (Game { powerups: self.powerups, ..before }),
                        before.powerups@.len() == old(self).powerups@.len(),
                        forall|j: int| 0 <= j < before.powerups@.len() ==> #[trigger] before.powerups@[j] == old(self).powerups@[j],
                        i <= self.powerups@.len(),
                        self.powerups@.len() == old(self).powerups@.len(),
                        ship == old(self).ship,
                        forall|j: int| 0 <= j < i ==> #[trigger] self.powerups@[j].pos == ship,
                        forall|j: int| 0 <= j < self.powerups@.len() ==> #[trigger] self.powerups@[j].kind == old(self).powerups@[j].kind,
                        forall|j: int| i <= j < self.powerups@.len() ==> #[trigger] self.powerups@[j] == old(self).powerups@[j],
                    decreases self.powerups@.len() - i,
                {
                    let mut p = self.powerups[i];
                    p.pos = ship;
                    self.powerups.set(i, p);
                    i = i + 1;
                }
                self.say("Pulling them in.");
            },
            ForcePower::Guided => {
                self.guided = true;
                self.say("Targeting computer off. Trusting the Force.");
            },
        }
        true
    }
}

} // verus!
