//! Where a player shot lands: the boss and its parts, the capital ship and
//! its emplacements, hulks, wall turrets, walkers, the formation, rocks and
//! mines, and what a kill pays out and drops.

use vstd::prelude::*;

use super::consts::{CABLE_WRAPS, ARC_REACH, ION_STUN, W};
use super::entities::{Asteroid, Enemy, Mine, Powerup, Shot, Walker};
use super::boss::Boss;
use super::capital::{Capital, CapitalPart};
use super::game::Game;
use super::kinds::{BossKind, Emplacement, EnemyKind, EnemyState, PowerKind, ShotKind, Weapon};
use crate::arith::{add16, clamp16, dist16, quot32, sig_diff, sub32};

verus! {

/// The frame every hit keeps: the status, the hull's position and the tick.
pub open spec fn hit_frame(old: Game, new: Game) -> bool {
    &&& new.wf()
    &&& new.status == old.status
    &&& new.ship == old.ship
    &&& new.tick == old.tick
    &&& new.shots == old.shots
    &&& (new.boss is Some <==> old.boss is Some)
    &&& (new.capital is Some <==> old.capital is Some)
}

/// The drop for a roll of `roll` out of sixteen, with `pick` choosing the
/// gun: six in sixteen a gun, two armour, two rapid fire, then a medal,
/// missiles, a drone, two bombs and a spare life.
pub open spec fn drop_of(roll: int, pick: int) -> PowerKind {
    if roll <= 5 {
        PowerKind::Gun(Weapon::ALL[pick])
    } else if roll <= 7 {
        PowerKind::Shield
    } else if roll <= 9 {
        PowerKind::Rapid
    } else if roll == 10 {
        PowerKind::Medal
    } else if roll == 11 {
        PowerKind::Missiles
    } else if roll == 12 {
        PowerKind::Drone
    } else if roll <= 14 {
        PowerKind::Bomb
    } else {
        PowerKind::Life
    }
}

/// How far a hull at `p` is from `q`, along both axes together.
pub open spec fn reach_of(p: (i16, i16), q: (i16, i16)) -> int {
    crate::arith::abs_int(p.0 - q.0) + crate::arith::abs_int(p.1 - q.1)
}

/// Contact `i` is the nearest to `q` of the first `n`, the first of equals.
pub open spec fn first_nearest(es: Seq<Enemy>, q: (i16, i16), i: int, n: int) -> bool {
    &&& 0 <= i < n
    &&& forall|j: int| 0 <= j < n ==> reach_of(es[i].pos, q) <= reach_of(#[trigger] es[j].pos, q)
    &&& forall|j: int| 0 <= j < i ==> reach_of(#[trigger] es[j].pos, q) > reach_of(es[i].pos, q)
}

/// An arc can jump from `from` to a hull at `p`: another cell, within reach.
pub open spec fn arc_target(p: (i16, i16), from: (i16, i16)) -> bool {
    p != from && reach_of(p, from) <= ARC_REACH
}

/// A cell lies under a shot's blast: within its splash of the row, and
/// within its splash or width (the wider) of the column.
pub open spec fn under_blast(p: (i16, i16), shot: Shot) -> bool {
    let cols: int = if shot.half_width >= shot.splash { shot.half_width as int } else { shot.splash as int };
    crate::arith::abs_int(p.0 - shot.pos.0) <= shot.splash && crate::arith::abs_int(p.1 - shot.pos.1) <= cols
}

/// The first `n` contacts after a shot sweeps them: those under the blast
/// lose its damage and those it drops are killed; gives the survivors in
/// order, the kills (kind and cell) in order, and whether any was struck.
pub open spec fn swept(es: Seq<Enemy>, shot: Shot, n: int) -> (Seq<Enemy>, Seq<(EnemyKind, (i16, i16))>, bool)
    decreases n,
{
    if n <= 0 {
        (Seq::empty(), Seq::empty(), false)
    } else {
        let (kept, kills, hit) = swept(es, shot, n - 1);
        let e = es[n - 1];
        if under_blast(e.pos, shot) {
            let hp = crate::arith::clamp_int(e.hp - shot.damage, i32::MIN as int, i32::MAX as int);
            if hp <= 0 {
                (kept, kills.push((e.kind, e.pos)), true)
            } else {
                (kept.push(Enemy { hp: hp as i32, ..e }), kills, true)
            }
        } else {
            (kept.push(e), kills, hit)
        }
    }
}

/// A live emplacement of `cap` lies in a shot's blast: within its splash of
/// the row, and one column more than its width or splash (the wider) of the
/// column.
pub open spec fn part_in_blast(cap: Capital, p: CapitalPart, shot: Shot) -> bool {
    let wide: int = if shot.half_width >= shot.splash { shot.half_width as int } else { shot.splash as int };
    let row = crate::arith::clamp_int(cap.pos.0 + p.offset.0, i16::MIN as int, i16::MAX as int);
    let col = crate::arith::clamp_int(cap.pos.1 + p.offset.1, i16::MIN as int, i16::MAX as int);
    p.hp > 0 && crate::arith::abs_int(shot.pos.0 - row) <= shot.splash && crate::arith::abs_int(shot.pos.1 - col) <= 1 + wide
}

/// A shot lands on one of the boss's parts: on a part's row, within a
/// column more than its width.
pub open spec fn hits_boss_part(b: Boss, shot: Shot) -> bool {
    exists|i: int| 0 <= i < b.parts@.len() && (#[trigger] b.spec_cell(i)).0 == shot.pos.0
        && crate::arith::abs_int(shot.pos.1 - b.spec_cell(i).1) <= 1 + shot.half_width
}

/// A shot lands on the boss's core hull: between its anchor row and the
/// bottom of its core, and within the core's half-width and the shot's.
pub open spec fn hits_boss_core(b: Boss, shot: Shot) -> bool {
    b.pos.0 <= shot.pos.0 <= b.pos.0 + b.kind.spec_core_depth()
        && crate::arith::abs_int(shot.pos.1 - b.pos.1) <= b.kind.spec_core_half() + shot.half_width
}

/// A rock or mine at `p` is in a shot's line: on its row, within its width
/// of its column.
pub open spec fn in_line(p: (i16, i16), shot: Shot) -> bool {
    p.0 == shot.pos.0 && crate::arith::abs_int(p.1 - shot.pos.1) <= shot.half_width
}

/// The targets a hit on one kind of thing leaves alone: the contacts,
/// rocks, mines and walkers always, and whichever of the boss, the capital
/// ship, the hulks and the wall turrets are flagged.
pub open spec fn targets_kept(a: Game, b: Game, boss: bool, capital: bool, debris: bool, turrets: bool) -> bool {
    &&& boss ==> b.boss == a.boss
    &&& capital ==> b.capital == a.capital
    &&& debris ==> b.debris == a.debris
    &&& turrets ==> b.turrets == a.turrets
    &&& b.enemies == a.enemies
    &&& b.asteroids == a.asteroids
    &&& b.mines == a.mines
    &&& b.walkers == a.walkers
}

/// Whether a shot connects with the boss `b`, if one is up.
pub open spec fn boss_hit(b: Option<Boss>, shot: Shot) -> bool {
    match b {
        Some(b) => hits_boss_part(b, shot) || (!(b.kind == BossKind::Twin && exists|j: int| 0 <= j < b.parts@.len()
            && (#[trigger] b.parts@[j]).hp > 0) && hits_boss_core(b, shot)),
        None => false,
    }
}

/// Whether a shot connects with the capital ship `c`, if one is up.
pub open spec fn capital_hit(c: Option<Capital>, shot: Shot) -> bool {
    match c {
        Some(c) => (exists|i: int| 0 <= i < c.parts@.len() && part_in_blast(c, #[trigger] c.parts@[i], shot))
            || c.spec_covers(shot.pos.0, shot.pos.1),
        None => false,
    }
}

impl Game {
    /// What a kill drops: guns most often, then armour, rapid fire, a medal,
    /// missiles, a drone, a bomb and, rarely, a spare life.
    pub fn roll_power(&mut self) -> (r: PowerKind)
        ensures
            *final(self) == (Game { rng: final(self).rng, ..*old(self) }),
            r == drop_of(
                ((crate::arith::lcg_next(old(self).rng) >> 33) % 16) as int,
                ((crate::arith::lcg_next(crate::arith::lcg_next(old(self).rng)) >> 33) % 13) as int,
            ),
    {
        let roll = self.rand() % 16;
        if roll <= 5 {
            let all = Weapon::ALL;
            let i = (self.rand() % 13) as usize;
            PowerKind::Gun(all[i])
        } else if roll <= 7 {
            PowerKind::Shield
        } else if roll <= 9 {
            PowerKind::Rapid
        } else if roll == 10 {
            PowerKind::Medal
        } else if roll == 11 {
            PowerKind::Missiles
        } else if roll == 12 {
            PowerKind::Drone
        } else if roll <= 14 {
            PowerKind::Bomb
        } else {
            PowerKind::Life
        }
    }

    /// Chew on the hulk at a cell, if there is one; hulks stop shots dead, and
    /// one that breaks pays out.
    pub fn hit_debris(&mut self, pos: (i16, i16), damage: i32) -> (r: bool)
        requires
            old(self).wf(),
        ensures
            hit_frame(*old(self), *final(self)),
            r == exists|i: int| 0 <= i < old(self).debris@.len() && (#[trigger] old(self).debris@[i]).pos == pos,
            !r ==> *final(self) == *old(self),
            final(self).debris@.len() <= old(self).debris@.len(),
            final(self).enemy_shots == old(self).enemy_shots,
            targets_kept(*old(self), *final(self), true, true, false, true),
    {
        let mut i: usize = 0;
        while i < self.debris.len()
            invariant
                i <= self.debris@.len(),
                *self == *old(self),
                old(self).wf(),
                forall|j: int| 0 <= j < i ==> (#[trigger] self.debris@[j]).pos != pos,
            decreases self.debris@.len() - i,
        {
            if self.debris[i].pos.0 == pos.0 && self.debris[i].pos.1 == pos.1 {
                let mut d = self.debris[i];
                d.hp = sub32(d.hp, damage);
                if d.hp <= 0 {
                    self.debris.remove(i);
                    self.award(30);
                } else {
                    self.debris.set(i, d);
                }
                return true;
            }
            i = i + 1;
        }
        false
    }

    /// Chew on the wall turret at a cell, if there is one.
    pub fn hit_turret(&mut self, pos: (i16, i16), damage: i32) -> (r: bool)
        requires
            old(self).wf(),
        ensures
            hit_frame(*old(self), *final(self)),
            r == exists|i: int| 0 <= i < old(self).turrets@.len() && (#[trigger] old(self).turrets@[i]).pos == pos,
            !r ==> *final(self) == *old(self),
            targets_kept(*old(self), *final(self), true, true, true, false),
    {
        let mut i: usize = 0;
        while i < self.turrets.len()
            invariant
                i <= self.turrets@.len(),
                *self == *old(self),
                old(self).wf(),
                forall|j: int| 0 <= j < i ==> (#[trigger] self.turrets@[j]).pos != pos,
            decreases self.turrets@.len() - i,
        {
            if self.turrets[i].pos.0 == pos.0 && self.turrets[i].pos.1 == pos.1 {
                let mut t = self.turrets[i];
                t.hp = sub32(t.hp, damage);
                if t.hp <= 0 {
                    self.turrets.remove(i);
                    self.award(60);
                } else {
                    self.turrets.set(i, t);
                }
                return true;
            }
            i = i + 1;
        }
        false
    }

    /// Put a turn of cable round the legs of the first standing walker near
    /// `pos`; two turns and it goes over.
    pub fn snag_walker(&mut self, pos: (i16, i16)) -> (r: bool)
        requires
            old(self).wf(),
        ensures
            hit_frame(*old(self), *final(self)),
            r == exists|i: int| 0 <= i < old(self).walkers@.len() && {
                let w = #[trigger] old(self).walkers@[i];
                !w.down && crate::arith::abs_int(w.pos.0 - pos.0) <= 1
                    && crate::arith::abs_int(w.pos.1 - pos.1) <= Walker::SPAN
            },
            !r ==> *final(self) == *old(self),
            final(self).walkers@.len() == old(self).walkers@.len(),
    {
        let mut i: usize = 0;
        while i < self.walkers.len()
            invariant
                i <= self.walkers@.len(),
                *self == *old(self),
                old(self).wf(),
                forall|j: int| 0 <= j < i ==> {
                    let w = #[trigger] self.walkers@[j];
                    !(!w.down && crate::arith::abs_int(w.pos.0 - pos.0) <= 1
                        && crate::arith::abs_int(w.pos.1 - pos.1) <= Walker::SPAN)
                },
            decreases self.walkers@.len() - i,
        {
            let w = self.walkers[i];
            if !w.down && dist16(w.pos.0, pos.0) <= 1 && dist16(w.pos.1, pos.1) <= Walker::SPAN as i32 {
                let mut w = w;
                w.wraps = w.wraps.saturating_add(1);
                let down = w.wraps >= CABLE_WRAPS;
                if down {
                    w.down = true;
                }
                self.walkers.set(i, w);
                if down {
                    self.award(600);
                    self.say("That got him! One down.");
                } else {
                    self.say("Cable engaged — go around again.");
                }
                return true;
            }
            i = i + 1;
        }
        false
    }

    /// The column a homing shot should slide toward: the nearest enemy (the
    /// first of equals), or the boss when the formation is gone.
    pub fn steer(&self, shot: &Shot) -> (r: i16)
        ensures
            -1 <= r <= 1,
            self.enemies@.len() == 0 ==> r == (match self.boss {
                Some(b) => crate::arith::sign(b.pos.1 - shot.pos.1),
                None => 0,
            }),
            self.enemies@.len() > 0 ==> exists|i: int| #[trigger] first_nearest(self.enemies@, shot.pos, i, self.enemies@.len() as int)
                && r == crate::arith::sign(self.enemies@[i].pos.1 - shot.pos.1),
    {
        let mut best: Option<(i32, i16)> = None;
        let ghost mut bi: int = 0;
        let mut i: usize = 0;
        while i < self.enemies.len()
            invariant
                i <= self.enemies@.len(),
                best matches Some(b) ==> -1 <= b.1 <= 1,
                best is None <==> i == 0,
                best matches Some(b) ==> first_nearest(self.enemies@, shot.pos, bi, i as int)
                    && b.0 == reach_of(self.enemies@[bi].pos, shot.pos)
                    && b.1 == crate::arith::sign(self.enemies@[bi].pos.1 - shot.pos.1),
            decreases self.enemies@.len() - i,
        {
            let e = self.enemies[i];
            let d = dist16(e.pos.0, shot.pos.0) + dist16(e.pos.1, shot.pos.1);
            let better = match best {
                None => true,
                Some((bd, _)) => d < bd,
            };
            if better {
                best = Some((d, sig_diff(e.pos.1, shot.pos.1)));
                proof {
                    bi = i as int;
                }
            }
            i = i + 1;
        }
        proof {
            if best is Some {
                assert(first_nearest(self.enemies@, shot.pos, bi, self.enemies@.len() as int));
            }
        }
        match best {
            Some((_, drift)) => drift,
            None => match &self.boss {
                Some(boss) => sig_diff(boss.pos.1, shot.pos.1),
                None => 0,
            },
        }
    }

    /// The nearest hull to a cell within an arc's reach (the first of equals),
    /// for an arc bolt looking for its next jump.
    pub fn nearest_enemy(&self, from: (i16, i16)) -> (r: Option<(i16, i16)>)
        ensures
            r matches Some(p) ==> p != from && crate::arith::abs_int(p.0 - from.0) + crate::arith::abs_int(p.1 - from.1) <= ARC_REACH,
            r matches Some(p) ==> exists|i: int| 0 <= i < self.enemies@.len() && (#[trigger] self.enemies@[i]).pos == p,
            r matches Some(p) ==> forall|k: int| 0 <= k < self.enemies@.len() && arc_target(#[trigger] self.enemies@[k].pos, from)
                ==> reach_of(p, from) <= reach_of(self.enemies@[k].pos, from),
            r is None ==> forall|k: int| 0 <= k < self.enemies@.len() ==> !arc_target(#[trigger] self.enemies@[k].pos, from),
    {
        let mut best: Option<((i16, i16), i32)> = None;
        let mut i: usize = 0;
        while i < self.enemies.len()
            invariant
                i <= self.enemies@.len(),
                best matches Some(b) ==> b.0 != from
                    && b.1 == crate::arith::abs_int(b.0.0 - from.0) + crate::arith::abs_int(b.0.1 - from.1)
                    && b.1 <= ARC_REACH
                    && exists|k: int| 0 <= k < self.enemies@.len() && (#[trigger] self.enemies@[k]).pos == b.0,
                best matches Some(b) ==> forall|k: int| 0 <= k < i && arc_target(#[trigger] self.enemies@[k].pos, from)
                    ==> b.1 <= reach_of(self.enemies@[k].pos, from),
                best is None ==> forall|k: int| 0 <= k < i ==> !arc_target(#[trigger] self.enemies@[k].pos, from),
            decreases self.enemies@.len() - i,
        {
            let p = self.enemies[i].pos;
            let d = dist16(p.0, from.0) + dist16(p.1, from.1);
            if !(p.0 == from.0 && p.1 == from.1) && d <= ARC_REACH as i32 {
                let better = match best {
                    None => true,
                    Some((_, bd)) => d < bd,
                };
                if better {
                    best = Some((p, d));
                }
            }
            i = i + 1;
        }
        match best {
            Some((p, _)) => Some(p),
            None => None,
        }
    }

    /// Damage the boss under a shot: its parts shield it, and the twin's core
    /// cannot be touched at all until both turrets are gone. Every part that
    /// breaks pays out.
    pub fn hit_boss(&mut self, shot: &Shot) -> (r: bool)
        requires
            old(self).wf(),
        ensures
            hit_frame(*old(self), *final(self)),
            old(self).boss is None ==> !r && *final(self) == *old(self),
            final(self).boss is Some <==> old(self).boss is Some,
            r == boss_hit(old(self).boss, *shot),
            targets_kept(*old(self), *final(self), false, true, true, true),
    {
        let ghost b0 = self.boss->0;
        let mut boss = match self.boss.take() {
            Some(b) => b,
            None => {
                return false;
            },
        };
        let (r, c) = shot.pos;
        let cells = boss.part_cells();
        let mut struck = false;
        let reach: i32 = 1 + shot.half_width as i32;
        let mut i: usize = 0;
        while i < cells.len()
            invariant_except_break
                boss == b0,
                !struck,
            invariant
                i <= cells@.len(),
                cells@.len() == boss.parts@.len(),
                boss.parts@.len() == b0.parts@.len(),
                (r, c) == shot.pos,
                reach == 1 + shot.half_width,
                forall|k: int| 0 <= k < cells@.len() ==> #[trigger] cells@[k] == b0.spec_cell(k),
                forall|k: int| 0 <= k < i ==> !((#[trigger] b0.spec_cell(k)).0 == shot.pos.0
                    && crate::arith::abs_int(shot.pos.1 - b0.spec_cell(k).1) <= 1 + shot.half_width),
            ensures
                struck ==> hits_boss_part(b0, *shot) && boss == (Boss { parts: boss.parts, ..b0 }),
                !struck ==> !hits_boss_part(b0, *shot) && boss == b0,
            decreases cells@.len() - i,
        {
            let (pr, pc) = cells[i];
            if r == pr && dist16(c, pc) <= reach {
                assert(b0.spec_cell(i as int) == cells@[i as int]);
                assert(hits_boss_part(b0, *shot));
                let mut part = boss.parts[i];
                part.hp = sub32(part.hp, shot.damage);
                boss.parts.set(i, part);
                struck = true;
                break;
            }
            i = i + 1;
        }
        let before = boss.parts.len();
        let mut standing: Vec<super::boss::BossPart> = Vec::new();
        let ghost b1 = boss;
        let mut k: usize = 0;
        while k < boss.parts.len()
            invariant
                k <= boss.parts@.len(),
                standing@.len() <= k,
                boss == b1,
                standing@.len() > 0 <==> exists|j: int| 0 <= j < k && (#[trigger] boss.parts@[j]).hp > 0,
            decreases boss.parts@.len() - k,
        {
            if boss.parts[k].hp > 0 {
                standing.push(boss.parts[k]);
            }
            k = k + 1;
        }
        boss.parts = standing;
        let downed = before - boss.parts.len();
        let armoured = boss.armoured();
        let top = boss.pos.0 as i32;
        let bottom = boss.pos.0 as i32 + boss.kind.core_depth() as i32;
        let half = boss.kind.core_half() as i32 + shot.half_width as i32;
        if !struck && !armoured && top <= r as i32 && r as i32 <= bottom && dist16(c, boss.pos.1) <= half {
            boss.hp = sub32(boss.hp, shot.damage);
            struck = true;
        }
        self.boss = Some(boss);
        let mut n: usize = 0;
        while n < downed
            invariant
                n <= downed,
                hit_frame(*old(self), *self),
                self.boss is Some,
                targets_kept(*old(self), *self, false, true, true, true),
            decreases downed - n,
        {
            self.award(150);
            n = n + 1;
        }
        struck
    }

    /// Put a shot into a capital ship. Emplacements take it first; the hull is
    /// untouchable while a dome is up, an ion round scrambles rather than
    /// breaks, and a hit on an open exhaust port takes the whole ship with it.
    pub fn hit_capital(&mut self, shot: &Shot) -> (r: bool)
        requires
            old(self).wf(),
        ensures
            hit_frame(*old(self), *final(self)),
            old(self).capital is None ==> !r && *final(self) == *old(self),
            final(self).capital is Some <==> old(self).capital is Some,
            r == capital_hit(old(self).capital, *shot),
            targets_kept(*old(self), *final(self), true, false, true, true),
    {
        let ghost c0 = self.capital->0;
        let mut cap = match self.capital.take() {
            Some(c) => c,
            None => {
                return false;
            },
        };
        let (r, c) = shot.pos;
        let mut struck = false;
        let mut spoils: Vec<Emplacement> = Vec::new();
        let mut scuttled = false;
        let mut shaken = false;
        let shielded = cap.shielded();
        let wide: i32 = if shot.half_width >= shot.splash { shot.half_width as i32 } else { shot.splash as i32 };
        let reach: i32 = 1 + wide;
        let n = cap.parts.len();
        let mut i: usize = 0;
        while i < n
            invariant
                i <= n,
                n == cap.parts@.len(),
                cap == (Capital { parts: cap.parts, ..c0 }),
                n == c0.parts@.len(),
                (r, c) == shot.pos,
                reach == 1 + (if shot.half_width >= shot.splash { shot.half_width as int } else { shot.splash as int }),
                forall|j: int| i <= j < n ==> #[trigger] cap.parts@[j] == c0.parts@[j],
                struck == exists|j: int| 0 <= j < i && part_in_blast(c0, #[trigger] c0.parts@[j], *shot),
            decreases n - i,
        {
            let mut part = cap.parts[i];
            assert(part == c0.parts@[i as int]);
            if part.hp > 0 {
                let row = add16(cap.pos.0, part.offset.0);
                let col = add16(cap.pos.1, part.offset.1);
                if !(dist16(r, row) > shot.splash as i32 || dist16(c, col) > reach) {
                    struck = true;
                    if shot.ion {
                        // An ion bolt scrambles rather than breaks: a dome that
                        // is out is a hull that can be hit.
                        if part.ion < ION_STUN {
                            part.ion = ION_STUN;
                        }
                    } else if part.kind == Emplacement::ExhaustPort && shielded {
                        // The shaft is inside the envelope: the blast shakes
                        // the ship but the port is untouched while domes hold.
                        shaken = true;
                    } else {
                        part.hp = sub32(part.hp, shot.damage);
                        if part.hp <= 0 {
                            spoils.push(part.kind);
                            if part.kind == Emplacement::ExhaustPort {
                                scuttled = true;
                            }
                        }
                    }
                    cap.parts.set(i, part);
                }
            }
            proof {
                if part_in_blast(c0, c0.parts@[i as int], *shot) {
                    assert(struck);
                }
                assert(struck == exists|j: int| 0 <= j < i + 1 && part_in_blast(c0, #[trigger] c0.parts@[j], *shot));
            }
            i = i + 1;
        }
        if !struck && cap.covers(r, c) {
            struck = true;
            if !shielded && !shot.ion {
                cap.hp = sub32(cap.hp, shot.damage);
            }
        }
        let scuttled_now = scuttled;
        if scuttled {
            // Straight down the shaft: the whole ship goes up.
            cap.hp = 0;
        } else if shaken {
            // The shields held the blast in, but it was felt.
            cap.hp = sub32(cap.hp, quot32(cap.max_hp, 8));
        }
        self.capital = Some(cap);
        if scuttled_now {
            self.say("Great shot, kid! That was one in a million.");
        }
        let mut k: usize = 0;
        while k < spoils.len()
            invariant
                k <= spoils@.len(),
                hit_frame(*old(self), *self),
                self.capital is Some,
                targets_kept(*old(self), *self, true, false, true, true),
            decreases spoils@.len() - k,
        {
            self.award(spoils[k].score());
            k = k + 1;
        }
        struck
    }

    /// Damage every enemy, rock and mine under a shot's footprint, and pay out
    /// (and maybe drop a pickup) for whatever it kills; a splitter breaks
    /// into two divers. Returns the enemies killed.
    fn sweep_formation(&mut self, shot: &Shot) -> (r: (bool, Vec<(EnemyKind, (i16, i16))>))
        requires
            old(self).wf(),
        ensures
            hit_frame(*old(self), *final(self)),
            final(self).boss is Some <==> old(self).boss is Some,
            final(self).capital is Some <==> old(self).capital is Some,
            *final(self) == (Game { enemies: final(self).enemies, ..*old(self) }),
            (final(self).enemies@, r.1@, r.0) == swept(old(self).enemies@, *shot, old(self).enemies@.len() as int),
    {
        let (r, c) = shot.pos;
        let reach_rows: i32 = shot.splash as i32;
        let reach_cols: i32 = if shot.half_width >= shot.splash { shot.half_width as i32 } else { shot.splash as i32 };
        let mut hit = false;
        let mut kills: Vec<(EnemyKind, (i16, i16))> = Vec::new();
        let mut kept: Vec<Enemy> = Vec::new();
        let mut i: usize = 0;
        while i < self.enemies.len()
            invariant
                i <= self.enemies@.len(),
                *self == *old(self),
                (r, c) == shot.pos,
                reach_rows == shot.splash as i32,
                reach_cols == (if shot.half_width >= shot.splash { shot.half_width as i32 } else { shot.splash as i32 }),
                (kept@, kills@, hit) == swept(self.enemies@, *shot, i as int),
            decreases self.enemies@.len() - i,
        {
            let mut e = self.enemies[i];
            let mut dead = false;
            if dist16(e.pos.0, r) <= reach_rows && dist16(e.pos.1, c) <= reach_cols {
                e.hp = sub32(e.hp, shot.damage);
                hit = true;
                if e.hp <= 0 {
                    kills.push((e.kind, e.pos));
                    dead = true;
                }
            }
            if !dead {
                kept.push(e);
            }
            i = i + 1;
        }
        assert(swept(old(self).enemies@, *shot, i as int) == (kept@, kills@, hit));
        self.enemies = kept;
        (hit, kills)
    }

    /// Rocks and mines are targets too: a rock that breaks pays out, and a
    /// mine that is shot goes off.
    fn sweep_rocks(&mut self, shot: &Shot) -> (r: bool)
        requires
            old(self).wf(),
        ensures
            hit_frame(*old(self), *final(self)),
            final(self).boss is Some <==> old(self).boss is Some,
            final(self).capital is Some <==> old(self).capital is Some,
            r == ((exists|i: int| 0 <= i < old(self).asteroids@.len() && in_line((#[trigger] old(self).asteroids@[i]).pos, *shot))
                || (exists|i: int| 0 <= i < old(self).mines@.len() && in_line((#[trigger] old(self).mines@[i]).pos, *shot))),
            forall|k: int| 0 <= k < final(self).mines@.len() ==> !in_line((#[trigger] final(self).mines@[k]).pos, *shot),
            final(self).asteroids@.len() <= old(self).asteroids@.len(),
    {
        let (r, c) = shot.pos;
        let reach: i32 = shot.half_width as i32;
        let mut hit = false;
        let mut rocks: Vec<Asteroid> = Vec::new();
        let mut field: Vec<Asteroid> = Vec::new();
        std::mem::swap(&mut field, &mut self.asteroids);
        let mut i: usize = 0;
        while i < field.len()
            invariant
                i <= field@.len(),
                hit_frame(*old(self), *self),
                self.boss is Some <==> old(self).boss is Some,
                self.capital is Some <==> old(self).capital is Some,
                field@ == old(self).asteroids@,
                self.mines == old(self).mines,
                (r, c) == shot.pos,
                reach == shot.half_width as i32,
                rocks@.len() <= i,
                hit == exists|j: int| 0 <= j < i && in_line((#[trigger] field@[j]).pos, *shot),
            decreases field@.len() - i,
        {
            let mut a = field[i];
            let mut broken = false;
            if a.pos.0 == r && dist16(a.pos.1, c) <= reach {
                a.hp = sub32(a.hp, shot.damage);
                hit = true;
                if a.hp <= 0 {
                    self.award(20);
                    broken = true;
                }
            }
            if !broken {
                rocks.push(a);
            }
            proof {
                assert(hit == exists|j: int| 0 <= j < i + 1 && in_line((#[trigger] field@[j]).pos, *shot));
            }
            i = i + 1;
        }
        self.asteroids = rocks;
        let mut blasts: Vec<(i16, i16)> = Vec::new();
        let mut mines: Vec<Mine> = Vec::new();
        let mut k: usize = 0;
        while k < self.mines.len()
            invariant
                k <= self.mines@.len(),
                self.mines == old(self).mines,
                (r, c) == shot.pos,
                reach == shot.half_width as i32,
                hit == ((exists|j: int| 0 <= j < old(self).asteroids@.len() && in_line((#[trigger] old(self).asteroids@[j]).pos, *shot))
                    || (exists|j: int| 0 <= j < k && in_line((#[trigger] self.mines@[j]).pos, *shot))),
                forall|j: int| 0 <= j < mines@.len() ==> !in_line((#[trigger] mines@[j]).pos, *shot),
            decreases self.mines@.len() - k,
        {
            let m = self.mines[k];
            if m.pos.0 == r && dist16(m.pos.1, c) <= reach {
                blasts.push(m.pos);
                hit = true;
            } else {
                mines.push(m);
            }
            proof {
                assert(hit == ((exists|j: int| 0 <= j < old(self).asteroids@.len() && in_line((#[trigger] old(self).asteroids@[j]).pos, *shot))
                    || (exists|j: int| 0 <= j < k + 1 && in_line((#[trigger] self.mines@[j]).pos, *shot))));
            }
            k = k + 1;
        }
        self.mines = mines;
        let ghost left = self.mines;
        let ghost rocks_left = self.asteroids;
        let mut b: usize = 0;
        while b < blasts.len()
            invariant
                b <= blasts@.len(),
                self.mines == left,
                self.asteroids == rocks_left,
                hit_frame(*old(self), *self),
                self.boss is Some <==> old(self).boss is Some,
                self.capital is Some <==> old(self).capital is Some,
            decreases blasts@.len() - b,
        {
            self.award(15);
            self.detonate(blasts[b]);
            b = b + 1;
        }
        hit
    }

    /// Damage everything under a shot's footprint; returns whether it
    /// connected. A cable does nothing to anything but legs.
    pub fn hit_targets(&mut self, shot: &Shot) -> (r: bool)
        requires
            old(self).wf(),
        ensures
            hit_frame(*old(self), *final(self)),
            final(self).boss is Some <==> old(self).boss is Some,
            final(self).capital is Some <==> old(self).capital is Some,
            shot.kind == ShotKind::Cable ==> r == exists|i: int| 0 <= i < old(self).walkers@.len() && {
                let w = #[trigger] old(self).walkers@[i];
                !w.down && crate::arith::abs_int(w.pos.0 - shot.pos.0) <= 1 && crate::arith::abs_int(w.pos.1 - shot.pos.1) <= Walker::SPAN
            },
            shot.kind != ShotKind::Cable ==> r == (boss_hit(old(self).boss, *shot) || capital_hit(old(self).capital, *shot)
                || (exists|i: int| 0 <= i < old(self).debris@.len() && (#[trigger] old(self).debris@[i]).pos == shot.pos)
                || (exists|i: int| 0 <= i < old(self).turrets@.len() && (#[trigger] old(self).turrets@[i]).pos == shot.pos)
                || swept(old(self).enemies@, *shot, old(self).enemies@.len() as int).2
                || (exists|i: int| 0 <= i < old(self).asteroids@.len() && in_line((#[trigger] old(self).asteroids@[i]).pos, *shot))
                || (exists|i: int| 0 <= i < old(self).mines@.len() && in_line((#[trigger] old(self).mines@[i]).pos, *shot))),
    {
        let (r, c) = shot.pos;
        if shot.kind == ShotKind::Cable {
            return self.snag_walker((r, c));
        }
        let ghost g0 = *self;
        let mut hit = self.hit_boss(shot);
        assert(hit == boss_hit(g0.boss, *shot));
        let ghost g1 = *self;
        if self.hit_capital(shot) {
            hit = true;
        }
        assert(g1.capital == g0.capital);
        let ghost g2 = *self;
        if self.hit_debris((r, c), shot.damage) {
            hit = true;
        }
        assert(g2.debris == g0.debris);
        let ghost g3 = *self;
        if self.hit_turret((r, c), shot.damage) {
            hit = true;
        }
        assert(g3.turrets == g0.turrets);
        assert(self.enemies == g0.enemies);
        let (struck, kills) = self.sweep_formation(shot);
        if struck {
            hit = true;
        }
        assert(self.asteroids == g0.asteroids && self.mines == g0.mines);
        if self.sweep_rocks(shot) {
            hit = true;
        }
        let ghost answer = hit;
        let mut k: usize = 0;
        while k < kills.len()
            invariant
                k <= kills@.len(),
                hit_frame(*old(self), *self),
                self.boss is Some <==> old(self).boss is Some,
                self.capital is Some <==> old(self).capital is Some,
                hit == answer,
            decreases kills@.len() - k,
        {
            let (kind, pos) = kills[k];
            self.award(kind.score());
            // A splitter breaks into two grunts that dive straight at you.
            if kind == EnemyKind::VultureDroid {
                let target_x = self.ship.1;
                let mut half = self.hatch(EnemyKind::TieFighter, (pos.0, clamp16(add16(pos.1, -2), 1, W - 2)));
                half.state = EnemyState::Diving { target_x };
                self.enemies.push(half);
                let mut half = self.hatch(EnemyKind::TieFighter, (pos.0, clamp16(add16(pos.1, 2), 1, W - 2)));
                half.state = EnemyState::Diving { target_x };
                self.enemies.push(half);
            }
            if self.rand() % self.difficulty.drop_chance() == 0 {
                let kind = self.roll_power();
                self.powerups.push(Powerup { pos, kind });
            }
            k = k + 1;
        }
        hit
    }
}

} // verus!
