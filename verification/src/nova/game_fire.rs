//! Flying and shooting: moving the hull, the guns and what each one puts in
//! the air, the hull special, the smart bomb and the missile launcher.

use vstd::prelude::*;

use super::consts::{MAX_WEAPON_LEVEL, BARRAGE_STEP, BLINK_DISTANCE, BLINK_IFRAMES, BULWARK_TICKS, DRONE_OFFSET, FLAK_FUSE, MAX_SHOTS, SHIP_ROW, SHIP_TOP, W};
use super::entities::Shot;
use super::game::Game;
use super::kinds::{ShotKind, Special, Status, Weapon};
use crate::arith::{add16, add32, clamp_int, mul16, mul32, sig16};

verus! {

/// How many shots the gun puts in the air per trigger pull at `level`.
pub open spec fn gun_volley(weapon: Weapon, level: u32) -> nat {
    match weapon {
        Weapon::LaserCannon | Weapon::HeavyLaser | Weapon::ConcussionMissile | Weapon::RocketPod
        | Weapon::IonCannon | Weapon::RepeatingBlaster | Weapon::Flechette => {
            if level == 1 { 1 } else if level == 2 { 2 } else { 3 }
        },
        Weapon::QuadLaser => if level >= 2 { 5 } else { 3 },
        Weapon::ProtonBomb | Weapon::ArcCaster => 1,
        Weapon::MassDriver => if level >= 3 { 3 } else { 1 },
        Weapon::ProtonTorpedo => if level >= 3 { 3 } else { 2 },
        Weapon::TowCable => 2,
    }
}

/// `x` held to the `i32` range.
pub open spec fn c32(x: int) -> i32 {
    clamp_int(x, i32::MIN as int, i32::MAX as int) as i32
}

/// The muzzle cell `dc` columns off `(r, c)`.
pub open spec fn at(r: i16, c: i16, dc: int) -> (i16, i16) {
    (r, (c + dc) as i16)
}

pub open spec fn bolt_at(pos: (i16, i16), drift: int, d: i32) -> Shot {
    Shot::spec_bolt(pos, drift as i16, d)
}

pub open spec fn beam_at(pos: (i16, i16), d: i32) -> Shot {
    Shot { speed: -3i16, pierce: true, kind: ShotKind::Beam, ..Shot::spec_bolt(pos, 0, d) }
}

pub open spec fn missile_at(pos: (i16, i16), d: i32) -> Shot {
    Shot { speed: -1i16, homing: true, kind: ShotKind::Missile, ..Shot::spec_bolt(pos, 0, d) }
}

pub open spec fn rocket_at(pos: (i16, i16), d: i32) -> Shot {
    Shot { speed: -1i16, splash: 1, kind: ShotKind::Rocket, ..Shot::spec_bolt(pos, 0, d) }
}

pub open spec fn ion_at(pos: (i16, i16), d: i32) -> Shot {
    Shot { speed: -2i16, splash: 1, ion: true, kind: ShotKind::Arc, ..Shot::spec_bolt(pos, 0, d) }
}

pub open spec fn flak_at(pos: (i16, i16), d: i32, fuse: i16) -> Shot {
    Shot { speed: -2i16, fuse, kind: ShotKind::Flak, ..Shot::spec_bolt(pos, 0, d) }
}

pub open spec fn rail_at(pos: (i16, i16), d: i32) -> Shot {
    Shot { speed: -6i16, pierce: true, kind: ShotKind::Rail, ..Shot::spec_bolt(pos, 0, d) }
}

pub open spec fn torpedo_at(pos: (i16, i16), d: i32) -> Shot {
    Shot { speed: -1i16, splash: 1, homing: true, kind: ShotKind::Rocket, ..Shot::spec_bolt(pos, 0, d) }
}

pub open spec fn vulcan_at(pos: (i16, i16), d: i32) -> Shot {
    Shot { speed: -3i16, ..Shot::spec_bolt(pos, 0, d) }
}

/// The rounds one trigger pull of `weapon` at `level` puts in the air from
/// the muzzle at `(r, c)`, hitting for `dmg` before the gun's own bonus, in
/// the order they leave; the repeating blaster's barrel walks with `tick`.
pub open spec fn volley(weapon: Weapon, level: u32, r: i16, c: i16, dmg: i32, tick: u32) -> Seq<Shot> {
    match weapon {
        Weapon::LaserCannon => {
            let d = c32(dmg + 1);
            if level == 1 {
                seq![bolt_at(at(r, c, 0), 0, d)]
            } else if level == 2 {
                seq![bolt_at(at(r, c, -1), 0, d), bolt_at(at(r, c, 1), 0, d)]
            } else {
                seq![bolt_at(at(r, c, -1), 0, d), bolt_at(at(r, c, 0), 0, d), bolt_at(at(r, c, 1), 0, d)]
            }
        },
        Weapon::QuadLaser => {
            if level >= 2 {
                seq![bolt_at((r, c), -2, dmg), bolt_at((r, c), -1, dmg), bolt_at((r, c), 0, dmg), bolt_at((r, c), 1, dmg), bolt_at((r, c), 2, dmg)]
            } else {
                seq![bolt_at((r, c), -1, dmg), bolt_at((r, c), 0, dmg), bolt_at((r, c), 1, dmg)]
            }
        },
        Weapon::HeavyLaser => {
            if level == 1 {
                seq![beam_at(at(r, c, 0), dmg)]
            } else if level == 2 {
                seq![beam_at(at(r, c, -1), dmg), beam_at(at(r, c, 1), dmg)]
            } else {
                seq![beam_at(at(r, c, -1), dmg), beam_at(at(r, c, 0), dmg), beam_at(at(r, c, 1), dmg)]
            }
        },
        Weapon::ConcussionMissile => {
            let d = c32(dmg + 1);
            if level == 1 {
                seq![missile_at(at(r, c, 0), d)]
            } else if level == 2 {
                seq![missile_at(at(r, c, -2), d), missile_at(at(r, c, 2), d)]
            } else {
                seq![missile_at(at(r, c, -2), d), missile_at(at(r, c, 0), d), missile_at(at(r, c, 2), d)]
            }
        },
        Weapon::ProtonBomb => {
            let hw: i16 = if level >= 3 { 2 } else { 1 };
            seq![Shot { speed: -1i16, half_width: hw, kind: ShotKind::Plasma, ..Shot::spec_bolt((r, c), 0, c32(dmg + 2)) }]
        },
        Weapon::RepeatingBlaster => {
            let j: int = if tick % 2 == 0 { 1 } else { -1 };
            let nj: int = 0 - j;
            if level == 1 {
                seq![vulcan_at((r, c), dmg)]
            } else if level == 2 {
                seq![vulcan_at((r, c), dmg), vulcan_at(at(r, c, j), dmg)]
            } else {
                seq![vulcan_at((r, c), dmg), vulcan_at(at(r, c, j), dmg), vulcan_at(at(r, c, nj), dmg)]
            }
        },
        Weapon::RocketPod => {
            let d = c32(dmg + 2);
            if level == 1 {
                seq![rocket_at(at(r, c, 0), d)]
            } else if level == 2 {
                seq![rocket_at(at(r, c, -2), d), rocket_at(at(r, c, 2), d)]
            } else {
                seq![rocket_at(at(r, c, -2), d), rocket_at(at(r, c, 0), d), rocket_at(at(r, c, 2), d)]
            }
        },
        Weapon::Flechette => {
            let d = c32(dmg + 1);
            if level == 1 {
                seq![flak_at((r, c), d, FLAK_FUSE)]
            } else if level == 2 {
                seq![flak_at((r, c), d, FLAK_FUSE), flak_at(at(r, c, -3), d, (FLAK_FUSE + 2) as i16)]
            } else {
                seq![flak_at((r, c), d, FLAK_FUSE), flak_at(at(r, c, -3), d, (FLAK_FUSE + 2) as i16), flak_at(at(r, c, 3), d, (FLAK_FUSE + 2) as i16)]
            }
        },
        Weapon::MassDriver => {
            let slug = rail_at((r, c), c32(c32(dmg * 3) + 2));
            if level >= 3 {
                seq![slug, rail_at(at(r, c, -2), c32(dmg * 2)), rail_at(at(r, c, 2), c32(dmg * 2))]
            } else {
                seq![slug]
            }
        },
        Weapon::ArcCaster => {
            seq![Shot { speed: -2i16, chain: (level + 1) as u32, kind: ShotKind::Arc, ..Shot::spec_bolt((r, c), 0, c32(dmg + 1)) }]
        },
        Weapon::ProtonTorpedo => {
            let d = c32(c32(dmg * 4) + 6);
            if level >= 3 {
                seq![torpedo_at(at(r, c, -3), d), torpedo_at(at(r, c, 0), d), torpedo_at(at(r, c, 3), d)]
            } else {
                seq![torpedo_at(at(r, c, -3), d), torpedo_at(at(r, c, 3), d)]
            }
        },
        Weapon::TowCable => {
            seq![
                Shot { speed: -1i16, pierce: true, kind: ShotKind::Cable, ..Shot::spec_bolt((r, c), -1i16, 1) },
                Shot { speed: -1i16, pierce: true, kind: ShotKind::Cable, ..Shot::spec_bolt((r, c), 1, 1) },
            ]
        },
        Weapon::IonCannon => {
            if level == 1 {
                seq![ion_at(at(r, c, 0), dmg)]
            } else if level == 2 {
                seq![ion_at(at(r, c, -2), dmg), ion_at(at(r, c, 2), dmg)]
            } else {
                seq![ion_at(at(r, c, -2), dmg), ion_at(at(r, c, 0), dmg), ion_at(at(r, c, 2), dmg)]
            }
        },
    }
}

/// Everything one trigger pull in `g` puts in the air: the gun's volley
/// from the muzzle above the hull, hitting for the gun's damage plus its
/// level, then a bolt from each drone unless a surge has stunned them.
pub open spec fn fired_volley(g: Game) -> Seq<Shot> {
    let r = (g.ship.0 - 1) as i16;
    let c = g.ship.1;
    let gun = volley(g.weapon, g.weapon_level, r, c, c32(g.spec_gun_damage() + g.weapon_level - 1), g.tick);
    if g.drone_stun == 0 {
        gun + drone_bolts(g.drones@, r, c, g.spec_gun_damage())
    } else {
        gun
    }
}

/// The proton salvo: a bolt every seven columns from the third, across the
/// court from the row above the hull.
pub open spec fn salvo_wall(g: Game) -> Seq<Shot> {
    Seq::new(11, |k: int| Shot::spec_bolt(((g.ship.0 - 1) as i16, (2 + 7 * k) as i16), 0, c32(g.spec_gun_damage() + 2)))
}

/// The plain bolt each wing drone throws beside the muzzle at `(r, c)`.
pub open spec fn drone_bolts(drones: Seq<i16>, r: i16, c: i16, d: i32) -> Seq<Shot> {
    Seq::new(drones.len(), |i: int| {
        let off = clamp_int(drones[i] * DRONE_OFFSET, i16::MIN as int, i16::MAX as int);
        let col = clamp_int(clamp_int(c + off, i16::MIN as int, i16::MAX as int), 0, W - 1);
        Shot::spec_bolt((if r >= 0 { r } else { 0i16 }, col as i16), 0, d)
    })
}

/// Every shot in `shots` as it leaves the muzzle in `g`'s sector.
pub open spec fn all_launched(g: Game, shots: Seq<Shot>) -> Seq<Shot> {
    shots.map_values(|s: Shot| launched(g, s))
}

/// A player shot as it leaves the muzzle: a row slower in a sector that
/// drags.
pub open spec fn launched(g: Game, shot: Shot) -> Shot {
    if g.sector.spec_drag() {
        Shot { speed: Shot::slowed(shot.speed as int) as i16, ..shot }
    } else {
        shot
    }
}

/// An enemy shot as it takes the court in `g`: slowed as `launched` says,
/// and heavy once the campaign is fifteen waves deep.
pub open spec fn fielded(g: Game, shot: Shot) -> Shot {
    let s = launched(g, shot);
    if g.wave >= 15 { Shot { damage: 2, ..s } } else { s }
}

/// The rounds of one trigger pull, as `volley` gives them.
fn volley_shots(weapon: Weapon, level: u32, r: i16, c: i16, dmg: i32, tick: u32) -> (v: Vec<Shot>)
    requires
        1 <= level <= MAX_WEAPON_LEVEL,
        SHIP_TOP - 1 <= r <= SHIP_ROW,
        1 <= c <= W - 2,
    ensures
        v@ == volley(weapon, level, r, c, dmg, tick),
        v@.len() == gun_volley(weapon, level),
        forall|k: int| 0 <= k < v@.len() ==> (#[trigger] v@[k]).speed > i16::MIN,
{
    let v = match weapon {
            Weapon::LaserCannon => {
                if level == 1 {
                    vec![Shot::bolt((r, c), 0, add32(dmg, 1))]
                } else if level == 2 {
                    vec![Shot::bolt((r, c - 1), 0, add32(dmg, 1)), Shot::bolt((r, c + 1), 0, add32(dmg, 1))]
                } else {
                    vec![Shot::bolt((r, c - 1), 0, add32(dmg, 1)), Shot::bolt((r, c), 0, add32(dmg, 1)), Shot::bolt((r, c + 1), 0, add32(dmg, 1))]
                }
            },
            Weapon::QuadLaser => {
                if level >= 2 {
                    vec![Shot::bolt((r, c), -2, dmg), Shot::bolt((r, c), -1, dmg), Shot::bolt((r, c), 0, dmg), Shot::bolt((r, c), 1, dmg), Shot::bolt((r, c), 2, dmg)]
                } else {
                    vec![Shot::bolt((r, c), -1, dmg), Shot::bolt((r, c), 0, dmg), Shot::bolt((r, c), 1, dmg)]
                }
            },
            Weapon::HeavyLaser => {
                if level == 1 {
                    vec![Shot::beam((r, c), dmg)]
                } else if level == 2 {
                    vec![Shot::beam((r, c - 1), dmg), Shot::beam((r, c + 1), dmg)]
                } else {
                    vec![Shot::beam((r, c - 1), dmg), Shot::beam((r, c), dmg), Shot::beam((r, c + 1), dmg)]
                }
            },
            Weapon::ConcussionMissile => {
                if level == 1 {
                    vec![Shot::missile((r, c), add32(dmg, 1))]
                } else if level == 2 {
                    vec![Shot::missile((r, c - 2), add32(dmg, 1)), Shot::missile((r, c + 2), add32(dmg, 1))]
                } else {
                    vec![Shot::missile((r, c - 2), add32(dmg, 1)), Shot::missile((r, c), add32(dmg, 1)), Shot::missile((r, c + 2), add32(dmg, 1))]
                }
            },
            Weapon::ProtonBomb => {
                let half_width: i16 = if level >= 3 { 2 } else { 1 };
                vec![Shot::plasma((r, c), add32(dmg, 2), half_width)]
            },
            Weapon::RepeatingBlaster => {
                // The barrel walks a column either side as it hoses.
                let jitter: i16 = if tick % 2 == 0 { 1 } else { -1 };
                if level == 1 {
                    vec![Shot::vulcan((r, c), 0, dmg)]
                } else if level == 2 {
                    vec![Shot::vulcan((r, c), 0, dmg), Shot::vulcan((r, c + jitter), 0, dmg)]
                } else {
                        let back = c - jitter;
                    vec![Shot::vulcan((r, c), 0, dmg), Shot::vulcan((r, c + jitter), 0, dmg), Shot::vulcan((r, back), 0, dmg)]
                }
            },
            Weapon::RocketPod => {
                if level == 1 {
                    vec![Shot::rocket((r, c), add32(dmg, 2))]
                } else if level == 2 {
                    vec![Shot::rocket((r, c - 2), add32(dmg, 2)), Shot::rocket((r, c + 2), add32(dmg, 2))]
                } else {
                    vec![Shot::rocket((r, c - 2), add32(dmg, 2)), Shot::rocket((r, c), add32(dmg, 2)), Shot::rocket((r, c + 2), add32(dmg, 2))]
                }
            },
            Weapon::Flechette => {
                let d = add32(dmg, 1);
                if level == 1 {
                    vec![Shot::flak((r, c), d, FLAK_FUSE)]
                } else if level == 2 {
                    vec![Shot::flak((r, c), d, FLAK_FUSE), Shot::flak((r, c - 3), d, FLAK_FUSE + 2)]
                } else {
                    vec![Shot::flak((r, c), d, FLAK_FUSE), Shot::flak((r, c - 3), d, FLAK_FUSE + 2), Shot::flak((r, c + 3), d, FLAK_FUSE + 2)]
                }
            },
            Weapon::MassDriver => {
                let slug = Shot::rail((r, c), add32(mul32(dmg, 3), 2));
                if level >= 3 {
                    vec![slug, Shot::rail((r, c - 2), mul32(dmg, 2)), Shot::rail((r, c + 2), mul32(dmg, 2))]
                } else {
                    vec![slug]
                }
            },
            Weapon::ArcCaster => {
                vec![Shot::arc((r, c), add32(dmg, 1), level + 1)]
            },
            Weapon::ProtonTorpedo => {
                // Two in the tube, three once it is tuned.
                let payload = add32(mul32(dmg, 4), 6);
                if level >= 3 {
                    vec![Shot::torpedo((r, c - 3), payload), Shot::torpedo((r, c), payload), Shot::torpedo((r, c + 3), payload)]
                } else {
                    vec![Shot::torpedo((r, c - 3), payload), Shot::torpedo((r, c + 3), payload)]
                }
            },
            Weapon::TowCable => {
                // The cable sweeps both ways; it is aimed at legs, not hulls.
                vec![Shot::cable((r, c), -1), Shot::cable((r, c), 1)]
            },
            Weapon::IonCannon => {
                if level == 1 {
                    vec![Shot::ion((r, c), dmg)]
                } else if level == 2 {
                    vec![Shot::ion((r, c - 2), dmg), Shot::ion((r, c + 2), dmg)]
                } else {
                    vec![Shot::ion((r, c - 2), dmg), Shot::ion((r, c), dmg), Shot::ion((r, c + 2), dmg)]
                }
            },
        };
    proof {
        assert(v@ =~= volley(weapon, level, r, c, dmg, tick));
    }
    v
}

/// `h` is `g` after a pull of the trigger: when the gun is ready and the
/// court has room, the volley and the drones' bolts are in the air and the
/// cadence starts again; otherwise nothing changes.
pub open spec fn gun_fired(g: Game, h: Game) -> bool {
    &&& (g.status != Status::Playing || g.fire_cooldown > 0 || g.shots@.len() >= MAX_SHOTS)
        ==> h == g
    &&& !(g.status != Status::Playing || g.fire_cooldown > 0 || g.shots@.len() >= MAX_SHOTS) ==> {
        &&& h.fire_cooldown == (if g.rapid > 0 {
            (g.spec_cadence() + 1) / 2
        } else {
            g.spec_cadence() as int
        })
        &&& h.shots@.len() == g.shots@.len() + gun_volley(g.weapon, g.weapon_level)
            + (if g.drone_stun == 0 { g.drones@.len() } else { 0 })
        &&& h.shots@ == g.shots@ + all_launched(g, fired_volley(g))
    }
    &&& h == (Game { shots: h.shots, fire_cooldown: h.fire_cooldown, ..g })
}

/// `h` is `g` after the hull's special is called on: paid for in energy
/// and done when the round is on and the energy is there.
pub open spec fn special_used(g: Game, h: Game) -> bool {
    &&& (g.status != Status::Playing || g.energy < g.spec_special_cost())
        ==> h == g
    &&& !(g.status != Status::Playing || g.energy < g.spec_special_cost()) ==> {
        &&& h.energy == g.energy - g.spec_special_cost()
        &&& (g.class.spec_special() == Special::Boost ==> {
            &&& h.ship.1 == clamp_int(
                clamp_int(g.ship.1 + g.facing * BLINK_DISTANCE, i16::MIN as int, i16::MAX as int),
                1,
                W - 2,
            )
            &&& h.invuln == (if g.invuln >= BLINK_IFRAMES { g.invuln } else { BLINK_IFRAMES })
        })
        &&& (g.class.spec_special() == Special::Deflectors ==> h.bulwark == BULWARK_TICKS)
        &&& (g.class.spec_special() == Special::ProtonSalvo ==> h.shots@.len() == g.shots@.len() + 11)
        &&& (g.class.spec_special() == Special::ProtonSalvo ==> h.shots@ == g.shots@ + all_launched(g, salvo_wall(g)))
    }
    &&& h.status == g.status
}

/// `h` is `g` with the hull flown `dc` columns (times its thrust) and
/// `dr` rows: only in a live round, kept on its box, in the channel and off
/// the rock.
pub open spec fn ship_moved(g: Game, dc: i16, dr: i16, h: Game) -> bool {
    &&& g.status != Status::Playing ==> h == g
    &&& g.status == Status::Playing ==> {
        &&& h.ship.0 == clamp_int(g.ship.0 + dr, SHIP_TOP as int, SHIP_ROW as int)
        &&& (dc != 0 ==> h.facing == crate::arith::sign(dc as int))
        &&& (dc == 0 ==> h.facing == g.facing)
        &&& {
            let push = clamp_int(dc * g.spec_thrust(), i16::MIN as int, i16::MAX as int);
            let wanted = clamp_int(clamp_int(g.ship.1 + push, i16::MIN as int, i16::MAX as int), 1, W - 2);
            let row = h.ship.0;
            let ch = g.terrain.spec_channel(row);
            let col = clamp_int(wanted, ch.0 as int, ch.1 as int);
            &&& !g.terrain.spec_solid(row, col as i16) ==> h.ship.1 == col
                && h == (Game { ship: h.ship, facing: h.facing, ..g })
        }
    }
    &&& SHIP_TOP <= h.ship.0 <= SHIP_ROW
    &&& 1 <= h.ship.1 <= W - 2
    &&& h.status == g.status
    &&& h == (Game {
        ship: h.ship,
        facing: h.facing,
        invuln: h.invuln,
        combo: h.combo,
        combo_timer: h.combo_timer,
        shield: h.shield,
        lives: h.lives,
        weapon_level: h.weapon_level,
        drones: h.drones,
        chatter: h.chatter,
        ..g
    })
}

impl Game {
    /// Put a player shot in the air, slowed if the sector drags.
    pub fn launch(&mut self, shot: Shot)
        requires
            shot.speed > i16::MIN,
        ensures
            final(self).shots@ == old(self).shots@.push(launched(*old(self), shot)),
            *final(self) == (Game { shots: final(self).shots, ..*old(self) }),
    {
        let mut shot = shot;
        if self.sector.drag() {
            shot.slow();
        }
        self.shots.push(shot);
    }

    /// Put an enemy shot in the air, slowed if the sector drags and heavier
    /// once the campaign is deep enough to warrant it.
    pub fn launch_enemy(&mut self, shot: Shot)
        requires
            shot.speed > i16::MIN,
        ensures
            final(self).enemy_shots@.len() == old(self).enemy_shots@.len() + 1,
            final(self).enemy_shots@.drop_last() == old(self).enemy_shots@,
            ({
                let s = launched(*old(self), shot);
                final(self).enemy_shots@.last() == (if old(self).wave >= 15 { Shot { damage: 2, ..s } } else { s })
            }),
            *final(self) == (Game { enemy_shots: final(self).enemy_shots, ..*old(self) }),
    {
        let mut shot = shot;
        if self.sector.drag() {
            shot.slow();
        }
        if self.wave >= 15 {
            shot = shot.heavy();
        }
        self.enemy_shots.push(shot);
        assert(self.enemy_shots@.drop_last() =~= old(self).enemy_shots@);
    }

    /// Push the hull to the nearest open cell on its row, nearer cells first
    /// and the left one first on a tie. Rock arriving from above never crushes
    /// the hull; rock with no way out costs it a hit.
    pub fn shove_into_lane(&mut self)
        requires
            old(self).wf(),
        ensures
            final(self).wf(),
            final(self).ship.0 == old(self).ship.0,
            final(self).facing == old(self).facing,
            *final(self) == (Game {
                ship: final(self).ship,
                invuln: final(self).invuln,
                combo: final(self).combo,
                combo_timer: final(self).combo_timer,
                shield: final(self).shield,
                lives: final(self).lives,
                weapon_level: final(self).weapon_level,
                drones: final(self).drones,
                chatter: final(self).chatter,
                ..*old(self)
            }),
            !old(self).terrain.spec_solid(old(self).ship.0, old(self).ship.1) ==> *final(self) == *old(self),
            final(self).status == old(self).status,
            final(self).terrain == old(self).terrain,
            final(self).map == old(self).map,
            final(self).enemies == old(self).enemies,
            old(self).terrain.spec_solid(old(self).ship.0, old(self).ship.1) ==> {
                let row = old(self).ship.0;
                let ch = old(self).terrain.spec_channel(row);
                let s = old(self).ship.1;
                let e = final(self).ship.1;
                ||| (e != s && ch.0 <= e <= ch.1 && !old(self).terrain.spec_solid(row, e)
                    && forall|c: i16| ch.0 <= c <= ch.1 && crate::arith::abs_int(c - s) < crate::arith::abs_int(e - s)
                        ==> #[trigger] old(self).terrain.spec_solid(row, c))
                ||| (e == s && forall|c: i16| ch.0 <= c <= ch.1 ==> #[trigger] old(self).terrain.spec_solid(row, c))
            },
    {
        let row = self.ship.0;
        if !self.terrain.solid(row, self.ship.1) {
            return;
        }
        let (left, right) = self.terrain.channel(row);
        let start = self.ship.1;
        let mut step: i16 = 1;
        while step < W
            invariant
                1 <= step <= W,
                *self == *old(self),
                start == old(self).ship.1,
                row == old(self).ship.0,
                1 <= left <= right <= W - 2,
                (left, right) == old(self).terrain.spec_channel(row),
                old(self).wf(),
                old(self).terrain.spec_solid(row, start),
                1 <= start <= W - 2,
                forall|c: i16| left <= c <= right && crate::arith::abs_int(c - start) < step
                    ==> #[trigger] old(self).terrain.spec_solid(row, c),
            decreases W - step,
        {
            let lo = start - step;
            if left <= lo && lo <= right && !self.terrain.solid(row, lo) {
                self.ship.1 = lo;
                return;
            }
            let hi = start + step;
            if left <= hi && hi <= right && !self.terrain.solid(row, hi) {
                self.ship.1 = hi;
                return;
            }
            step = step + 1;
        }
        self.damage_ship(1);
    }

    /// Fly the ship, clamped to the court, to the channel and to its own box
    /// at the bottom of the court; only while the round is being played.
    pub fn move_ship(&mut self, dc: i16, dr: i16)
        requires
            old(self).wf(),
        ensures
            final(self).wf(),
            ship_moved(*old(self), dc, dr, *final(self)),
    {
        if self.status != Status::Playing {
            return;
        }
        if dc != 0 {
            self.facing = sig16(dc);
        }
        let thrust = self.thrust();
        let wanted_raw = add16(self.ship.1, mul16(dc, thrust));
        let wanted = crate::arith::clamp16(wanted_raw, 1, W - 2);
        let row = crate::arith::clamp16(add16(self.ship.0, dr), SHIP_TOP, SHIP_ROW);
        let (left, right) = self.terrain.channel(row);
        self.ship.0 = row;
        self.ship.1 = crate::arith::clamp16(wanted, left, right);
        if self.terrain.solid(self.ship.0, self.ship.1) {
            // A column stands in the way: slide to the open cell beside it.
            self.shove_into_lane();
        }
    }

    /// Put the fitted gun's volley in the air from the muzzle at `(r, c)`.
    fn fire_gun(&mut self, r: i16, c: i16, dmg: i32)
        requires
            old(self).wf(),
            SHIP_TOP - 1 <= r <= SHIP_ROW,
            1 <= c <= W - 2,
        ensures
            final(self).shots@ == old(self).shots@ + all_launched(
                *old(self),
                volley(old(self).weapon, old(self).weapon_level, r, c, dmg, old(self).tick),
            ),
            final(self).shots@.len() == old(self).shots@.len() + gun_volley(old(self).weapon, old(self).weapon_level),
            *final(self) == (Game { shots: final(self).shots, ..*old(self) }),
    {
        let v = volley_shots(self.weapon, self.weapon_level, r, c, dmg, self.tick);
        self.launch_all(&v);
    }

    /// Put every shot of `v` in the air, in order.
    fn launch_all(&mut self, v: &Vec<Shot>)
        requires
            forall|k: int| 0 <= k < v@.len() ==> (#[trigger] v@[k]).speed > i16::MIN,
        ensures
            final(self).shots@ == old(self).shots@ + all_launched(*old(self), v@),
            *final(self) == (Game { shots: final(self).shots, ..*old(self) }),
    {
        let mut i: usize = 0;
        while i < v.len()
            invariant
                i <= v@.len(),
                forall|k: int| 0 <= k < v@.len() ==> (#[trigger] v@[k]).speed > i16::MIN,
                *self == (Game { shots: self.shots, ..*old(self) }),
                self.shots@ == old(self).shots@ + all_launched(*old(self), v@.subrange(0, i as int)),
            decreases v@.len() - i,
        {
            self.launch(v[i]);
            proof {
                assert(v@.subrange(0, i + 1) =~= v@.subrange(0, i as int).push(v@[i as int]));
                assert(all_launched(*old(self), v@.subrange(0, i + 1)) =~= all_launched(*old(self), v@.subrange(0, i as int)).push(launched(*old(self), v@[i as int])));
            }
            i = i + 1;
        }
        assert(v@.subrange(0, v@.len() as int) =~= v@);
    }

    /// Fire the fitted gun, and every wing drone with it, if the cadence has
    /// come round again and the court has room for more shots. Stunned drones
    /// sit the volley out.
    pub fn fire(&mut self)
        requires
            old(self).wf(),
        ensures
            final(self).wf(),
            gun_fired(*old(self), *final(self)),
    {
        if self.status != Status::Playing || self.fire_cooldown > 0 || self.shots.len() >= MAX_SHOTS {
            return;
        }
        let cadence = self.cadence();
        self.fire_cooldown = if self.rapid > 0 { (cadence + 1) / 2 } else { cadence };
        let level = self.weapon_level;
        let dmg = add32(self.gun_damage(), level as i32 - 1);
        let r = self.ship.0 - 1;
        let c = self.ship.1;
        self.fire_gun(r, c, dmg);
        let ghost gunned = *self;
        // The drones throw a plain bolt each, unless a surge has stunned them.
        if self.drone_stun == 0 {
            let drone_damage = self.gun_damage();
            let ghost before = *self;
            let mut i: usize = 0;
            while i < self.drones.len()
                invariant
                    i <= self.drones@.len(),
                    *self == (Game { shots: self.shots, ..before }),
                    self.shots@.len() == before.shots@.len() + i,
                    self.shots@ == before.shots@ + all_launched(before, drone_bolts(before.drones@, r, c, drone_damage).subrange(0, i as int)),
                    drone_damage == before.spec_gun_damage(),
                    SHIP_TOP - 1 <= r <= SHIP_ROW,
                    1 <= c <= W - 2,
                decreases self.drones@.len() - i,
            {
                let side = self.drones[i];
                let row: i16 = if r >= 0 { r } else { 0 };
                let col = crate::arith::clamp16(add16(c, mul16(side, DRONE_OFFSET)), 0, W - 1);
                self.launch(Shot::bolt((row, col), 0, drone_damage));
                proof {
                    let all = drone_bolts(before.drones@, r, c, drone_damage);
                    assert(all.subrange(0, i + 1) =~= all.subrange(0, i as int).push(all[i as int]));
                    assert(all_launched(before, all.subrange(0, i + 1)) =~= all_launched(before, all.subrange(0, i as int)).push(launched(before, all[i as int])));
                }
                i = i + 1;
            }
            proof {
                let all = drone_bolts(before.drones@, r, c, drone_damage);
                assert(all.subrange(0, all.len() as int) =~= all);
                let gun = volley(old(self).weapon, old(self).weapon_level, r, c, dmg, old(self).tick);
                assert(all_launched(*old(self), gun + all) =~= all_launched(*old(self), gun) + all_launched(*old(self), all));
                assert(all_launched(before, all) =~= all_launched(*old(self), all));
                assert(self.shots@ =~= old(self).shots@ + all_launched(*old(self), fired_volley(*old(self))));
            }
        } else {
            assert(self.shots@ =~= old(self).shots@ + all_launched(*old(self), fired_volley(*old(self))));
        }
    }

    /// Spend energy on the hull's special: a blink along the way the hull is
    /// facing, a bulwark, or a wall of bolts across the court.
    pub fn special(&mut self)
        requires
            old(self).wf(),
        ensures
            final(self).wf(),
            special_used(*old(self), *final(self)),
    {
        let cost = self.special_cost();
        if self.status != Status::Playing || self.energy < cost {
            return;
        }
        self.energy = self.energy - cost;
        match self.class.special() {
            Special::Boost => {
                self.ship.1 = crate::arith::clamp16(add16(self.ship.1, mul16(self.facing, BLINK_DISTANCE)), 1, W - 2);
                if self.invuln < BLINK_IFRAMES {
                    self.invuln = BLINK_IFRAMES;
                }
            },
            Special::Deflectors => self.bulwark = BULWARK_TICKS,
            Special::ProtonSalvo => {
                let damage = add32(self.gun_damage(), 2);
                let row = self.ship.0 - 1;
                let ghost before = *self;
                let mut col: i16 = 2;
                while col < W - 2
                    invariant
                        2 <= col <= W - 2 + BARRAGE_STEP,
                        (col - 2) % 7 == 0,
                        *self == (Game { shots: self.shots, ..before }),
                        self.shots@.len() == before.shots@.len() + (col - 2) / 7,
                        before == (Game { energy: before.energy, ..*old(self) }),
                        row == old(self).ship.0 - 1,
                        damage == c32(old(self).spec_gun_damage() + 2),
                        self.shots@ == before.shots@ + all_launched(before, salvo_wall(*old(self)).subrange(0, (col - 2) / 7)),
                    decreases W + BARRAGE_STEP - col,
                {
                    self.launch(Shot::bolt((row, col), 0, damage));
                    proof {
                        let wall = salvo_wall(*old(self));
                        let k = (col - 2) / 7;
                        assert(wall[k] == Shot::spec_bolt((row, col), 0, damage));
                        assert(wall.subrange(0, k + 1) =~= wall.subrange(0, k).push(wall[k]));
                        assert(all_launched(before, wall.subrange(0, k + 1)) =~= all_launched(before, wall.subrange(0, k)).push(launched(before, wall[k])));
                    }
                    col = col + BARRAGE_STEP;
                }
                proof {
                    let wall = salvo_wall(*old(self));
                    assert(wall.subrange(0, 11) =~= wall);
                    assert(all_launched(before, wall) =~= all_launched(*old(self), wall));
                }
            },
        }
    }
}


/// However the hull is flown, it never leaves its box: move after move, its
/// row stays in the bottom band of the court and its column off the walls.
pub proof fn the_hull_stays_in_its_box(games: Seq<Game>, moves: Seq<(i16, i16)>)
    requires
        games.len() == moves.len() + 1,
        forall|k: int| #![trigger moves[k]] 0 <= k < moves.len() ==> ship_moved(games[k], moves[k].0, moves[k].1, games[k + 1]),
        SHIP_TOP <= games[0].ship.0 <= SHIP_ROW,
        1 <= games[0].ship.1 <= W - 2,
    ensures
        forall|k: int| 0 <= k < games.len() ==> SHIP_TOP <= (#[trigger] games[k]).ship.0 <= SHIP_ROW
            && 1 <= games[k].ship.1 <= W - 2,
{
    assert forall|k: int| 0 <= k < games.len() implies SHIP_TOP <= (#[trigger] games[k]).ship.0 <= SHIP_ROW
        && 1 <= games[k].ship.1 <= W - 2 by {
        if k > 0 {
            let j = k - 1;
            let m = moves[j];
            assert(ship_moved(games[j], m.0, m.1, games[j + 1]));
        }
    }
}

/// Over open sky, with no rock on the court, a move in a round takes the
/// hull's row a step in the band and its column its thrust's worth sideways,
/// held off the walls.
pub proof fn open_sky_moves_freely(g: Game, dc: i16, dr: i16, h: Game)
    requires
        ship_moved(g, dc, dr, h),
        g.status == Status::Playing,
        g.terrain.kind == super::kinds::TerrainKind::Open,
    ensures
        h.ship.0 == clamp_int(g.ship.0 + dr, SHIP_TOP as int, SHIP_ROW as int),
        h.ship.1 == clamp_int(
            clamp_int(g.ship.1 + clamp_int(dc * g.spec_thrust(), i16::MIN as int, i16::MAX as int), i16::MIN as int, i16::MAX as int),
            1,
            W - 2,
        ),
{
}

} // verus!
