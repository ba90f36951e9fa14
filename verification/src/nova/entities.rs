//! What flies on the Nova court: shots, hulls, pickups, rocks and hulks, and
//! the squad's own ships with what is bolted to them.

use vstd::prelude::*;

use super::consts::{MAX_TIER, MAX_WEAPON_LEVEL, POWER_PIPS};
use super::kinds::{EnemyKind, EnemyState, Module, Part, PowerKind, ShipClass, ShotKind, Weapon};
use crate::arith::{abs_int, clamp_int};

verus! {

/// Everything bolted to the ship: component tiers and the modules fitted.
#[derive(Debug)]
pub struct Loadout {
    /// Tier of each component, indexed by `Part`.
    pub tiers: [u32; 5],
    pub modules: Vec<Module>,
}

impl Clone for Loadout {
    fn clone(&self) -> (r: Self)
        ensures
            r.tiers == self.tiers,
            r.modules@ == self.modules@,
    {
        Loadout { tiers: self.tiers, modules: self.modules.clone() }
    }
}

impl Default for Loadout {
    /// No tiers, no modules.
    fn default() -> (r: Self)
        ensures
            r.tiers@ == seq![0u32, 0u32, 0u32, 0u32, 0u32],
            r.modules@.len() == 0,
    {
        Loadout { tiers: [0, 0, 0, 0, 0], modules: Vec::new() }
    }
}

impl Loadout {
    /// A bare hull: every component at tier zero and nothing fitted.
    pub fn bare() -> (r: Self)
        ensures
            r.tiers@ == seq![0u32, 0u32, 0u32, 0u32, 0u32],
            r.modules@.len() == 0,
    {
        Loadout { tiers: [0, 0, 0, 0, 0], modules: Vec::new() }
    }

    pub open spec fn spec_tier(&self, part: Part) -> u32 {
        self.tiers[part.index()]
    }

    /// The tier a component has been upgraded to.
    #[verifier::when_used_as_spec(spec_tier)]
    pub fn tier(&self, part: Part) -> (r: u32)
        ensures
            r == self.spec_tier(part),
    {
        self.tiers[part.slot()]
    }

    pub open spec fn spec_has(&self, module: Module) -> bool {
        self.modules@.contains(module)
    }

    /// Whether a module has been fitted.
    #[verifier::when_used_as_spec(spec_has)]
    pub fn has(&self, module: Module) -> (r: bool)
        ensures
            r == self.spec_has(module),
    {
        let mut i: usize = 0;
        while i < self.modules.len()
            invariant
                i <= self.modules@.len(),
                forall|j: int| 0 <= j < i ==> self.modules@[j] != module,
            decreases self.modules@.len() - i,
        {
            if self.modules[i] == module {
                return true;
            }
            i = i + 1;
        }
        false
    }

    /// One more tier on a component.
    pub fn upgrade(&mut self, part: Part)
        requires
            old(self).tiers[part.index()] < u32::MAX,
        ensures
            final(self).tiers@ == old(self).tiers@.update(part.index(), (old(self).tiers[part.index()] + 1) as u32),
            final(self).modules == old(self).modules,
    {
        let i = part.slot();
        self.tiers[i] = self.tiers[i] + 1;
    }
}

/// One shot in flight, player or enemy. Player shots travel up (negative
/// `speed`), enemy shots down.
#[derive(Clone, Copy, Debug)]
pub struct Shot {
    pub pos: (i16, i16),
    /// Columns the shot slides per tick.
    pub drift: i16,
    /// Rows travelled per tick; negative is up the court.
    pub speed: i16,
    pub damage: i32,
    /// Beams keep travelling after they hit something.
    pub pierce: bool,
    /// Missiles re-aim at the nearest target every tick.
    pub homing: bool,
    /// Half-width of the damage footprint; plasma is three cells wide.
    pub half_width: i16,
    /// Blast radius on impact: a rocket takes the cells around what it hits.
    pub splash: i16,
    /// Rows left before a flak shell bursts; zero means it never does.
    pub fuse: i16,
    /// Hulls an arc bolt may still jump to.
    pub chain: u32,
    /// Ion rounds scramble what they hit rather than breaking it.
    pub ion: bool,
    pub kind: ShotKind,
}

impl Shot {
    /// The plain bolt every other shot is a variation of.
    pub open spec fn spec_bolt(pos: (i16, i16), drift: i16, damage: i32) -> Shot {
        Shot {
            pos,
            drift,
            speed: -2i16,
            damage,
            pierce: false,
            homing: false,
            half_width: 0,
            splash: 0,
            fuse: 0,
            chain: 0,
            ion: false,
            kind: ShotKind::Bolt,
        }
    }

    /// A plain laser bolt, two rows a tick up the court.
    pub fn bolt(pos: (i16, i16), drift: i16, damage: i32) -> (r: Shot)
        ensures
            r == Shot::spec_bolt(pos, drift, damage),
    {
        Shot {
            pos,
            drift,
            speed: -2i16,
            damage,
            pierce: false,
            homing: false,
            half_width: 0,
            splash: 0,
            fuse: 0,
            chain: 0,
            ion: false,
            kind: ShotKind::Bolt,
        }
    }

    /// A machine-gun round: small, quick, no frills.
    pub fn vulcan(pos: (i16, i16), drift: i16, damage: i32) -> (r: Shot)
        ensures
            r == (Shot { speed: -3i16, ..Shot::spec_bolt(pos, drift, damage) }),
    {
        let mut s = Shot::bolt(pos, drift, damage);
        s.speed = -3;
        s
    }

    /// A dumb-fire rocket: slow, heavy, and it takes the neighbours with it.
    pub fn rocket(pos: (i16, i16), damage: i32) -> (r: Shot)
        ensures
            r == (Shot { speed: -1i16, splash: 1, kind: ShotKind::Rocket, ..Shot::spec_bolt(pos, 0, damage) }),
    {
        let mut s = Shot::bolt(pos, 0, damage);
        s.speed = -1;
        s.splash = 1;
        s.kind = ShotKind::Rocket;
        s
    }

    /// A flak shell: it climbs `fuse` rows, then bursts into fragments.
    pub fn flak(pos: (i16, i16), damage: i32, fuse: i16) -> (r: Shot)
        ensures
            r == (Shot { speed: -2i16, fuse, kind: ShotKind::Flak, ..Shot::spec_bolt(pos, 0, damage) }),
    {
        let mut s = Shot::bolt(pos, 0, damage);
        s.fuse = fuse;
        s.kind = ShotKind::Flak;
        s
    }

    /// A rail slug: the length of the court in a tick, through everything.
    pub fn rail(pos: (i16, i16), damage: i32) -> (r: Shot)
        ensures
            r == (Shot { speed: -6i16, pierce: true, kind: ShotKind::Rail, ..Shot::spec_bolt(pos, 0, damage) }),
    {
        let mut s = Shot::bolt(pos, 0, damage);
        s.speed = -6;
        s.pierce = true;
        s.kind = ShotKind::Rail;
        s
    }

    /// A proton torpedo: slow, heavy, and it takes a whole emplacement with it.
    pub fn torpedo(pos: (i16, i16), damage: i32) -> (r: Shot)
        ensures
            r == (Shot { speed: -1i16, splash: 1, homing: true, kind: ShotKind::Rocket, ..Shot::spec_bolt(pos, 0, damage) }),
    {
        let mut s = Shot::bolt(pos, 0, damage);
        s.speed = -1;
        s.splash = 1;
        s.homing = true;
        s.kind = ShotKind::Rocket;
        s
    }

    /// An ion bolt: it scrambles emplacements and gun crews for a while.
    pub fn ion(pos: (i16, i16), damage: i32) -> (r: Shot)
        ensures
            r == (Shot { speed: -2i16, splash: 1, ion: true, kind: ShotKind::Arc, ..Shot::spec_bolt(pos, 0, damage) }),
    {
        let mut s = Shot::bolt(pos, 0, damage);
        s.splash = 1;
        s.ion = true;
        s.kind = ShotKind::Arc;
        s
    }

    /// A tow cable: it sweeps out and wraps whatever it drags across.
    pub fn cable(pos: (i16, i16), drift: i16) -> (r: Shot)
        ensures
            r == (Shot { speed: -1i16, pierce: true, kind: ShotKind::Cable, ..Shot::spec_bolt(pos, drift, 1) }),
    {
        let mut s = Shot::bolt(pos, drift, 1);
        s.speed = -1;
        s.pierce = true;
        s.kind = ShotKind::Cable;
        s
    }

    /// An arc bolt: it jumps to the next hull along, `chain` times.
    pub fn arc(pos: (i16, i16), damage: i32, chain: u32) -> (r: Shot)
        ensures
            r == (Shot { speed: -2i16, chain, kind: ShotKind::Arc, ..Shot::spec_bolt(pos, 0, damage) }),
    {
        let mut s = Shot::bolt(pos, 0, damage);
        s.chain = chain;
        s.kind = ShotKind::Arc;
        s
    }

    /// A laser beam: quick, and it keeps going through what it hits.
    pub fn beam(pos: (i16, i16), damage: i32) -> (r: Shot)
        ensures
            r == (Shot { speed: -3i16, pierce: true, kind: ShotKind::Beam, ..Shot::spec_bolt(pos, 0, damage) }),
    {
        let mut s = Shot::bolt(pos, 0, damage);
        s.speed = -3;
        s.pierce = true;
        s.kind = ShotKind::Beam;
        s
    }

    /// A homing missile: slow, and it re-aims every tick.
    pub fn missile(pos: (i16, i16), damage: i32) -> (r: Shot)
        ensures
            r == (Shot { speed: -1i16, homing: true, kind: ShotKind::Missile, ..Shot::spec_bolt(pos, 0, damage) }),
    {
        let mut s = Shot::bolt(pos, 0, damage);
        s.speed = -1;
        s.homing = true;
        s.kind = ShotKind::Missile;
        s
    }

    /// A plasma ball whose footprint spreads `half_width` either side.
    pub fn plasma(pos: (i16, i16), damage: i32, half_width: i16) -> (r: Shot)
        ensures
            r == (Shot { speed: -1i16, half_width, kind: ShotKind::Plasma, ..Shot::spec_bolt(pos, 0, damage) }),
    {
        let mut s = Shot::bolt(pos, 0, damage);
        s.speed = -1;
        s.half_width = half_width;
        s.kind = ShotKind::Plasma;
        s
    }

    /// An enemy round: one pip of damage, travelling `speed` rows a tick.
    pub fn enemy(pos: (i16, i16), drift: i16, speed: i16) -> (r: Shot)
        ensures
            r == (Shot { speed, kind: ShotKind::Enemy, ..Shot::spec_bolt(pos, drift, 1) }),
    {
        let mut s = Shot::bolt(pos, drift, 1);
        s.speed = speed;
        s.kind = ShotKind::Enemy;
        s
    }

    /// A shot heavy enough to cost the hull two shield pips instead of one.
    pub fn heavy(self) -> (r: Shot)
        ensures
            r == (Shot { damage: 2, ..self }),
    {
        let mut s = self;
        s.damage = 2;
        s
    }

    /// The speed a nebula leaves a shot with: a row slower, to a floor of one.
    pub open spec fn slowed(speed: int) -> int {
        let rows = abs_int(speed);
        let left = if rows - 1 >= 1 { rows - 1 } else { 1 };
        if speed > 0 {
            left
        } else if speed < 0 {
            -left
        } else {
            0
        }
    }

    /// Nebula soup costs every shot a row of speed, to a floor of one.
    pub fn slow(&mut self)
        requires
            old(self).speed > i16::MIN,
        ensures
            *final(self) == (Shot { speed: Shot::slowed(old(self).speed as int) as i16, ..*old(self) }),
    {
        let rows: i16 = if self.speed < 0 { -self.speed } else { self.speed };
        let left: i16 = if rows - 1 >= 1 { rows - 1 } else { 1 };
        self.speed = if self.speed > 0 {
            left
        } else if self.speed < 0 {
            -left
        } else {
            0
        };
    }
}

/// One enemy hull on the court.
#[derive(Clone, Copy, Debug)]
pub struct Enemy {
    pub kind: EnemyKind,
    pub pos: (i16, i16),
    /// Its formation slot, which a diver returns to if it survives the run.
    pub home: (i16, i16),
    pub hp: i32,
    pub max_hp: i32,
    pub state: EnemyState,
    /// Ticks a sniper still has to telegraph before its shot goes off.
    pub charge: u32,
}

impl Enemy {
    /// A fresh hull of `kind` holding station at `home`.
    pub fn new(kind: EnemyKind, home: (i16, i16)) -> (r: Enemy)
        ensures
            r == (Enemy {
                kind,
                pos: home,
                home,
                hp: kind.spec_hp(),
                max_hp: kind.spec_hp(),
                state: EnemyState::Formation,
                charge: 0,
            }),
    {
        Enemy {
            kind,
            pos: home,
            home,
            hp: kind.hp(),
            max_hp: kind.hp(),
            state: EnemyState::Formation,
            charge: 0,
        }
    }
}

/// One backdrop cell, scrolling at its layer's speed.
#[derive(Clone, Copy, Debug)]
pub struct Star {
    pub pos: (i16, i16),
    pub layer: usize,
}

/// A pickup tumbling down the court.
#[derive(Clone, Copy, Debug)]
pub struct Powerup {
    pub pos: (i16, i16),
    pub kind: PowerKind,
}

/// A mine hanging in the court.
#[derive(Clone, Copy, Debug)]
pub struct Mine {
    pub pos: (i16, i16),
    pub fuse: u32,
}

/// A rock drifting down the court; shoot it or fly around it.
#[derive(Clone, Copy, Debug)]
pub struct Asteroid {
    pub pos: (i16, i16),
    pub hp: i32,
    pub drift: i16,
}

/// A hulk that blocks the lane: it eats shots from both sides until it breaks.
#[derive(Clone, Copy, Debug)]
pub struct Debris {
    pub pos: (i16, i16),
    pub hp: i32,
}

/// A gun emplacement bolted to the rock, riding down with the scroll.
#[derive(Clone, Copy, Debug)]
pub struct WallTurret {
    pub pos: (i16, i16),
    pub hp: i32,
    pub cooldown: u32,
}

/// A transport running for the far side of the court.
#[derive(Clone, Copy, Debug)]
pub struct Transport {
    pub pos: (i16, i16),
    pub hp: i32,
    /// True once it has crossed and gone to lightspeed.
    pub away: bool,
}

/// An armoured walker on the surface. Cannons barely mark it; a cable wrapped
/// round its legs twice puts it down.
#[derive(Clone, Copy, Debug)]
pub struct Walker {
    pub pos: (i16, i16),
    pub hp: i32,
    /// Turns of cable round the legs.
    pub wraps: u32,
    pub cooldown: u32,
    pub down: bool,
}

impl Walker {
    /// Six cells of hull, drawn from the anchor.
    pub const SPAN: i16 = 3;

    /// A walker at `pos`, its armour thickened by the campaign.
    pub fn new(pos: (i16, i16), armour: i32) -> (r: Walker)
        requires
            i32::MIN <= armour * 8 <= i32::MAX,
            i32::MIN <= 60 + armour * 8 <= i32::MAX,
        ensures
            r == (Walker { pos, hp: (60 + armour * 8) as i32, wraps: 0, cooldown: 24, down: false }),
    {
        Walker { pos, hp: 60 + armour * 8, wraps: 0, cooldown: 24, down: false }
    }
}

/// One line of squadron radio traffic, and how long it stays up.
#[derive(Debug)]
pub struct Chatter {
    pub line: String,
    pub ticks: u32,
}

impl Clone for Chatter {
    fn clone(&self) -> (r: Self)
        ensures
            r == *self,
    {
        Chatter { line: self.line.clone(), ticks: self.ticks }
    }
}

/// One hull in the squad: the one being flown, or a wingman riding alongside.
#[derive(Debug)]
pub struct Wing {
    pub name: &'static str,
    pub class: ShipClass,
    pub loadout: Loadout,
    pub weapon: Weapon,
    pub weapon_level: u32,
    pub shield: u32,
    pub max_shield: u32,
    /// False once it has been shot down; a yard puts it back in the air.
    pub alive: bool,
}

impl Clone for Wing {
    fn clone(&self) -> (r: Self)
        ensures
            r.name == self.name,
            r.class == self.class,
            r.loadout.tiers == self.loadout.tiers,
            r.loadout.modules@ == self.loadout.modules@,
            r.weapon == self.weapon,
            r.weapon_level == self.weapon_level,
            r.shield == self.shield,
            r.max_shield == self.max_shield,
            r.alive == self.alive,
    {
        Wing {
            name: self.name,
            class: self.class,
            loadout: self.loadout.clone(),
            weapon: self.weapon,
            weapon_level: self.weapon_level,
            shield: self.shield,
            max_shield: self.max_shield,
            alive: self.alive,
        }
    }
}

impl Wing {
    /// The hull's gun level and component tiers are within their ceilings.
    pub open spec fn sound(&self) -> bool {
        &&& 1 <= self.weapon_level <= MAX_WEAPON_LEVEL
        &&& forall|i: int| 0 <= i < 5 ==> #[trigger] self.loadout.tiers[i] <= MAX_TIER
    }

    /// The same hull back in the air with its shields full.
    pub open spec fn rescued(self) -> Wing {
        Wing { alive: true, shield: self.max_shield, ..self }
    }

    /// A fresh hull of `class`, straight off the line.
    pub fn new(name: &'static str, class: ShipClass) -> (r: Wing)
        ensures
            r.name == name,
            r.class == class,
            r.loadout.tiers@ == seq![0u32, 0u32, 0u32, 0u32, 0u32],
            r.loadout.modules@.len() == 0,
            r.weapon == Weapon::LaserCannon,
            r.weapon_level == 1,
            r.shield == class.spec_max_shield(),
            r.max_shield == class.spec_max_shield(),
            r.alive,
    {
        Wing {
            name,
            class,
            loadout: Loadout::bare(),
            weapon: Weapon::LaserCannon,
            weapon_level: 1,
            shield: class.max_shield(),
            max_shield: class.max_shield(),
            alive: true,
        }
    }

    pub open spec fn spec_damage(&self) -> int {
        self.class.spec_damage() + self.loadout.spec_tier(Part::Cannon) + self.weapon_level - 1
    }

    /// Damage this hull deals per shot; held at `i32::MAX` rather than
    /// wrapping.
    pub fn damage(&self) -> (r: i32)
        ensures
            r == clamp_int(self.spec_damage(), i32::MIN as int, i32::MAX as int),
    {
        let d = self.class.damage() as i64 + self.loadout.tier(Part::Cannon) as i64
            + self.weapon_level as i64 - 1;
        crate::arith::fit32(d)
    }

    /// "flying" or "down".
    pub fn status(&self) -> (r: &'static str)
        ensures
            r == (if self.alive { "flying" } else { "down" }),
    {
        if self.alive {
            "flying"
        } else {
            "down"
        }
    }
}

/// Where the reactor's output is going. Six pips, split three ways: cannons hit
/// harder, deflectors knit themselves back, engines push the hull along and
/// charge the special faster.
#[derive(Clone, Copy, PartialEq, Eq, Debug, Structural)]
pub struct Power {
    pub lasers: u32,
    pub shields: u32,
    pub engines: u32,
}

/// Which of the three systems power is being sent to.
pub use super::kinds::System;

impl Default for Power {
    /// Two pips to each system.
    fn default() -> (r: Self)
        ensures
            r == (Power { lasers: 2, shields: 2, engines: 2 }),
    {
        Power { lasers: 2, shields: 2, engines: 2 }
    }
}

impl Power {
    /// Two pips to each system.
    pub fn even() -> (r: Self)
        ensures
            r == (Power { lasers: 2, shields: 2, engines: 2 }),
    {
        Power { lasers: 2, shields: 2, engines: 2 }
    }

    pub open spec fn spec_pips(&self, system: System) -> u32 {
        match system {
            System::Lasers => self.lasers,
            System::Shields => self.shields,
            System::Engines => self.engines,
        }
    }

    /// Pips currently sent to a system.
    #[verifier::when_used_as_spec(spec_pips)]
    pub fn pips(&self, system: System) -> (r: u32)
        ensures
            r == self.spec_pips(system),
    {
        match system {
            System::Lasers => self.lasers,
            System::Shields => self.shields,
            System::Engines => self.engines,
        }
    }

    /// The same split with `system` moved to `value`.
    pub open spec fn with(self, system: System, value: u32) -> Power {
        match system {
            System::Lasers => Power { lasers: value, ..self },
            System::Shields => Power { shields: value, ..self },
            System::Engines => Power { engines: value, ..self },
        }
    }

    /// Add `delta` pips to a system, held between none and `POWER_PIPS`.
    /// Power moves a pip at a time; the bounds keep the sum inside `i32`.
    pub fn add(&mut self, system: System, delta: i32)
        requires
            -1000 <= delta <= 1000,
            old(self).spec_pips(system) <= 1000,
        ensures
            *final(self) == old(self).with(system, clamp_int(old(self).spec_pips(system) + delta, 0, POWER_PIPS as int) as u32),
    {
        let now = self.pips(system) as i32;
        let v = crate::arith::clamp32(now + delta, 0, POWER_PIPS as i32) as u32;
        match system {
            System::Lasers => self.lasers = v,
            System::Shields => self.shields = v,
            System::Engines => self.engines = v,
        }
    }

    /// The system other than `to` that a pip is taken from: whichever of them
    /// holds the most, the later one in lasers, shields, engines order on a tie.
    pub open spec fn donor(self, to: System) -> System {
        let (a, b) = match to {
            System::Lasers => (System::Shields, System::Engines),
            System::Shields => (System::Lasers, System::Engines),
            System::Engines => (System::Lasers, System::Shields),
        };
        if self.spec_pips(b) >= self.spec_pips(a) { b } else { a }
    }

    /// Take a pip off whichever system has most to spare and give it to `to`.
    pub fn divert(&mut self, to: System) -> (r: bool)
        requires
            old(self).lasers <= POWER_PIPS,
            old(self).shields <= POWER_PIPS,
            old(self).engines <= POWER_PIPS,
        ensures
            r == (old(self).spec_pips(to) < POWER_PIPS && old(self).spec_pips(old(self).donor(to)) > 0),
            r ==> *final(self) == old(self).with(old(self).donor(to), (old(self).spec_pips(old(self).donor(to)) - 1) as u32).with(to, (old(self).spec_pips(to) + 1) as u32),
            !r ==> *final(self) == *old(self),
            final(self).lasers + final(self).shields + final(self).engines == old(self).lasers + old(self).shields + old(self).engines,
    {
        if self.pips(to) >= POWER_PIPS {
            return false;
        }
        let (a, b) = match to {
            System::Lasers => (System::Shields, System::Engines),
            System::Shields => (System::Lasers, System::Engines),
            System::Engines => (System::Lasers, System::Shields),
        };
        // `max_by_key` keeps the last of equal maxima.
        let from = if self.pips(b) >= self.pips(a) { b } else { a };
        if self.pips(from) > 0 {
            self.add(from, -1);
            self.add(to, 1);
            true
        } else {
            false
        }
    }
}

/// A hangar line as the renderer needs it.
#[derive(Debug)]
pub struct ShopLine {
    pub key: char,
    pub entry: super::kinds::ShopEntry,
    pub label: String,
    pub detail: &'static str,
    pub price: u32,
    /// False when it is maxed out, already fitted, or unaffordable.
    pub available: bool,
}

impl Clone for ShopLine {
    fn clone(&self) -> (r: Self)
        ensures
            r == *self,
    {
        ShopLine {
            key: self.key,
            entry: self.entry,
            label: self.label.clone(),
            detail: self.detail,
            price: self.price,
            available: self.available,
        }
    }
}

} // verus!
