//! The Nova court itself: the state of a run, and the rules that read and
//! bank it. The moves that change the court tick by tick live beside it in
//! the other `game_*` modules.

use vstd::prelude::*;

use super::boss::Boss;
use super::campaign::Mission;
use super::capital::Capital;
use super::consts::{BASE_ENERGY, CHATTER_TICKS, EXTEND_SCORE, FORCE_MAX, H, MAX_DRONES, MAX_SHIELD_PIPS, MAX_SQUAD, MAX_TIER, MAX_WEAPON_LEVEL, MISSILE_START, POWER_PIPS, REPAIR_CADENCE, SHIP_ROW, SHIP_TOP, SPECIAL_COST, SWAY_CADENCE, W, XP_PER_LEVEL, ENERGY_REGEN};
use super::entities::{Asteroid, Chatter, Debris, Enemy, Loadout, Mine, Power, Powerup, Shot, Star, Transport, Walker, WallTurret, Wing};
use super::kinds::{Difficulty, EnemyKind, EnemyState, Formation, Galaxy, Hazard, Module, NodeBonus, NodeKind, Objective, Part, Planet, Rank, Region, Sector, ShipClass, Status, System, TerrainKind, Weapon};
use super::starmap::{MapNode, StarMap};
use super::terrain::Terrain;
use crate::arith::{clamp_int, lcg, lcg_next};

verus! {

/// The pure Nova court: everything a run is made of, with no I/O or timing.
pub struct Game {
    pub class: ShipClass,
    pub difficulty: Difficulty,
    /// Everything bolted to the ship, bought in the hangar.
    pub loadout: Loadout,
    /// Ship position as `(row, col)`; it flies the bottom rows of the court.
    pub ship: (i16, i16),
    pub weapon: Weapon,
    pub weapon_level: u32,
    pub shield: u32,
    pub max_shield: u32,
    pub lives: u32,
    pub bombs: u32,
    /// Wing drones riding either side of the hull, as `-1`/`1` sides.
    pub drones: Vec<i16>,
    /// Every hull in the squad, and which one is being flown.
    pub squad: Vec<Wing>,
    pub active: usize,
    /// Where the reactor's output is going.
    pub power: Power,
    /// How much of the Force is to hand.
    pub force: u32,
    /// Ticks left of stretched-out senses.
    pub sense: u32,
    /// True while the next torpedo salvo flies itself.
    pub guided: bool,
    /// Squadron radio traffic, newest first.
    pub chatter: Vec<Chatter>,
    /// The campaign mission being flown, and where the squadron is up to.
    pub mission: Option<Mission>,
    pub campaign_at: usize,
    /// The world this system belongs to.
    pub planet: Planet,
    /// What the mission wants, and the clock that tracks it.
    pub objective: Objective,
    pub objective_ticks: u32,
    /// Transports being escorted, and walkers to be brought down.
    pub transports: Vec<Transport>,
    pub walkers: Vec<Walker>,
    /// The guns aboard, and the missiles in the launcher.
    pub owned: Vec<Weapon>,
    pub missiles: u32,
    pub score: u32,
    /// Salvage banked for the hangar.
    pub credits: u32,
    pub xp: u32,
    pub level: u32,
    /// Experience still owed for the next level.
    pub xp_next: u32,
    /// Kill-chain multiplier, `1` when cold.
    pub combo: u32,
    pub medals: u32,
    pub energy: u32,
    pub wave: u32,
    pub sector: Sector,
    pub formation: Formation,
    pub status: Status,
    pub enemies: Vec<Enemy>,
    pub boss: Option<Boss>,
    /// The capital ship holding this system, if one does.
    pub capital: Option<Capital>,
    pub shots: Vec<Shot>,
    pub enemy_shots: Vec<Shot>,
    pub powerups: Vec<Powerup>,
    pub mines: Vec<Mine>,
    pub asteroids: Vec<Asteroid>,
    pub debris: Vec<Debris>,
    pub stars: Vec<Star>,
    /// The rock this leg of the route is flown through.
    pub terrain: Terrain,
    /// Guns bolted to that rock.
    pub turrets: Vec<WallTurret>,
    /// Whatever else the sector is doing to the hull.
    pub hazards: Vec<Hazard>,
    /// The galaxy being flown, its chart, and the system in front of the hull.
    pub galaxy: Galaxy,
    pub map: StarMap,
    pub node: MapNode,
    /// Ticks the arrival banner still has to run.
    pub banner: u32,
    /// Frames of flash left over from a bomb or a surge, for the renderer.
    pub flash: u32,
    /// Ticks left of the cleared-wave pause.
    pub intermission: u32,
    /// Ticks the bulwark still holds.
    pub bulwark: u32,
    /// Ticks the drones are still knocked out by an ion surge.
    pub drone_stun: u32,
    /// Extra shield pips and damage handed out by pilot levels.
    pub bonus_plating: u32,
    pub bonus_damage: i32,
    pub bonus_regen: u32,
    pub sway_x: i16,
    pub sway_dir: i16,
    pub sway_counter: u32,
    pub fire_cooldown: u32,
    pub invuln: u32,
    pub combo_timer: u32,
    pub rapid: u32,
    pub repair_timer: u32,
    pub facing: i16,
    pub next_extend: u32,
    /// Ticks flown this run; the renderer reads it for the hazard rhythms.
    pub tick: u32,
    pub rng: u64,
}

/// The chatter list after `line` is said: a repeat of the newest line is
/// dropped, anything else goes on top and the list keeps its newest three.
pub open spec fn said(old: Seq<Chatter>, new: Seq<Chatter>, line: Seq<char>) -> bool {
    if old.len() > 0 && old[0].line@ == line {
        new == old
    } else {
        &&& new.len() == (if old.len() + 1 < 3 { old.len() + 1 } else { 3 })
        &&& new[0].line@ == line
        &&& new[0].ticks == CHATTER_TICKS
        &&& forall|i: int| 1 <= i < new.len() ==> #[trigger] new[i] == old[i - 1]
    }
}

/// `r` is the game a fresh run from `seed` opens on: the hull picker, the
/// stock X-wing kit, and the generator seeded.
pub open spec fn fresh_game(seed: u64, r: Game) -> bool {
    &&& r.status == Status::Select
    &&& r.class == ShipClass::XWing
    &&& r.difficulty == Difficulty::Normal
    &&& r.ship.0 == SHIP_ROW
    &&& r.ship.1 == W / 2
    &&& r.lives == 3
    &&& r.wave == 1
    &&& r.score == 0
    &&& r.credits == 0
    &&& r.squad@.len() == 1
    &&& r.active == 0
    &&& r.owned@ =~= seq![Weapon::LaserCannon]
    &&& r.weapon == Weapon::LaserCannon
    &&& r.weapon_level == 1
    &&& r.missiles == MISSILE_START
    &&& r.squad@[0].name@ == "Red Leader"@
    &&& r.squad@[0].class == ShipClass::XWing
    &&& r.power == (Power { lasers: 2, shields: 2, engines: 2 })
    &&& r.force == FORCE_MAX / 2
    &&& r.energy == BASE_ENERGY
    &&& r.galaxy == Galaxy::Orion
    &&& r.level == 1
    &&& r.xp == 0
    &&& r.fire_cooldown == 0
    &&& r.shots@.len() == 0
    &&& r.enemy_shots@.len() == 0
    &&& r.enemies@.len() == 0
    &&& r.drones@.len() == 0
    &&& r.drone_stun == 0
    &&& r.mission.is_none()
    &&& r.rng == seed | 1
}

/// `h` is `g` with a pip of power sent to `system` from the best donor when
/// `r`, which says whether there was one to send.
pub open spec fn diverted(g: Game, system: System, r: bool, h: Game) -> bool {
    &&& r == (g.power.spec_pips(system) < POWER_PIPS
            && g.power.spec_pips(g.power.donor(system)) > 0)
    &&& r ==> h.power == g.power.with(
            g.power.donor(system),
            (g.power.spec_pips(g.power.donor(system)) - 1) as u32,
        ).with(system, (g.power.spec_pips(system) + 1) as u32)
    &&& !r ==> h.power == g.power
    &&& h == (Game { power: h.power, ..g })
}

impl Game {
    /// The run is consistent: the rock and the chart are sound, the reactor
    /// split stays within its pips, the hull sits in its box, and the squad,
    /// shields, drones, guns and components stay within their ceilings.
    pub open spec fn wf(&self) -> bool {
        &&& self.terrain.wf()
        &&& self.terrain.rows@.len() == H
        &&& self.map.wf()
        &&& self.power.lasers <= POWER_PIPS
        &&& self.power.shields <= POWER_PIPS
        &&& self.power.engines <= POWER_PIPS
        &&& 1 <= self.squad@.len() <= MAX_SQUAD
        &&& self.active < self.squad@.len()
        &&& forall|i: int| 0 <= i < self.squad@.len() ==> (#[trigger] self.squad@[i]).sound()
        &&& SHIP_TOP <= self.ship.0 <= SHIP_ROW
        &&& 1 <= self.ship.1 <= W - 2
        &&& forall|i: int| 0 <= i < 5 ==> #[trigger] self.loadout.tiers[i] <= MAX_TIER
        &&& 1 <= self.weapon_level <= MAX_WEAPON_LEVEL
        &&& self.max_shield <= MAX_SHIELD_PIPS
        &&& self.shield <= self.max_shield + 2
        &&& self.drones@.len() <= MAX_DRONES
        &&& self.force <= FORCE_MAX
        &&& self.xp_next >= 1
        &&& (self.boss matches Some(b) ==> b.parts@.len() < 1000)
        &&& self.wave <= 50_000_000
        &&& match self.objective {
            Objective::Escort { needed } => needed <= 100,
            Objective::Walkers { count } => count <= 100,
            _ => true,
        }
    }

    /// The chart a new run parks in front of: Orion, laid out from `seed`.
    fn opening_chart(seed: u64) -> (m: StarMap)
        ensures
            m.wf(),
            m.galaxy == Galaxy::Orion,
    {
        StarMap::generate(Galaxy::Orion, seed)
    }

    /// Open space, a court of it laid out from `seed`.
    fn open_rock(seed: u64) -> (t: Terrain)
        ensures
            t.wf(),
            t.kind == TerrainKind::Open,
            t.rows@.len() == H,
    {
        Terrain::new(TerrainKind::Open, seed)
    }

    /// A run parked on the hull picker, seeded with `seed`.
    #[verifier::rlimit(50)]
    pub fn new(seed: u64) -> (r: Game)
        ensures
            r.wf(),
            fresh_game(seed, r),
    {
        let map = Self::opening_chart(seed);
        let terrain = Self::open_rock(seed);
        Game {
            class: ShipClass::XWing,
            difficulty: Difficulty::Normal,
            loadout: Loadout::bare(),
            ship: (SHIP_ROW, W / 2),
            weapon: Weapon::LaserCannon,
            weapon_level: 1,
            shield: 0,
            max_shield: 0,
            lives: 3,
            bombs: 0,
            drones: Vec::new(),
            squad: vec![Wing::new("Red Leader", ShipClass::XWing)],
            active: 0,
            power: Power::even(),
            force: FORCE_MAX / 2,
            sense: 0,
            guided: false,
            chatter: Vec::new(),
            mission: None,
            campaign_at: 0,
            planet: Planet::DeepSpace,
            objective: Objective::Destroy,
            objective_ticks: 0,
            transports: Vec::new(),
            walkers: Vec::new(),
            owned: vec![Weapon::LaserCannon],
            missiles: MISSILE_START,
            score: 0,
            credits: 0,
            xp: 0,
            level: 1,
            xp_next: XP_PER_LEVEL,
            combo: 1,
            medals: 0,
            energy: BASE_ENERGY,
            wave: 1,
            sector: Sector::of_wave(1),
            formation: Formation::of_wave(1),
            status: Status::Select,
            enemies: Vec::new(),
            boss: None,
            capital: None,
            shots: Vec::new(),
            enemy_shots: Vec::new(),
            powerups: Vec::new(),
            mines: Vec::new(),
            asteroids: Vec::new(),
            debris: Vec::new(),
            stars: Vec::new(),
            terrain,
            turrets: Vec::new(),
            hazards: Vec::new(),
            galaxy: Galaxy::Orion,
            map,
            node: MapNode {
                pos: (0, 0),
                region: Region::Rim,
                kind: NodeKind::Battle,
                sector: Sector::of_wave(1),
                terrain: TerrainKind::Open,
                bonus: NodeBonus::Refit,
                cleared: false,
                explored: true,
            },
            banner: 0,
            flash: 0,
            intermission: 0,
            bulwark: 0,
            drone_stun: 0,
            bonus_plating: 0,
            bonus_damage: 0,
            bonus_regen: 0,
            sway_x: 0,
            sway_dir: 1,
            sway_counter: SWAY_CADENCE,
            fire_cooldown: 0,
            invuln: 0,
            combo_timer: 0,
            rapid: 0,
            repair_timer: REPAIR_CADENCE,
            facing: 1,
            next_extend: EXTEND_SCORE,
            tick: 0,
            rng: seed | 1,
        }
    }

    /// The next number off the run's LCG, advancing it.
    pub fn rand(&mut self) -> (r: u64)
        ensures
            final(self).rng == lcg_next(old(self).rng),
            r == lcg_next(old(self).rng) >> 33,
            *final(self) == (Game { rng: final(self).rng, ..*old(self) }),
    {
        let (next, out) = lcg(self.rng);
        self.rng = next;
        out
    }

    pub open spec fn spec_odds(&self, base: u64) -> u64 {
        let pressure = self.difficulty.spec_aggression() + self.wave / 5;
        let n = base / (pressure as u64);
        if n >= 6 { n } else { 6 }
    }

    /// Difficulty- and wave-scaled 1-in-N odds: a harder run, and a later
    /// wave, both mean a busier court.
    pub fn odds(&self, base: u64) -> (r: u64)
        ensures
            r == self.spec_odds(base),
            r >= 6,
    {
        let pressure: u64 = self.difficulty.aggression() + (self.wave / 5) as u64;
        let n = base / pressure;
        if n >= 6 { n } else { 6 }
    }

    pub open spec fn spec_danger(&self) -> bool {
        self.node.bonus == NodeBonus::Danger
    }

    /// True while this leg of the route is a danger run.
    #[verifier::when_used_as_spec(spec_danger)]
    pub fn danger(&self) -> (r: bool)
        ensures
            r == self.spec_danger(),
    {
        self.node.bonus == NodeBonus::Danger
    }

    pub open spec fn spec_wave_armour(&self) -> i32 {
        let danger: int = if self.spec_danger() { 2 } else { 0 };
        let elite: int = if self.node.kind == NodeKind::Elite { 2 } else { 0 };
        let a = self.difficulty.spec_armour() + self.wave / 3 + danger + elite + self.galaxy.spec_armour();
        (if a >= 0 { a } else { 0 }) as i32
    }

    /// Armour every enemy hull carries: the difficulty sets the floor, the
    /// campaign thickens it every few waves, and a danger run or an elite
    /// system adds to it.
    pub fn wave_armour(&self) -> (r: i32)
        ensures
            r == self.spec_wave_armour(),
            0 <= r <= 1_500_000_000,
            self.wave <= 50_000_000 ==> r <= 20_000_000,
    {
        let danger: i64 = if self.danger() { 2 } else { 0 };
        let elite: i64 = if self.node.kind == NodeKind::Elite { 2 } else { 0 };
        let a: i64 = self.difficulty.armour() as i64 + (self.wave / 3) as i64 + danger + elite
            + self.galaxy.armour() as i64;
        assert(self.galaxy.spec_armour() <= 2);
        if a >= 0 { a as i32 } else { 0 }
    }

    pub open spec fn spec_thrust(&self) -> i16 {
        (self.class.spec_speed() + self.loadout.spec_tier(Part::Engine) / 2 + self.power.engines / 3) as i16
    }

    /// Columns the hull covers per keypress, engine included.
    pub fn thrust(&self) -> (r: i16)
        requires
            self.wf(),
        ensures
            r == self.spec_thrust(),
            1 <= r <= 10,
    {
        assert(self.loadout.tiers[0] <= MAX_TIER);
        self.class.speed() + (self.loadout.tier(Part::Engine) / 2) as i16 + (self.power.engines / 3) as i16
    }

    pub open spec fn spec_cadence(&self) -> u32 {
        let base = self.class.spec_fire_cadence() as int;
        let mag = (self.loadout.spec_tier(Part::Magazine) / 2) as int;
        let t1 = if base >= mag { base - mag } else { 0 };
        let t2 = if self.loadout.spec_has(Module::Autoloader) { if t1 >= 1 { t1 - 1 } else { 0 } } else { t1 };
        let c = t2 + self.weapon.spec_cadence_shift();
        (if c >= 1 { c } else { 1 }) as u32
    }

    /// Ticks between shots, magazine and autoloader included.
    pub fn cadence(&self) -> (r: u32)
        ensures
            r == self.spec_cadence(),
            1 <= r <= 20,
    {
        let mut ticks = self.class.fire_cadence().saturating_sub(self.loadout.tier(Part::Magazine) / 2);
        if self.loadout.has(Module::Autoloader) {
            ticks = ticks.saturating_sub(1);
        }
        let c: i32 = ticks as i32 + self.weapon.cadence_shift();
        if c >= 1 { c as u32 } else { 1 }
    }

    pub open spec fn spec_gun_damage(&self) -> i32 {
        let d = self.class.spec_damage() + self.loadout.spec_tier(Part::Cannon) + self.bonus_damage
            + self.power.lasers - 2;
        clamp_int(d, 1, i32::MAX as int) as i32
    }

    /// Damage the gun deals before its level bonus, cannon included; at least
    /// one, and held at `i32::MAX` rather than wrapping.
    pub fn gun_damage(&self) -> (r: i32)
        ensures
            r == self.spec_gun_damage(),
            r >= 1,
    {
        let d: i64 = self.class.damage() as i64 + self.loadout.tier(Part::Cannon) as i64
            + self.bonus_damage as i64 + self.power.lasers as i64 - 2;
        if d < 1 {
            1
        } else if d > i32::MAX as i64 {
            i32::MAX
        } else {
            d as i32
        }
    }

    pub open spec fn spec_regen(&self) -> u32 {
        let s = ENERGY_REGEN + self.loadout.spec_tier(Part::Reactor) + self.bonus_regen + self.power.engines / 2;
        (if s <= u32::MAX { s } else { u32::MAX as int }) as u32
    }

    /// Energy recovered per tick, reactor included; held at `u32::MAX` rather
    /// than wrapping.
    pub fn regen(&self) -> (r: u32)
        ensures
            r == self.spec_regen(),
    {
        let s: u64 = ENERGY_REGEN as u64 + self.loadout.tier(Part::Reactor) as u64 + self.bonus_regen as u64
            + (self.power.engines / 2) as u64;
        if s <= u32::MAX as u64 { s as u32 } else { u32::MAX }
    }

    /// The rank the Alliance has the pilot at.
    pub fn rank(&self) -> (r: Rank)
        ensures
            r == Rank::spec_of_level(self.level),
    {
        Rank::of_level(self.level)
    }

    /// Put a line of squadron traffic on the display: a repeat of the newest
    /// line is dropped, and only the newest three lines are kept.
    pub fn say(&mut self, line: &str)
        ensures
            said(old(self).chatter@, final(self).chatter@, line@),
            *final(self) == (Game { chatter: final(self).chatter, ..*old(self) }),
    {
        let text = String::from_str(line);
        if self.chatter.len() > 0 && self.chatter[0].line == text {
            return;
        }
        self.chatter.insert(0, Chatter { line: text, ticks: CHATTER_TICKS });
        self.chatter.truncate(3);
    }

    pub open spec fn spec_max_energy(&self) -> u32 {
        (BASE_ENERGY + 10 * self.loadout.spec_tier(Part::Reactor)) as u32
    }

    /// Energy the meter holds, reactor included.
    pub fn max_energy(&self) -> (r: u32)
        requires
            self.wf(),
        ensures
            r == self.spec_max_energy(),
            r <= BASE_ENERGY + 10 * MAX_TIER,
    {
        assert(self.loadout.tiers[1] <= MAX_TIER);
        BASE_ENERGY + 10 * self.loadout.tier(Part::Reactor)
    }

    pub open spec fn spec_special_cost(&self) -> u32 {
        if self.loadout.spec_has(Module::Overdrive) { (SPECIAL_COST * 2 / 3) as u32 } else { SPECIAL_COST }
    }

    /// What the hull special costs, overdrive included.
    pub fn special_cost(&self) -> (r: u32)
        ensures
            r == self.spec_special_cost(),
    {
        if self.loadout.has(Module::Overdrive) {
            SPECIAL_COST * 2 / 3
        } else {
            SPECIAL_COST
        }
    }

    /// True while the ship is still flashing from its last hit.
    pub fn invulnerable(&self) -> (r: bool)
        ensures
            r == (self.invuln > 0),
    {
        self.invuln > 0
    }

    /// True while a rapid-fire pickup is running.
    pub fn rapid_active(&self) -> (r: bool)
        ensures
            r == (self.rapid > 0),
    {
        self.rapid > 0
    }

    /// True while the hull special is paid for and ready.
    pub fn special_ready(&self) -> (r: bool)
        ensures
            r == (self.energy >= self.spec_special_cost()),
    {
        self.energy >= self.special_cost()
    }

    /// Send a pip of power to one of the three systems, from whichever other
    /// system has the most to spare; the split always totals the same.
    pub fn divert(&mut self, system: System) -> (r: bool)
        requires
            old(self).wf(),
        ensures
            final(self).wf(),
            diverted(*old(self), system, r, *final(self)),
    {
        self.power.divert(system)
    }

    pub open spec fn spec_priced(&self, base: u32) -> int {
        base * (100 + 12 * self.wave) / 100
    }

    /// What a hangar line costs here: prices climb with the campaign. Held at
    /// `u32::MAX` rather than wrapping.
    pub fn priced(&self, base: u32) -> (r: u32)
        ensures
            r == clamp_int(self.spec_priced(base), 0, u32::MAX as int),
    {
        let factor: u128 = 100 + 12 * self.wave as u128;
        assert(base as u128 * factor <= 0xffff_ffff * 60_000_000_000) by (nonlinear_arith)
            requires base <= 0xffff_ffff, factor <= 60_000_000_000;
        let p: u128 = base as u128 * factor / 100;
        if p <= u32::MAX as u128 { p as u32 } else { u32::MAX }
    }

    /// A fresh enemy of `kind` at `home`, carrying the run's extra armour.
    pub fn hatch(&self, kind: EnemyKind, home: (i16, i16)) -> (r: Enemy)
        ensures
            r == (Enemy {
                kind,
                pos: home,
                home,
                hp: (kind.spec_hp() + self.spec_wave_armour()) as i32,
                max_hp: (kind.spec_hp() + self.spec_wave_armour()) as i32,
                state: EnemyState::Formation,
                charge: 0,
            }),
    {
        let mut e = Enemy::new(kind, home);
        let armour = self.wave_armour();
        assert(kind.spec_hp() <= 7);
        e.max_hp = e.max_hp + armour;
        e.hp = e.max_hp;
        e
    }

    pub open spec fn spec_wave_kind(&self, row: int, col: int) -> EnemyKind {
        let w = self.wave;
        if row == 0 {
            if w >= 2 && col % 3 == 1 {
                EnemyKind::GunPlatform
            } else if w >= 6 && col % 4 == 3 {
                EnemyKind::TieDefender
            } else {
                EnemyKind::TieFighter
            }
        } else if row == 1 {
            if w >= 3 && col % 4 == 2 {
                EnemyKind::TieBomber
            } else if w >= 7 && col % 5 == 4 {
                EnemyKind::MineLayer
            } else {
                EnemyKind::TieInterceptor
            }
        } else if row == 2 {
            if w >= 5 && col % 5 == 0 {
                EnemyKind::Gunboat
            } else if w >= 9 && col % 4 == 2 {
                EnemyKind::RepairDroid
            } else if w >= 6 && col % 3 == 1 {
                EnemyKind::VultureDroid
            } else {
                EnemyKind::TieFighter
            }
        } else {
            EnemyKind::BuzzDroid
        }
    }

    /// Which hull sits in a formation slot: later waves seed tougher ones, and
    /// the front row is the one that peels off and dives.
    pub fn wave_kind(&self, row: usize, col: usize) -> (r: EnemyKind)
        ensures
            r == self.spec_wave_kind(row as int, col as int),
    {
        let w = self.wave;
        if row == 0 {
            if w >= 2 && col % 3 == 1 {
                EnemyKind::GunPlatform
            } else if w >= 6 && col % 4 == 3 {
                EnemyKind::TieDefender
            } else {
                EnemyKind::TieFighter
            }
        } else if row == 1 {
            if w >= 3 && col % 4 == 2 {
                EnemyKind::TieBomber
            } else if w >= 7 && col % 5 == 4 {
                EnemyKind::MineLayer
            } else {
                EnemyKind::TieInterceptor
            }
        } else if row == 2 {
            if w >= 5 && col % 5 == 0 {
                EnemyKind::Gunboat
            } else if w >= 9 && col % 4 == 2 {
                EnemyKind::RepairDroid
            } else if w >= 6 && col % 3 == 1 {
                EnemyKind::VultureDroid
            } else {
                EnemyKind::TieFighter
            }
        } else {
            EnemyKind::BuzzDroid
        }
    }
}

} // verus!
