//! Setting a fight up: a fresh run, the sector's backdrop and rock, the
//! objective, the wave itself, and the chart and campaign that lead to it.

use vstd::prelude::*;

use super::boss::Boss;
use super::capital::Capital;
use super::consts::{BANNER_TICKS, BASE_ENERGY, BASE_X, BOSS_EVERY, COLS, DEBRIS_HP, ENEMY_GAP, EXTEND_SCORE, FORCE_MAX, FORMATION_TOP, H, MINE_FUSE, MISSILE_START, ROWS, SHIP_ROW, SHIP_TOP, STAR_LAYERS, SWAY_CADENCE, TURRETS_PER_MAP, TURRET_CADENCE, TURRET_HP, W, XP_PER_LEVEL};
use super::entities::{Debris, Loadout, Mine, Power, Star, Transport, Walker, WallTurret, Wing};
use super::game::Game;
use super::kinds::{BossKind, CapitalKind, Difficulty, EnemyKind, Formation, Galaxy, Hazard, NodeBonus, NodeKind, Objective, Planet, Region, Sector, ShipClass, Status, TerrainKind, Weapon};
use super::starmap::MapNode;
use super::terrain::Terrain;
use crate::arith::{clamp_int, sat_u32};

verus! {

/// The search for a gun emplacement on the rock `t`, drawing from the
/// generator at `rng`: each try draws a row between the top of the court and
/// the hull's band, then a side of the channel there, and takes the rock
/// cell just outside it when it is rock inside the walls; after twelve
/// failed tries it gives up. Gives the cell found and the generator after.
pub open spec fn turret_search(t: Terrain, rng: u64, tries: int) -> (Option<(i16, i16)>, u64)
    decreases 12 - tries,
{
    if tries >= 12 {
        (None, rng)
    } else {
        let a = crate::arith::lcg_next(rng);
        let b = crate::arith::lcg_next(a);
        let row = (((a >> 33) % ((SHIP_TOP - 2) as u64)) + 1) as i16;
        let ch = t.spec_channel(row);
        let col: int = if (b >> 33) & 1 == 0 { ch.0 - 1 } else { ch.1 + 1 };
        if 1 <= col < W - 1 && t.spec_solid(row, col as i16) {
            (Some((row, col as i16)), b)
        } else {
            turret_search(t, b, tries + 1)
        }
    }
}

/// The guns bolted to the rock `t` by the searches from the `k`-th on,
/// each with `hp`, drawing from `rng`; gives them and the generator after.
pub open spec fn bolted(t: Terrain, rng: u64, k: int, hp: i32) -> (Seq<WallTurret>, u64)
    decreases TURRETS_PER_MAP - k,
{
    if k >= TURRETS_PER_MAP {
        (Seq::empty(), rng)
    } else {
        let (found, next) = turret_search(t, rng, 0);
        let (rest, last) = bolted(t, next, k + 1, hp);
        (
            match found {
                Some(p) => seq![WallTurret { pos: p, hp, cooldown: TURRET_CADENCE }] + rest,
                None => rest,
            },
            last,
        )
    }
}

/// The searches bolt at most one gun each.
proof fn bolted_len(t: Terrain, rng: u64, k: int, hp: i32)
    ensures
        bolted(t, rng, k, hp).0.len() <= (if k >= TURRETS_PER_MAP { 0 } else { TURRETS_PER_MAP - k }),
    decreases TURRETS_PER_MAP - k,
{
    if k < TURRETS_PER_MAP {
        let (found, next) = turret_search(t, rng, 0);
        bolted_len(t, next, k + 1, hp);
    }
}

/// The hazards a sector sets: a gravity well in a nebula, an ion stream in
/// an ion storm or a comet trail, two flares sweeping opposite ways in a
/// solar corona, two wells in a void rift, and nothing elsewhere.
pub open spec fn hazards_for(sector: Sector, added: Seq<Hazard>) -> bool {
    match sector {
        Sector::Nebula => added.len() == 1 && added[0] is GravityWell,
        Sector::IonStorm | Sector::CometTrail => added.len() == 1 && added[0] is IonStream,
        Sector::SolarCorona => added.len() == 2 && (added[0] matches Hazard::SolarFlare { dir, .. } && dir == 1)
            && (added[1] matches Hazard::SolarFlare { dir, .. } && dir == -1),
        Sector::VoidRift => added.len() == 2 && added[0] is GravityWell && added[1] is GravityWell,
        _ => added.len() == 0,
    }
}

/// How wide the channel of `t` is on `row`.
pub open spec fn channel_span(t: Terrain, row: int) -> int {
    t.spec_channel(row as i16).1 - t.spec_channel(row as i16).0
}

/// The narrowest the channel gets over the first `rows` formation rows,
/// every other court row from the formation's top.
pub open spec fn narrowest_of(t: Terrain, rows: int) -> int
    decreases rows,
{
    if rows <= 1 {
        channel_span(t, FORMATION_TOP as int)
    } else {
        let here = channel_span(t, FORMATION_TOP + (rows - 1) * 2);
        let above = narrowest_of(t, rows - 1);
        if here < above { here } else { above }
    }
}

/// `h` is `g` with a run begun in hull `class` at `difficulty` in `galaxy`:
/// the chart open, the stock kit for that hull, and a fresh score.
pub open spec fn started(g: Game, class: ShipClass, difficulty: Difficulty, galaxy: Galaxy, h: Game) -> bool {
    &&& h.status == Status::Chart
    &&& h.class == class
    &&& h.difficulty == difficulty
    &&& h.galaxy == galaxy
    &&& h.map.galaxy == galaxy
    &&& h.lives == 3
    &&& h.score == 0
    &&& h.credits == 0
    &&& h.wave == 1
    &&& h.level == 1
    &&& h.squad@.len() == 1
    &&& h.squad@[0].class == class
    &&& h.active == 0
    &&& h.owned@ =~= seq![Weapon::LaserCannon]
    &&& h.weapon == Weapon::LaserCannon
    &&& h.weapon_level == 1
    &&& h.missiles == MISSILE_START
    &&& h.bombs == class.spec_bombs()
    &&& h.shield == h.max_shield
    &&& h.max_shield == class.spec_max_shield()
    &&& h.drones@.len() == 0
    &&& h.ship.0 == SHIP_ROW
    &&& h.ship.1 == W / 2
    &&& h.squad@[0].name@ == "Red Leader"@
    &&& h.energy == BASE_ENERGY
    &&& h.mission.is_none()
    &&& h.loadout.tiers@ =~= seq![0u32, 0u32, 0u32, 0u32, 0u32]
    &&& h.loadout.modules@.len() == 0
    &&& h.power == (Power { lasers: 2, shields: 2, engines: 2 })
    &&& h.force == FORCE_MAX / 2
    &&& h.xp == 0
    &&& h.combo == 1
    &&& h.bonus_damage == 0
    &&& h.fire_cooldown == g.fire_cooldown
    &&& h.shots == g.shots
    &&& h.drone_stun == g.drone_stun
    &&& h.enemies == g.enemies
    &&& h.enemy_shots == g.enemy_shots
}

impl Game {
    /// Commit to a hull, a difficulty and a galaxy, and park at the rim of a
    /// fresh chart: everything the last run earned is gone.
    #[verifier::rlimit(60)]
    pub fn start(&mut self, class: ShipClass, difficulty: Difficulty, galaxy: Galaxy)
        requires
            old(self).wf(),
        ensures
            final(self).wf(),
            started(*old(self), class, difficulty, galaxy, *final(self)),
    {
        self.class = class;
        self.difficulty = difficulty;
        self.galaxy = galaxy;
        self.loadout = Loadout::bare();
        self.ship = (SHIP_ROW, W / 2);
        self.weapon = Weapon::LaserCannon;
        self.weapon_level = 1;
        self.bonus_plating = 0;
        self.bonus_damage = 0;
        self.bonus_regen = 0;
        self.recompute_shield();
        self.shield = self.max_shield;
        self.bombs = class.bombs();
        self.drones.clear();
        self.squad = vec![Wing::new("Red Leader", class)];
        self.active = 0;
        self.owned = vec![Weapon::LaserCannon];
        self.missiles = MISSILE_START;
        self.power = Power::even();
        self.force = FORCE_MAX / 2;
        self.sense = 0;
        self.guided = false;
        self.chatter.clear();
        self.mission = None;
        self.campaign_at = 0;
        self.objective = Objective::Destroy;
        self.transports.clear();
        self.walkers.clear();
        self.lives = 3;
        self.score = 0;
        self.credits = 0;
        self.xp = 0;
        self.level = 1;
        self.xp_next = XP_PER_LEVEL;
        self.combo = 1;
        self.medals = 0;
        self.energy = self.max_energy();
        self.next_extend = EXTEND_SCORE;
        self.wave = 1;
        let seed = self.rand();
        self.map = super::starmap::StarMap::generate(galaxy, seed);
        let sectors = self.galaxy.sectors();
        assert(sectors@.len() > 0);
        self.node = MapNode {
            pos: (0, 0),
            region: Region::Rim,
            kind: NodeKind::Battle,
            sector: sectors[0],
            terrain: TerrainKind::Open,
            bonus: NodeBonus::Refit,
            cleared: false,
            explored: true,
        };
        // The run opens parked at the rim, reading the chart.
        self.status = Status::Chart;
    }

    /// Lay out the sector's backdrop, and whatever mines and hulks it starts
    /// with.
    pub fn dress_sector(&mut self)
        requires
            old(self).wf(),
        ensures
            *final(self) == (Game {
                stars: final(self).stars,
                mines: final(self).mines,
                debris: final(self).debris,
                rng: final(self).rng,
                ..*old(self)
            }),
            final(self).stars@.len() == STAR_LAYERS * old(self).sector.spec_backdrop(),
            final(self).mines@.len() == old(self).mines@.len() + old(self).sector.spec_starting_mines(),
            final(self).debris@.len() == old(self).debris@.len() + old(self).sector.spec_debris_blocks(),
    {
        self.stars.clear();
        let backdrop = self.sector.backdrop();
        let ghost before = *self;
        let mut layer: usize = 0;
        while layer < STAR_LAYERS
            invariant
                layer <= STAR_LAYERS,
                backdrop == old(self).sector.spec_backdrop(),
                *self == (Game { stars: self.stars, rng: self.rng, ..before }),
                self.stars@.len() == layer * backdrop,
            decreases STAR_LAYERS - layer,
        {
            let mut k: usize = 0;
            while k < backdrop
                invariant
                    k <= backdrop,
                    layer < STAR_LAYERS,
                    backdrop == old(self).sector.spec_backdrop(),
                    *self == (Game { stars: self.stars, rng: self.rng, ..before }),
                    self.stars@.len() == layer * backdrop + k,
                decreases backdrop - k,
            {
                let r = (self.rand() % H as u64) as i16;
                let c = (self.rand() % W as u64) as i16;
                self.stars.push(Star { pos: (r, c), layer });
                k = k + 1;
            }
            assert(layer * backdrop + backdrop == (layer + 1) * backdrop) by (nonlinear_arith);
            layer = layer + 1;
        }
        let mines = self.sector.starting_mines();
        let ghost mid = *self;
        let mut k: usize = 0;
        while k < mines
            invariant
                k <= mines,
                mines == old(self).sector.spec_starting_mines(),
                *self == (Game { mines: self.mines, rng: self.rng, ..mid }),
                self.mines@.len() == mid.mines@.len() + k,
            decreases mines - k,
        {
            let r = (self.rand() % (SHIP_TOP as u64 - 2)) as i16 + 2;
            let c = (self.rand() % (W as u64 - 4)) as i16 + 2;
            self.mines.push(Mine { pos: (r, c), fuse: MINE_FUSE * 3 });
            k = k + 1;
        }
        let blocks = self.sector.debris_blocks();
        let ghost mid2 = *self;
        let mut k: usize = 0;
        while k < blocks
            invariant
                k <= blocks,
                blocks == old(self).sector.spec_debris_blocks(),
                *self == (Game { debris: self.debris, rng: self.rng, ..mid2 }),
                self.debris@.len() == mid2.debris@.len() + k,
                mid2.wave <= 50_000_000,
            decreases blocks - k,
        {
            let r = (self.rand() % (SHIP_TOP as u64 - 2)) as i16 + 1;
            let c = (self.rand() % (W as u64 - 4)) as i16 + 2;
            let hp = DEBRIS_HP + self.wave_armour();
            self.debris.push(Debris { pos: (r, c), hp });
            k = k + 1;
        }
    }

    pub open spec fn spec_place(&self, slot: (i16, i16)) -> (i16, i16) {
        let (left, right) = self.terrain.spec_channel(slot.0);
        let span: int = if right - left >= 1 { right - left } else { 1 };
        let num: int = (slot.1 - 1) * span;
        // Rust's division truncates toward zero.
        let q: int = if num >= 0 { num / (W - 2) } else { -((-num) / (W - 2)) };
        (slot.0, clamp_int(left + q, left as int, right as int) as i16)
    }

    /// Squeeze a formation slot into the rock: the wave keeps its shape, but a
    /// narrow channel packs it in rather than burying half of it in the wall.
    pub fn place(&self, slot: (i16, i16)) -> (r: (i16, i16))
        requires
            self.terrain.wf(),
        ensures
            r == self.spec_place(slot),
            r.0 == slot.0,
            1 <= r.1 <= W - 2,
    {
        let (left, right) = self.terrain.channel(slot.0);
        let span: i32 = if right - left >= 1 { (right - left) as i32 } else { 1 };
        assert(-3_000_000 <= (slot.1 as i32 - 1) * span <= 3_000_000) by (nonlinear_arith)
            requires -32769 <= slot.1 as i32 - 1 <= 32766, 1 <= span <= 73;
        let num: i32 = (slot.1 as i32 - 1) * span;
        let q: i32 = if num >= 0 {
            (num as u32 / (W as u32 - 2)) as i32
        } else {
            -(((-num) as u32 / (W as u32 - 2)) as i32)
        };
        let x: i32 = left as i32 + q;
        let col: i16 = if x < left as i32 {
            left
        } else if x > right as i32 {
            right
        } else {
            x as i16
        };
        (slot.0, col)
    }

    /// Find a cell of rock with open court under it and put a gun on it:
    /// twelve tries, then give up.
    pub fn turret_on_the_rock(&mut self) -> (r: Option<WallTurret>)
        requires
            old(self).wf(),
        ensures
            *final(self) == (Game { rng: final(self).rng, ..*old(self) }),
            r matches Some(t) ==> 1 <= t.pos.0 < SHIP_TOP && 1 <= t.pos.1 < W - 1
                && old(self).terrain.spec_solid(t.pos.0, t.pos.1)
                && t.cooldown == TURRET_CADENCE,
            r matches Some(t) ==> t.hp == TURRET_HP + old(self).spec_wave_armour(),
            turret_search(old(self).terrain, old(self).rng, 0) == (match r {
                Some(t) => Some(t.pos),
                None => None,
            }, final(self).rng),
    {
        let mut tries: usize = 0;
        while tries < 12
            invariant
                tries <= 12,
                *self == (Game { rng: self.rng, ..*old(self) }),
                old(self).wf(),
                turret_search(old(self).terrain, old(self).rng, 0) == turret_search(self.terrain, self.rng, tries as int),
            decreases 12 - tries,
        {
            let row = (self.rand() % (SHIP_TOP as u64 - 2)) as i16 + 1;
            let (left, right) = self.terrain.channel(row);
            let col = if self.rand() & 1 == 0 { left - 1 } else { right + 1 };
            if 1 <= col && col < W - 1 && self.terrain.solid(row, col) {
                let hp = TURRET_HP + self.wave_armour();
                return Some(WallTurret { pos: (row, col), hp, cooldown: TURRET_CADENCE });
            }
            tries = tries + 1;
        }
        None
    }

    /// Bolt up to `TURRETS_PER_MAP` guns to the rock.
    fn bolt_turrets(&mut self)
        requires
            old(self).wf(),
        ensures
            final(self).turrets@.len() <= old(self).turrets@.len() + TURRETS_PER_MAP,
            *final(self) == (Game { turrets: final(self).turrets, rng: final(self).rng, ..*old(self) }),
            ({
                let (added, last) = bolted(old(self).terrain, old(self).rng, 0, (TURRET_HP + old(self).spec_wave_armour()) as i32);
                final(self).turrets@ == old(self).turrets@ + added && final(self).rng == last
            }),
    {
        let ghost before = *self;
        let ghost hp: i32 = (TURRET_HP + before.spec_wave_armour()) as i32;
        let mut k: usize = 0;
        proof {
            bolted_len(before.terrain, before.rng, 0, hp);
        }
        while k < TURRETS_PER_MAP
            invariant
                k <= TURRETS_PER_MAP,
                before.wf(),
                hp == TURRET_HP + before.spec_wave_armour(),
                self.turrets@.len() <= before.turrets@.len() + k,
                *self == (Game { turrets: self.turrets, rng: self.rng, ..before }),
                ({
                    let (rest, last) = bolted(before.terrain, self.rng, k as int, hp);
                    let (all, fin) = bolted(before.terrain, before.rng, 0, hp);
                    self.turrets@ + rest == before.turrets@ + all && last == fin
                }),
            decreases TURRETS_PER_MAP - k,
        {
            let ghost pre = self.turrets@;
            let ghost (rest, last) = bolted(before.terrain, self.rng, k as int, hp);
            if let Some(turret) = self.turret_on_the_rock() {
                self.turrets.push(turret);
                proof {
                    let (rest2, _) = bolted(before.terrain, self.rng, k + 1, hp);
                    assert(rest == seq![turret] + rest2);
                    assert(self.turrets@ + rest2 =~= pre + rest);
                }
            }
            k = k + 1;
        }
        proof {
            let (rest, _) = bolted(before.terrain, self.rng, k as int, hp);
            assert(rest =~= Seq::<WallTurret>::empty());
            assert(self.turrets@ + rest =~= self.turrets@);
        }
    }

    /// Set whatever the sector throws at the hull besides the rock and the
    /// wave: gravity wells, ion streams, solar flares.
    fn dress_hazards(&mut self)
        ensures
            *final(self) == (Game { hazards: final(self).hazards, rng: final(self).rng, ..*old(self) }),
            final(self).hazards@.len() >= old(self).hazards@.len(),
            final(self).hazards@.subrange(0, old(self).hazards@.len() as int) == old(self).hazards@,
            hazards_for(old(self).sector, final(self).hazards@.skip(old(self).hazards@.len() as int)),
    {
        let ghost mid = *self;
        match self.sector {
            Sector::Nebula => {
                let col = (self.rand() % (W as u64 - 8)) as i16 + 4;
                let row = (self.rand() % 6) as i16 + 3;
                self.hazards.push(Hazard::GravityWell { pos: (row, col) });
            },
            Sector::IonStorm | Sector::CometTrail => {
                let push: i16 = if self.rand() & 1 == 0 { 1 } else { -1 };
                self.hazards.push(Hazard::IonStream { push });
            },
            Sector::SolarCorona => {
                let col = (self.rand() % (W as u64 - 4)) as i16 + 2;
                self.hazards.push(Hazard::SolarFlare { col, dir: 1 });
                let col = (self.rand() % (W as u64 - 4)) as i16 + 2;
                self.hazards.push(Hazard::SolarFlare { col, dir: -1 });
            },
            Sector::VoidRift => {
                let mut k: usize = 0;
                while k < 2
                    invariant
                        k <= 2,
                        *self == (Game { hazards: self.hazards, rng: self.rng, ..mid }),
                        self.hazards@.len() == mid.hazards@.len() + k,
                        self.hazards@.subrange(0, mid.hazards@.len() as int) == mid.hazards@,
                        forall|j: int| mid.hazards@.len() <= j < self.hazards@.len() ==> #[trigger] self.hazards@[j] is GravityWell,
                    decreases 2 - k,
                {
                    let col = (self.rand() % (W as u64 - 8)) as i16 + 4;
                    let row = (self.rand() % 8) as i16 + 3;
                    self.hazards.push(Hazard::GravityWell { pos: (row, col) });
                    k = k + 1;
                }
            },
            _ => {},
        }
    }

    /// Lay the rock for the system, bolt turrets to it, and set whatever the
    /// sector throws at the hull besides.
    pub fn dress_terrain(&mut self)
        requires
            old(self).wf(),
        ensures
            final(self).wf(),
            final(self).terrain.kind == old(self).node.terrain,
            final(self).turrets@.len() <= TURRETS_PER_MAP,
            old(self).node.terrain == TerrainKind::Open ==> final(self).turrets@.len() == 0,
            *final(self) == (Game {
                terrain: final(self).terrain,
                turrets: final(self).turrets,
                hazards: final(self).hazards,
                rng: final(self).rng,
                ..*old(self)
            }),
    {
        let seed = self.rand();
        self.terrain = Terrain::new(self.node.terrain, seed);
        self.turrets.clear();
        self.hazards.clear();
        if self.node.terrain != TerrainKind::Open {
            self.bolt_turrets();
        }
        self.dress_hazards();
    }

    /// Lay out whatever the objective needs on top of the wave: the clock for
    /// a hold-out, the transports for an escort, the walkers on the deck.
    pub fn dress_objective(&mut self)
        requires
            old(self).wf(),
        ensures
            final(self).wf(),
            *final(self) == (Game {
                transports: final(self).transports,
                walkers: final(self).walkers,
                objective_ticks: final(self).objective_ticks,
                ..*old(self)
            }),
            old(self).objective matches Objective::Survive { ticks } ==> final(self).objective_ticks == ticks,
            !(old(self).objective is Survive) ==> final(self).objective_ticks == 0,
            old(self).objective matches Objective::Escort { needed } ==> final(self).transports@.len() == needed + 1,
            !(old(self).objective is Escort) ==> final(self).transports@.len() == 0,
            old(self).objective matches Objective::Walkers { count } ==> final(self).walkers@.len() == count,
            !(old(self).objective is Walkers) ==> final(self).walkers@.len() == 0,
    {
        self.transports.clear();
        self.walkers.clear();
        self.objective_ticks = 0;
        let armour = self.wave_armour();
        let ghost before = *self;
        match self.objective {
            Objective::Survive { ticks } => self.objective_ticks = ticks,
            Objective::Escort { needed } => {
                let mut i: usize = 0;
                while i < needed + 1
                    invariant
                        i <= needed + 1,
                        needed <= 100,
                        0 <= armour <= 20_000_000,
                        self.transports@.len() == i,
                        *self == (Game { transports: self.transports, ..before }),
                    decreases needed + 1 - i,
                {
                    let row: i16 = SHIP_TOP - 2 - (i % 3) as i16;
                    let col: i16 = 4 + i as i16 * 6;
                    let col = if col <= W - 3 { col } else { W - 3 };
                    self.transports.push(Transport { pos: (row, col), hp: 18 + armour * 3, away: false });
                    i = i + 1;
                }
            },
            Objective::Walkers { count } => {
                let mut i: usize = 0;
                while i < count
                    invariant
                        i <= count,
                        count <= 100,
                        0 <= armour <= 20_000_000,
                        self.walkers@.len() == i,
                        *self == (Game { walkers: self.walkers, ..before }),
                    decreases count - i,
                {
                    let col: i16 = 8 + i as i16 * 18;
                    let col = if col <= W - 6 { col } else { W - 6 };
                    let walker = Walker::new((H - 3, col), armour);
                    self.walkers.push(walker);
                    i = i + 1;
                }
            },
            _ => {},
        }
    }

    /// Hand over whatever the chosen stop was carrying: a cache of salvage, a
    /// gun, or a refit. A danger run pays through its kills instead.
    pub fn claim_node_bonus(&mut self)
        requires
            old(self).wf(),
        ensures
            final(self).wf(),
            old(self).node.bonus matches NodeBonus::Cache(c) ==> final(self).credits == sat_u32(old(self).credits + c),
            old(self).node.bonus matches NodeBonus::Armoury(w) ==> final(self).weapon == w
                && final(self).owned@.contains(w)
                && final(self).weapon_level == (if old(self).weapon_level >= 2 { old(self).weapon_level } else { 2 }),
            old(self).node.bonus == NodeBonus::Refit ==> final(self).shield == old(self).max_shield
                && final(self).bombs == sat_u32(old(self).bombs + 1),
            old(self).node.bonus == NodeBonus::Danger ==> *final(self) == *old(self),
            final(self).credits >= old(self).credits,
            *final(self) == (Game {
                credits: final(self).credits,
                weapon: final(self).weapon,
                owned: final(self).owned,
                weapon_level: final(self).weapon_level,
                shield: final(self).shield,
                bombs: final(self).bombs,
                ..*old(self)
            }),
    {
        match self.node.bonus {
            NodeBonus::Cache(credits) => self.credits = self.credits.saturating_add(credits),
            NodeBonus::Armoury(weapon) => {
                self.stock_gun(weapon);
                if self.weapon_level < 2 {
                    self.weapon_level = 2;
                }
            },
            NodeBonus::Refit => {
                self.shield = self.max_shield;
                self.bombs = self.bombs.saturating_add(1);
            },
            NodeBonus::Danger => {},
        }
    }

    /// Put a fresh hull of `kind` on the court at every third (or second)
    /// formation column, on row `row`.
    fn escort(&mut self, kind: EnemyKind, row: i16, step: usize)
        requires
            old(self).wf(),
            step == 2 || step == 3,
            row == FORMATION_TOP + 5 || row == FORMATION_TOP + 9,
        ensures
            *final(self) == (Game { enemies: final(self).enemies, ..*old(self) }),
            final(self).enemies@.len() > old(self).enemies@.len(),
            final(self).enemies@.len() == old(self).enemies@.len() + (if step == 3 { 4int } else { 6int }),
            final(self).enemies@.subrange(0, old(self).enemies@.len() as int) == old(self).enemies@,
            forall|k: int| old(self).enemies@.len() <= k < final(self).enemies@.len() ==> (#[trigger] final(self).enemies@[k]).kind == kind,
    {
        let ghost before = *self;
        let mut col: usize = 0;
        while col < COLS
            invariant
                col <= COLS + 2,
                before.wf(),
                step == 2 || step == 3,
                row == FORMATION_TOP + 5 || row == FORMATION_TOP + 9,
                *self == (Game { enemies: self.enemies, ..before }),
                col > 0 ==> self.enemies@.len() > before.enemies@.len(),
                self.enemies@.len() >= before.enemies@.len(),
                col % step == 0,
                step == 2 ==> col <= COLS,
                self.enemies@.len() == before.enemies@.len() + col / step,
                self.enemies@.subrange(0, before.enemies@.len() as int) == before.enemies@,
                forall|k: int| before.enemies@.len() <= k < self.enemies@.len() ==> (#[trigger] self.enemies@[k]).kind == kind,
            decreases COLS + 2 - col,
        {
            let home = self.place((row, BASE_X + col as i16 * ENEMY_GAP));
            let hull = self.hatch(kind, home);
            self.enemies.push(hull);
            assert((col + step) as int / step as int == col as int / step as int + 1 && (col + step) as int % step as int == 0) by (nonlinear_arith)
                requires
                    col % step == 0,
                    step == 2 || step == 3,
            ;
            col = col + step;
        }
        assert(col as int / step as int == (if step == 3 { 4int } else { 6int })) by (nonlinear_arith)
            requires
                col % step == 0,
                step == 2 ==> col <= 12,
                12 <= col <= 14,
                step == 2 || step == 3,
        ;
    }

    /// The narrowest channel across the first `rows` formation rows.
    fn narrowest(&self, rows: usize) -> (r: i16)
        requires
            self.terrain.wf(),
            1 <= rows <= ROWS,
        ensures
            0 <= r <= W - 3,
            r == narrowest_of(self.terrain, rows as int),
    {
        let (l0, r0) = self.terrain.channel(FORMATION_TOP);
        let mut span: i16 = r0 - l0;
        let mut r: usize = 1;
        while r < rows
            invariant
                1 <= r <= rows,
                rows <= ROWS,
                0 <= span <= W - 3,
                self.terrain.wf(),
                span == narrowest_of(self.terrain, r as int),
            decreases rows - r,
        {
            let (l, right) = self.terrain.channel(FORMATION_TOP + r as i16 * 2);
            if right - l < span {
                span = right - l;
            }
            r = r + 1;
        }
        span
    }

    /// Build the current wave for the system in front of the hull: a capital
    /// ship with a fighter screen, a boss with an escort, or a formation in the
    /// wave's shape squeezed into the channel. Everything left over from the
    /// last fight is cleared away first.
    pub fn spawn_wave(&mut self)
        requires
            old(self).wf(),
        ensures
            final(self).wf(),
            final(self).status == old(self).status,
            final(self).wave == old(self).wave,
            final(self).node == old(self).node,
            final(self).class == old(self).class,
            final(self).difficulty == old(self).difficulty,
            final(self).galaxy == old(self).galaxy,
            final(self).mission == old(self).mission,
            final(self).campaign_at == old(self).campaign_at,
            final(self).objective == old(self).objective,
            final(self).credits >= old(self).credits,
            final(self).ship == old(self).ship,
            final(self).lives == old(self).lives,
            final(self).drone_stun == old(self).drone_stun,
            final(self).max_shield == old(self).max_shield,
            final(self).map == old(self).map,
            final(self).sector == old(self).node.sector,
            final(self).planet == Planet::spec_of_sector(old(self).node.sector),
            final(self).formation == Formation::spec_of_wave(old(self).wave),
            final(self).shots@.len() == 0,
            final(self).enemy_shots@.len() == 0,
            final(self).powerups@.len() == 0,
            final(self).asteroids@.len() == 0,
            final(self).terrain.kind == old(self).node.terrain,
            final(self).enemies@.len() > 0,
            old(self).node.kind == NodeKind::Capital ==> final(self).capital is Some && final(self).boss is None,
            old(self).node.kind == NodeKind::Capital ==> {
                &&& final(self).capital->0.kind == (if old(self).node.terrain == TerrainKind::Trench {
                    CapitalKind::DeathStar
                } else if old(self).node.region.spec_band() >= 4 {
                    CapitalKind::SuperDestroyer
                } else if old(self).node.region.spec_band() >= 2 {
                    CapitalKind::StarDestroyer
                } else {
                    CapitalKind::ImperialFrigate
                })
                &&& final(self).enemies@.len() == 4
                &&& forall|k: int| 0 <= k < 4 ==> (#[trigger] final(self).enemies@[k]).kind == EnemyKind::TieAdvanced
            },
            old(self).node.kind == NodeKind::Boss ==> final(self).boss is Some && final(self).capital is None,
            old(self).node.kind != NodeKind::Capital && old(self).node.kind != NodeKind::Boss ==> {
                &&& final(self).capital is None
                &&& final(self).boss is None
                &&& final(self).enemies@.len() >= 8
            },
    {
        self.enemies.clear();
        self.boss = None;
        self.capital = None;
        self.shots.clear();
        self.enemy_shots.clear();
        self.powerups.clear();
        self.mines.clear();
        self.asteroids.clear();
        self.debris.clear();
        self.sway_x = 0;
        self.sway_dir = 1;
        self.sway_counter = SWAY_CADENCE;
        self.sector = self.node.sector;
        self.formation = Formation::of_wave(self.wave);
        self.banner = BANNER_TICKS;
        let arrival = match self.node.kind {
            NodeKind::Capital => "Heavy contact. That is no moon.",
            NodeKind::Boss => "Watch it — that one flies like he means it.",
            NodeKind::Elite => "Elite squadron on the scope. Lock S-foils.",
            _ => "All wings report in. Stay on target.",
        };
        self.say(arrival);
        self.planet = Planet::of_sector(self.sector);
        self.dress_sector();
        self.dress_terrain();
        self.dress_objective();
        self.claim_node_bonus();
        if self.node.kind == NodeKind::Capital {
            // A trench means a battlestation; open plating means a wedge, and
            // the rim only ever fields a picket.
            let kind = if self.node.terrain == TerrainKind::Trench {
                CapitalKind::DeathStar
            } else if self.node.region.band() >= Region::Deep.band() {
                CapitalKind::SuperDestroyer
            } else if self.node.region.band() >= Region::Reach.band() {
                CapitalKind::StarDestroyer
            } else {
                CapitalKind::ImperialFrigate
            };
            let armour = self.wave_armour();
            let capital = Capital::new(kind, armour, 40 * self.wave as i32);
            self.capital = Some(capital);
            // A screen of fighters comes out with it.
            self.escort(EnemyKind::TieAdvanced, FORMATION_TOP + 9, 3);
            return;
        }
        if self.node.kind == NodeKind::Boss {
            let kind = BossKind::of_wave(self.wave);
            let hp: i32 = 60 + 40 * (self.wave / BOSS_EVERY) as i32 + 20 * self.wave_armour();
            self.boss = Some(Boss::new(kind, hp));
            self.escort(EnemyKind::BuzzDroid, FORMATION_TOP + 5, 2);
            return;
        }
        // Later waves come deeper as well as tougher, but a tight map fields a
        // narrower wave: there is only so much room between the rock.
        let deep: usize = 2 + (self.wave / 3) as usize + self.galaxy.swarm();
        let rows: usize = if deep <= ROWS { deep } else { ROWS };
        let span = self.narrowest(rows);
        let wide: usize = COLS * (span as usize) / (W as usize - 2);
        let lanes: usize = if wide < 4 { 4 } else if wide > COLS { COLS } else { wide };
        let ghost before = *self;
        let mut row: usize = 0;
        while row < rows
            invariant
                row <= rows,
                2 <= rows <= ROWS,
                4 <= lanes <= COLS,
                before.wf(),
                *self == (Game { enemies: self.enemies, ..before }),
                self.enemies@.len() == row * lanes,
            decreases rows - row,
        {
            let mut col: usize = 0;
            while col < lanes
                invariant
                    col <= lanes,
                    row < rows,
                    2 <= rows <= ROWS,
                    4 <= lanes <= COLS,
                    before.wf(),
                    *self == (Game { enemies: self.enemies, ..before }),
                    self.enemies@.len() == row * lanes + col,
                decreases lanes - col,
            {
                let kind = self.wave_kind(row, col);
                let slot = self.formation.slot(row, col);
                let home = self.place(slot);
                let hull = self.hatch(kind, home);
                self.enemies.push(hull);
                col = col + 1;
            }
            assert(row * lanes + lanes == (row + 1) * lanes) by (nonlinear_arith);
            row = row + 1;
        }
        assert(rows * lanes >= 8) by (nonlinear_arith)
            requires rows >= 2, lanes >= 4;
    }
}

} // verus!
