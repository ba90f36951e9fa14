//! The things the Nova court is built from: hulls, guns, enemies, sectors, the
//! hangar's stock and the chart's systems, each with the numbers it plays by.

use vstd::prelude::*;

use super::consts::{ASTEROID_CHANCE, BASE_X, BOSS_EVERY, COLS, DROP_CHANCE, ENEMY_GAP, FORMATION_TOP, GUIDED_COST, H, PULL_COST, SENSE_COST, W};

verus! {

/// How hard the run is, chosen on the picker.
#[derive(Clone, Copy, PartialEq, Eq, Debug, Structural)]
pub enum Difficulty {
    Normal,
    Hard,
    Insane,
}

impl Difficulty {
    pub const ALL: [Difficulty; 3] = [Difficulty::Normal, Difficulty::Hard, Difficulty::Insane];

    pub open spec fn spec_name(self) -> &'static str {
        match self {
            Difficulty::Normal => "Normal",
            Difficulty::Hard => "Hard",
            Difficulty::Insane => "Insane",
        }
    }

    #[verifier::when_used_as_spec(spec_name)]
    pub fn name(self) -> (r: &'static str)
        ensures r == self.spec_name(),
    {
        match self {
            Difficulty::Normal => "Normal",
            Difficulty::Hard => "Hard",
            Difficulty::Insane => "Insane",
        }
    }

    pub open spec fn spec_armour(self) -> i32 {
        match self {
            Difficulty::Normal => 0,
            Difficulty::Hard => 1,
            Difficulty::Insane => 2,
        }
    }

    /// Extra hit points every enemy hull carries.
    #[verifier::when_used_as_spec(spec_armour)]
    pub fn armour(self) -> (r: i32)
        ensures r == self.spec_armour(),
    {
        match self {
            Difficulty::Normal => 0,
            Difficulty::Hard => 1,
            Difficulty::Insane => 2,
        }
    }

    pub open spec fn spec_aggression(self) -> u64 {
        match self {
            Difficulty::Normal => 1,
            Difficulty::Hard => 2,
            Difficulty::Insane => 3,
        }
    }

    /// Divides the 1-in-N odds of enemies shooting, diving and spawning, so a
    /// harder run means a busier court.
    #[verifier::when_used_as_spec(spec_aggression)]
    pub fn aggression(self) -> (r: u64)
        ensures r == self.spec_aggression(),
    {
        match self {
            Difficulty::Normal => 1,
            Difficulty::Hard => 2,
            Difficulty::Insane => 3,
        }
    }

    pub open spec fn spec_score_bonus(self) -> u32 {
        match self {
            Difficulty::Normal => 1,
            Difficulty::Hard => 2,
            Difficulty::Insane => 3,
        }
    }

    /// Everything scored is multiplied by this.
    #[verifier::when_used_as_spec(spec_score_bonus)]
    pub fn score_bonus(self) -> (r: u32)
        ensures r == self.spec_score_bonus(),
    {
        match self {
            Difficulty::Normal => 1,
            Difficulty::Hard => 2,
            Difficulty::Insane => 3,
        }
    }

}

/// The trick each hull carries, paid for with energy.
#[derive(Clone, Copy, PartialEq, Eq, Debug, Structural)]
pub enum Special {
    /// Teleport several columns the way you were flying, landing invulnerable.
    Boost,
    /// A bubble that eats every shot that reaches the hull for a while.
    Deflectors,
    /// A wall of bolts laid across the whole court at once.
    ProtonSalvo,
}

impl Special {
    pub open spec fn spec_name(self) -> &'static str {
        match self {
            Special::Boost => "engine boost",
            Special::Deflectors => "deflectors",
            Special::ProtonSalvo => "proton salvo",
        }
    }

    #[verifier::when_used_as_spec(spec_name)]
    pub fn name(self) -> (r: &'static str)
        ensures r == self.spec_name(),
    {
        match self {
            Special::Boost => "engine boost",
            Special::Deflectors => "deflectors",
            Special::ProtonSalvo => "proton salvo",
        }
    }

}

/// The three hulls, trading speed and rate of fire against armour and damage.
#[derive(Clone, Copy, PartialEq, Eq, Debug, Structural)]
pub enum ShipClass {
    AWing,
    XWing,
    YWing,
    BWing,
    Freighter,
}

impl ShipClass {
    pub const ALL: [ShipClass; 5] = [
        ShipClass::AWing,
        ShipClass::XWing,
        ShipClass::YWing,
        ShipClass::BWing,
        ShipClass::Freighter,
    ];

    pub open spec fn spec_name(self) -> &'static str {
        match self {
            ShipClass::AWing => "A-wing",
            ShipClass::XWing => "X-wing",
            ShipClass::YWing => "Y-wing",
            ShipClass::BWing => "B-wing",
            ShipClass::Freighter => "Corellian freighter",
        }
    }

    #[verifier::when_used_as_spec(spec_name)]
    pub fn name(self) -> (r: &'static str)
        ensures r == self.spec_name(),
    {
        match self {
            ShipClass::AWing => "A-wing",
            ShipClass::XWing => "X-wing",
            ShipClass::YWing => "Y-wing",
            ShipClass::BWing => "B-wing",
            ShipClass::Freighter => "Corellian freighter",
        }
    }

    pub open spec fn spec_glyph(self) -> &'static str {
        match self {
            ShipClass::AWing => "▴",
            ShipClass::XWing => "✕",
            ShipClass::YWing => "⋏",
            ShipClass::BWing => "⌖",
            ShipClass::Freighter => "◙",
        }
    }

    #[verifier::when_used_as_spec(spec_glyph)]
    pub fn glyph(self) -> (r: &'static str)
        ensures r == self.spec_glyph(),
    {
        match self {
            ShipClass::AWing => "▴",
            ShipClass::XWing => "✕",
            ShipClass::YWing => "⋏",
            ShipClass::BWing => "⌖",
            ShipClass::Freighter => "◙",
        }
    }

    pub open spec fn spec_sprite(self) -> [&'static str; 2] {
        match self {
            ShipClass::AWing => [" ▲ ", "╘═╛"],
            ShipClass::XWing => ["╲▲╱", "╱█╲"],
            ShipClass::YWing => ["┳▲┳", "╹█╹"],
            ShipClass::BWing => [" ┃ ", "━█━"],
            ShipClass::Freighter => ["╭◙╮", "╰─╯"],
        }
    }

    /// The hull as it is actually drawn: three cells across, two rows deep,
    /// centred on the cell the game tracks. An X-wing has its S-foils out, a
    /// Y-wing its engine nacelles, a B-wing its cross, and so on.
    #[verifier::when_used_as_spec(spec_sprite)]
    pub fn sprite(self) -> (r: [&'static str; 2])
        ensures r == self.spec_sprite(),
    {
        match self {
            ShipClass::AWing => [" ▲ ", "╘═╛"],
            ShipClass::XWing => ["╲▲╱", "╱█╲"],
            ShipClass::YWing => ["┳▲┳", "╹█╹"],
            ShipClass::BWing => [" ┃ ", "━█━"],
            ShipClass::Freighter => ["╭◙╮", "╰─╯"],
        }
    }

    pub open spec fn spec_speed(self) -> i16 {
        match self {
            ShipClass::AWing | ShipClass::Freighter => 2,
            _ => 1,
        }
    }

    /// Columns the hull slides per keypress before the engine is upgraded.
    #[verifier::when_used_as_spec(spec_speed)]
    pub fn speed(self) -> (r: i16)
        ensures r == self.spec_speed(),
    {
        match self {
            ShipClass::AWing | ShipClass::Freighter => 2,
            _ => 1,
        }
    }

    pub open spec fn spec_max_shield(self) -> u32 {
        match self {
            ShipClass::AWing => 1,
            ShipClass::XWing => 2,
            ShipClass::BWing => 3,
            ShipClass::YWing => 4,
            ShipClass::Freighter => 5,
        }
    }

    /// Shield pips it soaks before a hit costs a life.
    #[verifier::when_used_as_spec(spec_max_shield)]
    pub fn max_shield(self) -> (r: u32)
        ensures r == self.spec_max_shield(),
    {
        match self {
            ShipClass::AWing => 1,
            ShipClass::XWing => 2,
            ShipClass::BWing => 3,
            ShipClass::YWing => 4,
            ShipClass::Freighter => 5,
        }
    }

    pub open spec fn spec_fire_cadence(self) -> u32 {
        match self {
            ShipClass::AWing | ShipClass::Freighter => 2,
            ShipClass::XWing | ShipClass::BWing => 3,
            ShipClass::YWing => 4,
        }
    }

    /// Ticks between shots before the magazine is upgraded.
    #[verifier::when_used_as_spec(spec_fire_cadence)]
    pub fn fire_cadence(self) -> (r: u32)
        ensures r == self.spec_fire_cadence(),
    {
        match self {
            ShipClass::AWing | ShipClass::Freighter => 2,
            ShipClass::XWing | ShipClass::BWing => 3,
            ShipClass::YWing => 4,
        }
    }

    pub open spec fn spec_damage(self) -> i32 {
        match self {
            ShipClass::AWing => 1,
            ShipClass::XWing | ShipClass::Freighter => 2,
            ShipClass::YWing => 3,
            ShipClass::BWing => 4,
        }
    }

    /// Damage each of its shots carries at gun level one.
    #[verifier::when_used_as_spec(spec_damage)]
    pub fn damage(self) -> (r: i32)
        ensures r == self.spec_damage(),
    {
        match self {
            ShipClass::AWing => 1,
            ShipClass::XWing | ShipClass::Freighter => 2,
            ShipClass::YWing => 3,
            ShipClass::BWing => 4,
        }
    }

    pub open spec fn spec_bombs(self) -> u32 {
        match self {
            ShipClass::AWing => 2,
            ShipClass::XWing | ShipClass::BWing => 3,
            ShipClass::YWing => 4,
            ShipClass::Freighter => 5,
        }
    }

    /// Smart bombs it launches with.
    #[verifier::when_used_as_spec(spec_bombs)]
    pub fn bombs(self) -> (r: u32)
        ensures r == self.spec_bombs(),
    {
        match self {
            ShipClass::AWing => 2,
            ShipClass::XWing | ShipClass::BWing => 3,
            ShipClass::YWing => 4,
            ShipClass::Freighter => 5,
        }
    }

    pub open spec fn spec_special(self) -> Special {
        match self {
            ShipClass::AWing => Special::Boost,
            ShipClass::XWing | ShipClass::Freighter => Special::Deflectors,
            ShipClass::YWing | ShipClass::BWing => Special::ProtonSalvo,
        }
    }

    #[verifier::when_used_as_spec(spec_special)]
    pub fn special(self) -> (r: Special)
        ensures r == self.spec_special(),
    {
        match self {
            ShipClass::AWing => Special::Boost,
            ShipClass::XWing | ShipClass::Freighter => Special::Deflectors,
            ShipClass::YWing | ShipClass::BWing => Special::ProtonSalvo,
        }
    }

    pub open spec fn spec_blurb(self) -> &'static str {
        match self {
            ShipClass::AWing => "fastest thing in the fleet, no armour; boosts across the court",
            ShipClass::XWing => "the workhorse: S-foils locked, deflectors that eat fire",
            ShipClass::YWing => "slow armoured bomber, four shield pips; lays a proton salvo",
            ShipClass::BWing => "heavy assault: the hardest-hitting cannons in the fleet",
            ShipClass::Freighter => {
                "a light freighter with a full bomb bay; she has it where it counts"
            }
        }
    }

    #[verifier::when_used_as_spec(spec_blurb)]
    pub fn blurb(self) -> (r: &'static str)
        ensures r == self.spec_blurb(),
    {
        match self {
            ShipClass::AWing => "fastest thing in the fleet, no armour; boosts across the court",
            ShipClass::XWing => "the workhorse: S-foils locked, deflectors that eat fire",
            ShipClass::YWing => "slow armoured bomber, four shield pips; lays a proton salvo",
            ShipClass::BWing => "heavy assault: the hardest-hitting cannons in the fleet",
            ShipClass::Freighter => {
                "a light freighter with a full bomb bay; she has it where it counts"
            }
        }
    }

}

/// A component of the ship, upgraded tier by tier in the hangar.
#[derive(Clone, Copy, PartialEq, Eq, Debug, Structural)]
pub enum Part {
    /// Columns the hull covers per keypress.
    Engine,
    /// Energy capacity and regeneration.
    Reactor,
    /// Shield pips.
    Plating,
    /// Damage on every shot.
    Cannon,
    /// Ticks between shots.
    Magazine,
}

impl Part {
    pub const ALL: [Part; 5] = [
        Part::Engine,
        Part::Reactor,
        Part::Plating,
        Part::Cannon,
        Part::Magazine,
    ];

    pub open spec fn spec_name(self) -> &'static str {
        match self {
            Part::Engine => "sublight engines",
            Part::Reactor => "power core",
            Part::Plating => "deflector plating",
            Part::Cannon => "laser cannons",
            Part::Magazine => "capacitors",
        }
    }

    #[verifier::when_used_as_spec(spec_name)]
    pub fn name(self) -> (r: &'static str)
        ensures r == self.spec_name(),
    {
        match self {
            Part::Engine => "sublight engines",
            Part::Reactor => "power core",
            Part::Plating => "deflector plating",
            Part::Cannon => "laser cannons",
            Part::Magazine => "capacitors",
        }
    }

    pub open spec fn spec_detail(self) -> &'static str {
        match self {
            Part::Engine => "+1 column of thrust every two tiers",
            Part::Reactor => "+1 energy per tick and +10 capacity per tier",
            Part::Plating => "+1 shield pip per tier",
            Part::Cannon => "+1 damage per tier",
            Part::Magazine => "-1 tick between shots every two tiers",
        }
    }

    #[verifier::when_used_as_spec(spec_detail)]
    pub fn detail(self) -> (r: &'static str)
        ensures r == self.spec_detail(),
    {
        match self {
            Part::Engine => "+1 column of thrust every two tiers",
            Part::Reactor => "+1 energy per tick and +10 capacity per tier",
            Part::Plating => "+1 shield pip per tier",
            Part::Cannon => "+1 damage per tier",
            Part::Magazine => "-1 tick between shots every two tiers",
        }
    }

}

/// A permanent bolt-on bought once.
#[derive(Clone, Copy, PartialEq, Eq, Debug, Structural)]
pub enum Module {
    /// Pickups drift toward the ship.
    Magnet,
    /// One tick shaved off the firing cadence.
    Autoloader,
    /// Half again as much salvage from every kill.
    Salvager,
    /// A shield pip handed back every few seconds.
    RepairBay,
    /// The hull special costs a third less energy.
    Overdrive,
}

impl Module {
    pub const ALL: [Module; 5] = [
        Module::Magnet,
        Module::Autoloader,
        Module::Salvager,
        Module::RepairBay,
        Module::Overdrive,
    ];

    pub open spec fn spec_name(self) -> &'static str {
        match self {
            Module::Magnet => "magnetic scoop",
            Module::Autoloader => "servo loader",
            Module::Salvager => "salvage droid",
            Module::RepairBay => "R-unit astromech",
            Module::Overdrive => "power converter",
        }
    }

    #[verifier::when_used_as_spec(spec_name)]
    pub fn name(self) -> (r: &'static str)
        ensures r == self.spec_name(),
    {
        match self {
            Module::Magnet => "magnetic scoop",
            Module::Autoloader => "servo loader",
            Module::Salvager => "salvage droid",
            Module::RepairBay => "R-unit astromech",
            Module::Overdrive => "power converter",
        }
    }

    pub open spec fn spec_detail(self) -> &'static str {
        match self {
            Module::Magnet => "pickups drift toward the hull",
            Module::Autoloader => "-1 tick between shots",
            Module::Salvager => "+50% salvage from every kill",
            Module::RepairBay => "a shield pip back every 300 ticks",
            Module::Overdrive => "the special costs a third less energy",
        }
    }

    #[verifier::when_used_as_spec(spec_detail)]
    pub fn detail(self) -> (r: &'static str)
        ensures r == self.spec_detail(),
    {
        match self {
            Module::Magnet => "pickups drift toward the hull",
            Module::Autoloader => "-1 tick between shots",
            Module::Salvager => "+50% salvage from every kill",
            Module::RepairBay => "a shield pip back every 300 ticks",
            Module::Overdrive => "the special costs a third less energy",
        }
    }

    pub open spec fn spec_price(self) -> u32 {
        match self {
            Module::Salvager => 600,
            Module::Magnet => 700,
            Module::Overdrive => 800,
            Module::Autoloader => 900,
            Module::RepairBay => 1000,
        }
    }

    #[verifier::when_used_as_spec(spec_price)]
    pub fn price(self) -> (r: u32)
        ensures r == self.spec_price(),
    {
        match self {
            Module::Salvager => 600,
            Module::Magnet => 700,
            Module::Overdrive => 800,
            Module::Autoloader => 900,
            Module::RepairBay => 1000,
        }
    }

}

/// The five guns. Every one has three levels; a matching pickup upgrades the
/// gun you carry, a different one swaps it out.
#[derive(Clone, Copy, PartialEq, Eq, Debug, Structural)]
pub enum Weapon {
    LaserCannon,
    QuadLaser,
    HeavyLaser,
    ConcussionMissile,
    ProtonBomb,
    /// A stuttering machine gun: little rounds, almost no gap between them.
    RepeatingBlaster,
    /// Dumb-fire rockets that blow a hole where they land.
    RocketPod,
    /// Shells that burst into a fan of fragments part way up the court.
    Flechette,
    /// One slow, enormous piercing slug.
    MassDriver,
    /// A bolt that jumps from hull to hull.
    ArcCaster,
    /// Proton torpedoes: slow, few, and they take a battery off a capital hull
    /// in one go.
    ProtonTorpedo,
    /// An ion cannon: it scrambles emplacements instead of breaking them, and a
    /// scrambled shield dome is a hull that can be shot.
    IonCannon,
    /// A tow cable: useless against fighters, and the only thing that will put
    /// a walker on its side.
    TowCable,
}

impl Weapon {
    pub const ALL: [Weapon; 13] = [
        Weapon::LaserCannon,
        Weapon::QuadLaser,
        Weapon::HeavyLaser,
        Weapon::ConcussionMissile,
        Weapon::ProtonBomb,
        Weapon::RepeatingBlaster,
        Weapon::RocketPod,
        Weapon::Flechette,
        Weapon::MassDriver,
        Weapon::ArcCaster,
        Weapon::ProtonTorpedo,
        Weapon::IonCannon,
        Weapon::TowCable,
    ];

    pub open spec fn spec_name(self) -> &'static str {
        match self {
            Weapon::LaserCannon => "laser cannon",
            Weapon::QuadLaser => "quad laser",
            Weapon::HeavyLaser => "heavy laser",
            Weapon::ConcussionMissile => "concussion missile",
            Weapon::ProtonBomb => "proton bomb",
            Weapon::RepeatingBlaster => "repeating blaster",
            Weapon::RocketPod => "rocket pod",
            Weapon::Flechette => "flechette",
            Weapon::MassDriver => "mass driver",
            Weapon::ArcCaster => "arc caster",
            Weapon::ProtonTorpedo => "proton torpedo",
            Weapon::IonCannon => "ion cannon",
            Weapon::TowCable => "tow cable",
        }
    }

    #[verifier::when_used_as_spec(spec_name)]
    pub fn name(self) -> (r: &'static str)
        ensures r == self.spec_name(),
    {
        match self {
            Weapon::LaserCannon => "laser cannon",
            Weapon::QuadLaser => "quad laser",
            Weapon::HeavyLaser => "heavy laser",
            Weapon::ConcussionMissile => "concussion missile",
            Weapon::ProtonBomb => "proton bomb",
            Weapon::RepeatingBlaster => "repeating blaster",
            Weapon::RocketPod => "rocket pod",
            Weapon::Flechette => "flechette",
            Weapon::MassDriver => "mass driver",
            Weapon::ArcCaster => "arc caster",
            Weapon::ProtonTorpedo => "proton torpedo",
            Weapon::IonCannon => "ion cannon",
            Weapon::TowCable => "tow cable",
        }
    }

    pub open spec fn spec_cadence_shift(self) -> i32 {
        match self {
            Weapon::RepeatingBlaster => -2i32,
            Weapon::LaserCannon | Weapon::QuadLaser => 0,
            Weapon::HeavyLaser | Weapon::ArcCaster => 1,
            Weapon::ConcussionMissile | Weapon::ProtonBomb | Weapon::Flechette => 2,
            Weapon::RocketPod | Weapon::IonCannon => 3,
            Weapon::TowCable => 5,
            Weapon::ProtonTorpedo => 8,
            Weapon::MassDriver => 6,
        }
    }

    /// Ticks added to (or shaved off) the hull's firing cadence: a vulcan
    /// hoses, a rail gun takes its time.
    #[verifier::when_used_as_spec(spec_cadence_shift)]
    pub fn cadence_shift(self) -> (r: i32)
        ensures r == self.spec_cadence_shift(),
    {
        match self {
            Weapon::RepeatingBlaster => -2,
            Weapon::LaserCannon | Weapon::QuadLaser => 0,
            Weapon::HeavyLaser | Weapon::ArcCaster => 1,
            Weapon::ConcussionMissile | Weapon::ProtonBomb | Weapon::Flechette => 2,
            Weapon::RocketPod | Weapon::IonCannon => 3,
            Weapon::TowCable => 5,
            Weapon::ProtonTorpedo => 8,
            Weapon::MassDriver => 6,
        }
    }

    pub open spec fn spec_tag(self) -> &'static str {
        match self {
            Weapon::LaserCannon => "B",
            Weapon::QuadLaser => "S",
            Weapon::HeavyLaser => "L",
            Weapon::ConcussionMissile => "H",
            Weapon::ProtonBomb => "P",
            Weapon::RepeatingBlaster => "V",
            Weapon::RocketPod => "R",
            Weapon::Flechette => "F",
            Weapon::MassDriver => "X",
            Weapon::ArcCaster => "A",
            Weapon::ProtonTorpedo => "T",
            Weapon::IonCannon => "I",
            Weapon::TowCable => "C",
        }
    }

    /// The single letter its pickup shows on the court.
    #[verifier::when_used_as_spec(spec_tag)]
    pub fn tag(self) -> (r: &'static str)
        ensures r == self.spec_tag(),
    {
        match self {
            Weapon::LaserCannon => "B",
            Weapon::QuadLaser => "S",
            Weapon::HeavyLaser => "L",
            Weapon::ConcussionMissile => "H",
            Weapon::ProtonBomb => "P",
            Weapon::RepeatingBlaster => "V",
            Weapon::RocketPod => "R",
            Weapon::Flechette => "F",
            Weapon::MassDriver => "X",
            Weapon::ArcCaster => "A",
            Weapon::ProtonTorpedo => "T",
            Weapon::IonCannon => "I",
            Weapon::TowCable => "C",
        }
    }

}

/// What a shot looks like, and by extension how it reads on the court.
#[derive(Clone, Copy, PartialEq, Eq, Debug, Structural)]
pub enum ShotKind {
    Bolt,
    Beam,
    Missile,
    Plasma,
    Rocket,
    Flak,
    Rail,
    Arc,
    Cable,
    Enemy,
}

impl ShotKind {
    pub open spec fn spec_glyph(self) -> &'static str {
        match self {
            ShotKind::Bolt => "|",
            ShotKind::Beam => "┃",
            ShotKind::Missile => "↟",
            ShotKind::Plasma => "◍",
            ShotKind::Rocket => "⇈",
            ShotKind::Flak => "✱",
            ShotKind::Rail => "║",
            ShotKind::Arc => "≈",
            ShotKind::Cable => "═",
            ShotKind::Enemy => "!",
        }
    }

    #[verifier::when_used_as_spec(spec_glyph)]
    pub fn glyph(self) -> (r: &'static str)
        ensures r == self.spec_glyph(),
    {
        match self {
            ShotKind::Bolt => "|",
            ShotKind::Beam => "┃",
            ShotKind::Missile => "↟",
            ShotKind::Plasma => "◍",
            ShotKind::Rocket => "⇈",
            ShotKind::Flak => "✱",
            ShotKind::Rail => "║",
            ShotKind::Arc => "≈",
            ShotKind::Cable => "═",
            ShotKind::Enemy => "!",
        }
    }

}

/// The hulls that fly against you.
#[derive(Clone, Copy, PartialEq, Eq, Debug, Structural)]
pub enum EnemyKind {
    TieFighter,
    TieInterceptor,
    GunPlatform,
    TieBomber,
    BuzzDroid,
    Gunboat,
    /// Telegraphs, then throws a shot twice as fast as anything else.
    TieDefender,
    /// Leaves mines hanging in the court behind it.
    MineLayer,
    /// Breaks into two diving grunts when it dies.
    VultureDroid,
    /// Repairs damaged hulls flying near it.
    RepairDroid,
    /// A capital ship's fighter screen: fast, twitchy, fires in pairs.
    TieAdvanced,
}

impl EnemyKind {
    pub open spec fn spec_sprite(self) -> &'static str {
        match self {
            EnemyKind::TieFighter => "|●|",
            EnemyKind::TieInterceptor => "/●\\",
            EnemyKind::TieBomber => "[●]",
            EnemyKind::TieDefender => "⟨●⟩",
            EnemyKind::TieAdvanced => "«●»",
            EnemyKind::GunPlatform => "╪⊕╪",
            EnemyKind::Gunboat => "▐Ѫ▌",
            EnemyKind::MineLayer => "◄Ѳ►",
            EnemyKind::VultureDroid => "≺Ж≻",
            EnemyKind::BuzzDroid => " ѵ ",
            EnemyKind::RepairDroid => " ✚ ",
        }
    }

    /// Three cells of hull, centred on the cell it flies in.
    #[verifier::when_used_as_spec(spec_sprite)]
    pub fn sprite(self) -> (r: &'static str)
        ensures r == self.spec_sprite(),
    {
        match self {
            EnemyKind::TieFighter => "|●|",
            EnemyKind::TieInterceptor => "/●\\",
            EnemyKind::TieBomber => "[●]",
            EnemyKind::TieDefender => "⟨●⟩",
            EnemyKind::TieAdvanced => "«●»",
            EnemyKind::GunPlatform => "╪⊕╪",
            EnemyKind::Gunboat => "▐Ѫ▌",
            EnemyKind::MineLayer => "◄Ѳ►",
            EnemyKind::VultureDroid => "≺Ж≻",
            EnemyKind::BuzzDroid => " ѵ ",
            EnemyKind::RepairDroid => " ✚ ",
        }
    }

    pub open spec fn spec_hp(self) -> i32 {
        match self {
            EnemyKind::TieFighter | EnemyKind::BuzzDroid => 1,
            EnemyKind::TieInterceptor | EnemyKind::TieDefender | EnemyKind::TieAdvanced => 2,
            EnemyKind::GunPlatform
            | EnemyKind::MineLayer
            | EnemyKind::VultureDroid
            | EnemyKind::RepairDroid => 3,
            EnemyKind::TieBomber => 4,
            EnemyKind::Gunboat => 7,
        }
    }

    #[verifier::when_used_as_spec(spec_hp)]
    pub fn hp(self) -> (r: i32)
        ensures r == self.spec_hp(),
    {
        match self {
            EnemyKind::TieFighter | EnemyKind::BuzzDroid => 1,
            EnemyKind::TieInterceptor | EnemyKind::TieDefender | EnemyKind::TieAdvanced => 2,
            EnemyKind::GunPlatform
            | EnemyKind::MineLayer
            | EnemyKind::VultureDroid
            | EnemyKind::RepairDroid => 3,
            EnemyKind::TieBomber => 4,
            EnemyKind::Gunboat => 7,
        }
    }

    pub open spec fn spec_score(self) -> u32 {
        match self {
            EnemyKind::TieFighter => 10,
            EnemyKind::TieInterceptor => 20,
            EnemyKind::BuzzDroid => 25,
            EnemyKind::TieAdvanced => 30,
            EnemyKind::GunPlatform => 30,
            EnemyKind::MineLayer => 35,
            EnemyKind::TieBomber => 40,
            EnemyKind::VultureDroid => 40,
            EnemyKind::TieDefender => 45,
            EnemyKind::RepairDroid => 50,
            EnemyKind::Gunboat => 80,
        }
    }

    #[verifier::when_used_as_spec(spec_score)]
    pub fn score(self) -> (r: u32)
        ensures r == self.spec_score(),
    {
        match self {
            EnemyKind::TieFighter => 10,
            EnemyKind::TieInterceptor => 20,
            EnemyKind::BuzzDroid => 25,
            EnemyKind::TieAdvanced => 30,
            EnemyKind::GunPlatform => 30,
            EnemyKind::MineLayer => 35,
            EnemyKind::TieBomber => 40,
            EnemyKind::VultureDroid => 40,
            EnemyKind::TieDefender => 45,
            EnemyKind::RepairDroid => 50,
            EnemyKind::Gunboat => 80,
        }
    }

    pub open spec fn spec_glyph(self) -> &'static str {
        match self {
            EnemyKind::TieFighter => "ᴥ",
            EnemyKind::TieInterceptor => "ʬ",
            EnemyKind::GunPlatform => "⊕",
            EnemyKind::TieBomber => "҂",
            EnemyKind::BuzzDroid => "ѵ",
            EnemyKind::Gunboat => "Ѫ",
            EnemyKind::TieDefender => "⌖",
            EnemyKind::MineLayer => "Ѳ",
            EnemyKind::VultureDroid => "Ж",
            EnemyKind::RepairDroid => "✚",
            EnemyKind::TieAdvanced => "Ѭ",
        }
    }

    #[verifier::when_used_as_spec(spec_glyph)]
    pub fn glyph(self) -> (r: &'static str)
        ensures r == self.spec_glyph(),
    {
        match self {
            EnemyKind::TieFighter => "ᴥ",
            EnemyKind::TieInterceptor => "ʬ",
            EnemyKind::GunPlatform => "⊕",
            EnemyKind::TieBomber => "҂",
            EnemyKind::BuzzDroid => "ѵ",
            EnemyKind::Gunboat => "Ѫ",
            EnemyKind::TieDefender => "⌖",
            EnemyKind::MineLayer => "Ѳ",
            EnemyKind::VultureDroid => "Ж",
            EnemyKind::RepairDroid => "✚",
            EnemyKind::TieAdvanced => "Ѭ",
        }
    }

    pub open spec fn spec_dive_chance(self) -> u64 {
        match self {
            EnemyKind::TieFighter => 140,
            EnemyKind::BuzzDroid => 70,
            EnemyKind::TieBomber => 220,
            EnemyKind::VultureDroid => 160,
            EnemyKind::TieAdvanced => 50,
            _ => 0,
        }
    }

    /// 1-in-N chance per tick of peeling out of formation; `0` never dives.
    #[verifier::when_used_as_spec(spec_dive_chance)]
    pub fn dive_chance(self) -> (r: u64)
        ensures r == self.spec_dive_chance(),
    {
        match self {
            EnemyKind::TieFighter => 140,
            EnemyKind::BuzzDroid => 70,
            EnemyKind::TieBomber => 220,
            EnemyKind::VultureDroid => 160,
            EnemyKind::TieAdvanced => 50,
            _ => 0,
        }
    }

    pub open spec fn spec_fire_chance(self) -> u64 {
        match self {
            EnemyKind::TieFighter => 180,
            EnemyKind::GunPlatform => 60,
            EnemyKind::TieBomber => 90,
            EnemyKind::Gunboat => 120,
            EnemyKind::TieDefender => 100,
            EnemyKind::MineLayer => 150,
            EnemyKind::TieAdvanced => 70,
            _ => 0,
        }
    }

    /// 1-in-N chance per tick of shooting (or, for a miner, of dropping a
    /// mine); `0` never does.
    #[verifier::when_used_as_spec(spec_fire_chance)]
    pub fn fire_chance(self) -> (r: u64)
        ensures r == self.spec_fire_chance(),
    {
        match self {
            EnemyKind::TieFighter => 180,
            EnemyKind::GunPlatform => 60,
            EnemyKind::TieBomber => 90,
            EnemyKind::Gunboat => 120,
            EnemyKind::TieDefender => 100,
            EnemyKind::MineLayer => 150,
            EnemyKind::TieAdvanced => 70,
            _ => 0,
        }
    }

    pub open spec fn spec_dive_speed(self) -> i16 {
        match self {
            EnemyKind::BuzzDroid | EnemyKind::TieAdvanced => 2,
            _ => 1,
        }
    }

    /// Rows a diving hull of this kind covers per tick.
    #[verifier::when_used_as_spec(spec_dive_speed)]
    pub fn dive_speed(self) -> (r: i16)
        ensures r == self.spec_dive_speed(),
    {
        match self {
            EnemyKind::BuzzDroid | EnemyKind::TieAdvanced => 2,
            _ => 1,
        }
    }

}

/// What an enemy is doing right now.
#[derive(Clone, Copy, PartialEq, Eq, Debug, Structural)]
pub enum EnemyState {
    /// Holding station in the swaying formation.
    Formation,
    /// Peeled off and diving at the ship's column.
    Diving { target_x: i16 },
    /// Snaking down the court, bouncing off the walls.
    Weaving { dir: i16 },
}

/// The shape a wave holds station in; they cycle so no two waves in a row look
/// the same.
#[derive(Clone, Copy, PartialEq, Eq, Hash, Debug, Structural)]
pub enum Formation {
    Grid,
    Vee,
    Diamond,
    Columns,
    Arc,
}

impl Formation {
    pub open spec fn spec_of_wave(wave: u32) -> Formation {
        match wave % 5 {
            0 => Formation::Arc,
            1 => Formation::Grid,
            2 => Formation::Vee,
            3 => Formation::Diamond,
            _ => Formation::Columns,
        }
    }

    #[verifier::when_used_as_spec(spec_of_wave)]
    pub fn of_wave(wave: u32) -> (r: Formation)
        ensures r == Self::spec_of_wave(wave),
    {
        match wave % 5 {
            0 => Formation::Arc,
            1 => Formation::Grid,
            2 => Formation::Vee,
            3 => Formation::Diamond,
            _ => Formation::Columns,
        }
    }

    pub open spec fn spec_name(self) -> &'static str {
        match self {
            Formation::Grid => "grid",
            Formation::Vee => "vee",
            Formation::Diamond => "diamond",
            Formation::Columns => "columns",
            Formation::Arc => "arc",
        }
    }

    #[verifier::when_used_as_spec(spec_name)]
    pub fn name(self) -> (r: &'static str)
        ensures r == self.spec_name(),
    {
        match self {
            Formation::Grid => "grid",
            Formation::Vee => "vee",
            Formation::Diamond => "diamond",
            Formation::Columns => "columns",
            Formation::Arc => "arc",
        }
    }

}

/// The stretch of space a wave is fought in. Sectors cycle, and each one
/// changes what is in the court as well as what it looks like.
#[derive(Clone, Copy, PartialEq, Eq, Hash, Debug, Structural)]
pub enum Sector {
    OpenSpace,
    AsteroidBelt,
    Nebula,
    Minefield,
    IonStorm,
    DebrisRing,
    /// Close to the star: flares sweep the court in pairs.
    SolarCorona,
    /// A graveyard of hulks and old mines.
    Wreckage,
    /// The tail of a comet, thick with ice and rock.
    CometTrail,
    /// A tear in space: wells drag at everything, and the stars are gone.
    VoidRift,
}

impl Sector {
    pub const ALL: [Sector; 10] = [
        Sector::OpenSpace,
        Sector::AsteroidBelt,
        Sector::Nebula,
        Sector::Minefield,
        Sector::IonStorm,
        Sector::DebrisRing,
        Sector::SolarCorona,
        Sector::Wreckage,
        Sector::CometTrail,
        Sector::VoidRift,
    ];

    pub open spec fn spec_name(self) -> &'static str {
        match self {
            Sector::OpenSpace => "deep space",
            Sector::AsteroidBelt => "Hoth asteroid field",
            Sector::Nebula => "Kessel nebula",
            Sector::Minefield => "Imperial minefield",
            Sector::IonStorm => "ion storm",
            Sector::DebrisRing => "Alderaan debris",
            Sector::SolarCorona => "Tatooine twin suns",
            Sector::Wreckage => "Jakku graveyard",
            Sector::CometTrail => "Bespin gas streams",
            Sector::VoidRift => "Maw cluster",
        }
    }

    #[verifier::when_used_as_spec(spec_name)]
    pub fn name(self) -> (r: &'static str)
        ensures r == self.spec_name(),
    {
        match self {
            Sector::OpenSpace => "deep space",
            Sector::AsteroidBelt => "Hoth asteroid field",
            Sector::Nebula => "Kessel nebula",
            Sector::Minefield => "Imperial minefield",
            Sector::IonStorm => "ion storm",
            Sector::DebrisRing => "Alderaan debris",
            Sector::SolarCorona => "Tatooine twin suns",
            Sector::Wreckage => "Jakku graveyard",
            Sector::CometTrail => "Bespin gas streams",
            Sector::VoidRift => "Maw cluster",
        }
    }

    pub open spec fn spec_blurb(self) -> &'static str {
        match self {
            Sector::OpenSpace => "clear lanes, nothing but the formation",
            Sector::AsteroidBelt => "rocks pouring down the court",
            Sector::Nebula => "soup: every shot flies a row slower",
            Sector::Minefield => "mines already hanging in the lanes",
            Sector::IonStorm => "surges drain the reactor and stun the drones",
            Sector::DebrisRing => "hulks that eat shots and block the lanes",
            Sector::SolarCorona => "two walls of fire sweeping the court",
            Sector::Wreckage => "a graveyard of hulks and old mines",
            Sector::CometTrail => "ice and rock, pouring past",
            Sector::VoidRift => "wells that drag at the hull, and no stars",
        }
    }

    #[verifier::when_used_as_spec(spec_blurb)]
    pub fn blurb(self) -> (r: &'static str)
        ensures r == self.spec_blurb(),
    {
        match self {
            Sector::OpenSpace => "clear lanes, nothing but the formation",
            Sector::AsteroidBelt => "rocks pouring down the court",
            Sector::Nebula => "soup: every shot flies a row slower",
            Sector::Minefield => "mines already hanging in the lanes",
            Sector::IonStorm => "surges drain the reactor and stun the drones",
            Sector::DebrisRing => "hulks that eat shots and block the lanes",
            Sector::SolarCorona => "two walls of fire sweeping the court",
            Sector::Wreckage => "a graveyard of hulks and old mines",
            Sector::CometTrail => "ice and rock, pouring past",
            Sector::VoidRift => "wells that drag at the hull, and no stars",
        }
    }

    pub open spec fn spec_asteroid_chance(self) -> u64 {
        match self {
            Sector::CometTrail => 24,
            Sector::AsteroidBelt => 40,
            Sector::Wreckage => 90,
            Sector::DebrisRing => 160,
            _ => ASTEROID_CHANCE,
        }
    }

    /// 1-in-N odds per tick that a rock drifts in.
    #[verifier::when_used_as_spec(spec_asteroid_chance)]
    pub fn asteroid_chance(self) -> (r: u64)
        ensures r == self.spec_asteroid_chance(),
    {
        match self {
            Sector::CometTrail => 24,
            Sector::AsteroidBelt => 40,
            Sector::Wreckage => 90,
            Sector::DebrisRing => 160,
            _ => ASTEROID_CHANCE,
        }
    }

    pub open spec fn spec_drag(self) -> bool {
        self == Sector::Nebula
    }

    /// Whether the soup costs every shot a row of speed.
    #[verifier::when_used_as_spec(spec_drag)]
    pub fn drag(self) -> (r: bool)
        ensures r == self.spec_drag(),
    {
        self == Sector::Nebula
    }

    pub open spec fn spec_starting_mines(self) -> usize {
        match self {
            Sector::Minefield => 14,
            Sector::Wreckage => 6,
            Sector::DebrisRing => 3,
            _ => 0,
        }
    }

    /// Mines already scattered in the court when the wave starts.
    #[verifier::when_used_as_spec(spec_starting_mines)]
    pub fn starting_mines(self) -> (r: usize)
        ensures r == self.spec_starting_mines(),
    {
        match self {
            Sector::Minefield => 14,
            Sector::Wreckage => 6,
            Sector::DebrisRing => 3,
            _ => 0,
        }
    }

    pub open spec fn spec_debris_blocks(self) -> usize {
        match self {
            Sector::Wreckage => 11,
            Sector::DebrisRing => 8,
            Sector::AsteroidBelt => 2,
            _ => 0,
        }
    }

    /// Debris blocks drifting through the court.
    #[verifier::when_used_as_spec(spec_debris_blocks)]
    pub fn debris_blocks(self) -> (r: usize)
        ensures r == self.spec_debris_blocks(),
    {
        match self {
            Sector::Wreckage => 11,
            Sector::DebrisRing => 8,
            Sector::AsteroidBelt => 2,
            _ => 0,
        }
    }

    pub open spec fn spec_surge_cadence(self) -> u32 {
        match self {
            Sector::IonStorm => 220,
            _ => 0,
        }
    }

    /// Ticks between ion surges; `0` never surges.
    #[verifier::when_used_as_spec(spec_surge_cadence)]
    pub fn surge_cadence(self) -> (r: u32)
        ensures r == self.spec_surge_cadence(),
    {
        match self {
            Sector::IonStorm => 220,
            _ => 0,
        }
    }

    pub open spec fn spec_backdrop(self) -> usize {
        match self {
            Sector::Nebula => 30,
            Sector::SolarCorona => 26,
            Sector::IonStorm => 22,
            Sector::OpenSpace | Sector::CometTrail => 16,
            Sector::VoidRift => 4,
            _ => 12,
        }
    }

    /// How thick the backdrop is drawn, in cells per layer.
    #[verifier::when_used_as_spec(spec_backdrop)]
    pub fn backdrop(self) -> (r: usize)
        ensures r == self.spec_backdrop(),
    {
        match self {
            Sector::Nebula => 30,
            Sector::SolarCorona => 26,
            Sector::IonStorm => 22,
            Sector::OpenSpace | Sector::CometTrail => 16,
            Sector::VoidRift => 4,
            _ => 12,
        }
    }

    pub open spec fn spec_star_glyph(self, layer: usize) -> &'static str {
        match (self, layer) {
            (Sector::Nebula, 0) => "░",
            (Sector::Nebula, 1) => "▒",
            (Sector::Nebula, _) => "▓",
            (Sector::SolarCorona, 0) => "░",
            (Sector::SolarCorona, 1) => "▒",
            (Sector::SolarCorona, _) => "▓",
            (Sector::CometTrail, 0) => "·",
            (Sector::CometTrail, 1) => "˙",
            (Sector::CometTrail, _) => "❄",
            (Sector::VoidRift, _) => "‧",
            (Sector::IonStorm, 0) => "·",
            (Sector::IonStorm, 1) => "¦",
            (Sector::IonStorm, _) => "⌇",
            (_, 0) => "·",
            (_, 1) => "˙",
            (_, _) => "*",
        }
    }

    /// The glyph the backdrop is drawn with at each parallax layer.
    #[verifier::when_used_as_spec(spec_star_glyph)]
    pub fn star_glyph(self, layer: usize) -> (r: &'static str)
        ensures r == self.spec_star_glyph(layer),
    {
        match (self, layer) {
            (Sector::Nebula, 0) => "░",
            (Sector::Nebula, 1) => "▒",
            (Sector::Nebula, _) => "▓",
            (Sector::SolarCorona, 0) => "░",
            (Sector::SolarCorona, 1) => "▒",
            (Sector::SolarCorona, _) => "▓",
            (Sector::CometTrail, 0) => "·",
            (Sector::CometTrail, 1) => "˙",
            (Sector::CometTrail, _) => "❄",
            (Sector::VoidRift, _) => "‧",
            (Sector::IonStorm, 0) => "·",
            (Sector::IonStorm, 1) => "¦",
            (Sector::IonStorm, _) => "⌇",
            (_, 0) => "·",
            (_, 1) => "˙",
            (_, _) => "*",
        }
    }

}

/// What a dropped pickup gives you.
#[derive(Clone, Copy, PartialEq, Eq, Debug, Structural)]
pub enum PowerKind {
    /// A gun: the one you carry levels up, any other replaces it.
    Gun(Weapon),
    Shield,
    Bomb,
    Rapid,
    /// A wing drone that fires alongside the ship.
    Drone,
    /// A pack for the missile launcher.
    Missiles,
    /// Points and salvage.
    Medal,
    Life,
}

impl PowerKind {
    pub open spec fn spec_glyph(self) -> &'static str {
        match self {
            PowerKind::Gun(w) => w.tag(),
            PowerKind::Shield => "◈",
            PowerKind::Bomb => "◆",
            PowerKind::Rapid => "»",
            PowerKind::Drone => "◇",
            PowerKind::Missiles => "↥",
            PowerKind::Medal => "★",
            PowerKind::Life => "♥",
        }
    }

    #[verifier::when_used_as_spec(spec_glyph)]
    pub fn glyph(self) -> (r: &'static str)
        ensures r == self.spec_glyph(),
    {
        match self {
            PowerKind::Gun(w) => w.tag(),
            PowerKind::Shield => "◈",
            PowerKind::Bomb => "◆",
            PowerKind::Rapid => "»",
            PowerKind::Drone => "◇",
            PowerKind::Missiles => "↥",
            PowerKind::Medal => "★",
            PowerKind::Life => "♥",
        }
    }

}

/// Which of the four bosses a wave is fighting.
#[derive(Clone, Copy, PartialEq, Eq, Hash, Debug, Structural)]
pub enum BossKind {
    /// One wide hull; the plain escalating sweeper.
    Dreadnought,
    /// A core armoured until both of its turrets are gone.
    Twin,
    /// Two launch bays feeding kamikazes into the court.
    Carrier,
    /// A head trailing segments that swim behind it.
    Serpent,
    /// A TIE Advanced x1 flown by somebody who knows how: it jinks, it leads
    /// the hull, and it breaks off rather than die.
    AceTie,
}

impl BossKind {
    pub open spec fn spec_of_wave(wave: u32) -> BossKind {
        match (wave / BOSS_EVERY) % 5 {
            1 => BossKind::AceTie,
            2 => BossKind::Twin,
            3 => BossKind::Carrier,
            4 => BossKind::Serpent,
            _ => BossKind::Dreadnought,
        }
    }

    /// The bosses cycle in this order, one per boss wave.
    #[verifier::when_used_as_spec(spec_of_wave)]
    pub fn of_wave(wave: u32) -> (r: BossKind)
        ensures r == Self::spec_of_wave(wave),
    {
        match (wave / BOSS_EVERY) % 5 {
            1 => BossKind::AceTie,
            2 => BossKind::Twin,
            3 => BossKind::Carrier,
            4 => BossKind::Serpent,
            _ => BossKind::Dreadnought,
        }
    }

    pub open spec fn spec_name(self) -> &'static str {
        match self {
            BossKind::Dreadnought => "dreadnought",
            BossKind::Twin => "twin",
            BossKind::Carrier => "carrier",
            BossKind::Serpent => "serpent",
            BossKind::AceTie => "TIE Advanced x1",
        }
    }

    #[verifier::when_used_as_spec(spec_name)]
    pub fn name(self) -> (r: &'static str)
        ensures r == self.spec_name(),
    {
        match self {
            BossKind::Dreadnought => "dreadnought",
            BossKind::Twin => "twin",
            BossKind::Carrier => "carrier",
            BossKind::Serpent => "serpent",
            BossKind::AceTie => "TIE Advanced x1",
        }
    }

    pub open spec fn spec_core_half(self) -> i16 {
        match self {
            BossKind::Twin => 3,
            BossKind::Serpent | BossKind::AceTie => 1,
            _ => 6,
        }
    }

    /// Half-width of the core hull.
    #[verifier::when_used_as_spec(spec_core_half)]
    pub fn core_half(self) -> (r: i16)
        ensures r == self.spec_core_half(),
    {
        match self {
            BossKind::Twin => 3,
            BossKind::Serpent | BossKind::AceTie => 1,
            _ => 6,
        }
    }

    pub open spec fn spec_core_depth(self) -> i16 {
        match self {
            BossKind::Serpent | BossKind::AceTie => 0,
            _ => 1,
        }
    }

    /// Extra rows the core hull covers below its anchor row.
    #[verifier::when_used_as_spec(spec_core_depth)]
    pub fn core_depth(self) -> (r: i16)
        ensures r == self.spec_core_depth(),
    {
        match self {
            BossKind::Serpent | BossKind::AceTie => 0,
            _ => 1,
        }
    }

}

/// Where a round is: building a ship, flying, counting a cleared wave down,
/// spending salvage in the hangar, or over.
#[derive(Clone, Copy, PartialEq, Eq, Debug, Structural)]
pub enum Status {
    Select,
    Playing,
    WaveClear,
    Hangar,
    /// Parked at a system, reading the galaxy chart.
    Chart,
    Lost,
}

/// The permanent upgrade a pilot level hands out; they rotate in this order.
#[derive(Clone, Copy, PartialEq, Eq, Debug, Structural)]
pub enum LevelReward {
    /// One more shield pip, filled in on the spot.
    Plating,
    /// One more point of damage on every shot.
    Firepower,
    /// Faster energy regeneration, so the special comes round sooner.
    Cell,
    /// A spare smart bomb.
    Bomb,
}

impl LevelReward {
    pub open spec fn spec_of_level(level: u32) -> LevelReward {
        match level % 4 {
            1 => LevelReward::Plating,
            2 => LevelReward::Firepower,
            3 => LevelReward::Cell,
            _ => LevelReward::Bomb,
        }
    }

    /// What the pilot gets for reaching `level`.
    #[verifier::when_used_as_spec(spec_of_level)]
    pub fn of_level(level: u32) -> (r: LevelReward)
        ensures r == Self::spec_of_level(level),
    {
        match level % 4 {
            1 => LevelReward::Plating,
            2 => LevelReward::Firepower,
            3 => LevelReward::Cell,
            _ => LevelReward::Bomb,
        }
    }

    pub open spec fn spec_name(self) -> &'static str {
        match self {
            LevelReward::Plating => "hull plating",
            LevelReward::Firepower => "firepower",
            LevelReward::Cell => "energy cell",
            LevelReward::Bomb => "smart bomb",
        }
    }

    #[verifier::when_used_as_spec(spec_name)]
    pub fn name(self) -> (r: &'static str)
        ensures r == self.spec_name(),
    {
        match self {
            LevelReward::Plating => "hull plating",
            LevelReward::Firepower => "firepower",
            LevelReward::Cell => "energy cell",
            LevelReward::Bomb => "smart bomb",
        }
    }

}

/// A consumable the hangar sells alongside the ship components.
#[derive(Clone, Copy, PartialEq, Eq, Debug, Structural)]
pub enum Stock {
    Repair,
    GunLevel,
    GunSwap,
    Drone,
    Bomb,
    Rapid,
    Life,
    /// Another hull for the squad, flown by a wingman.
    Hull,
    /// Every downed wingman back in the air.
    Rescue,
    /// A pack for the missile launcher.
    Missiles,
}

impl Stock {
    pub const ALL: [Stock; 10] = [
        Stock::Repair,
        Stock::Missiles,
        Stock::GunLevel,
        Stock::GunSwap,
        Stock::Drone,
        Stock::Bomb,
        Stock::Rapid,
        Stock::Rescue,
        Stock::Hull,
        Stock::Life,
    ];

    pub open spec fn spec_name(self) -> &'static str {
        match self {
            Stock::Repair => "shield repair",
            Stock::GunLevel => "gun level",
            Stock::GunSwap => "swap gun",
            Stock::Drone => "wing drone",
            Stock::Bomb => "smart bomb",
            Stock::Rapid => "rapid fire",
            Stock::Life => "spare life",
            Stock::Hull => "another fighter",
            Stock::Rescue => "recover the wing",
            Stock::Missiles => "torpedo pack",
        }
    }

    #[verifier::when_used_as_spec(spec_name)]
    pub fn name(self) -> (r: &'static str)
        ensures r == self.spec_name(),
    {
        match self {
            Stock::Repair => "shield repair",
            Stock::GunLevel => "gun level",
            Stock::GunSwap => "swap gun",
            Stock::Drone => "wing drone",
            Stock::Bomb => "smart bomb",
            Stock::Rapid => "rapid fire",
            Stock::Life => "spare life",
            Stock::Hull => "another fighter",
            Stock::Rescue => "recover the wing",
            Stock::Missiles => "torpedo pack",
        }
    }

    pub open spec fn spec_detail(self) -> &'static str {
        match self {
            Stock::Repair => "refill every shield pip",
            Stock::GunLevel => "+1 level on the gun you carry",
            Stock::GunSwap => "rotate to the next gun",
            Stock::Drone => "a wing drone that fires with you",
            Stock::Bomb => "+1 smart bomb",
            Stock::Rapid => "rapid fire through the next wave",
            Stock::Life => "+1 life",
            Stock::Hull => "another hull for the squad, flown as a wingman",
            Stock::Rescue => "every downed wingman back in the air",
            Stock::Missiles => "+8 rounds for the launcher",
        }
    }

    #[verifier::when_used_as_spec(spec_detail)]
    pub fn detail(self) -> (r: &'static str)
        ensures r == self.spec_detail(),
    {
        match self {
            Stock::Repair => "refill every shield pip",
            Stock::GunLevel => "+1 level on the gun you carry",
            Stock::GunSwap => "rotate to the next gun",
            Stock::Drone => "a wing drone that fires with you",
            Stock::Bomb => "+1 smart bomb",
            Stock::Rapid => "rapid fire through the next wave",
            Stock::Life => "+1 life",
            Stock::Hull => "another hull for the squad, flown as a wingman",
            Stock::Rescue => "every downed wingman back in the air",
            Stock::Missiles => "+8 rounds for the launcher",
        }
    }

    pub open spec fn spec_price(self) -> u32 {
        match self {
            Stock::Repair => 150,
            Stock::GunSwap => 200,
            Stock::Bomb => 250,
            Stock::Rapid => 300,
            Stock::GunLevel => 500,
            Stock::Drone => 600,
            Stock::Life => 1200,
            Stock::Missiles => 350,
            Stock::Rescue => 700,
            Stock::Hull => 2500,
        }
    }

    #[verifier::when_used_as_spec(spec_price)]
    pub fn price(self) -> (r: u32)
        ensures r == self.spec_price(),
    {
        match self {
            Stock::Repair => 150,
            Stock::GunSwap => 200,
            Stock::Bomb => 250,
            Stock::Rapid => 300,
            Stock::GunLevel => 500,
            Stock::Drone => 600,
            Stock::Life => 1200,
            Stock::Missiles => 350,
            Stock::Rescue => 700,
            Stock::Hull => 2500,
        }
    }

}

/// One line in the hangar: a component tier, a module, or a consumable.
#[derive(Clone, Copy, PartialEq, Eq, Debug, Structural)]
pub enum ShopEntry {
    Component(Part),
    Fitting(Module),
    Consumable(Stock),
}

/// How the rock is laid out in a sector: the shape of the flyable channel.
#[derive(Clone, Copy, PartialEq, Eq, Hash, Debug, Structural)]
pub enum TerrainKind {
    /// Nothing but the court walls.
    Open,
    /// A channel that pinches shut and opens back up.
    Canyon,
    /// A wide, wandering passage with a rough edge.
    Cave,
    /// A narrow run with almost no room either side.
    Tunnel,
    /// A wide channel studded with rock columns.
    Pillars,
    /// Bulkheads across the court with a single gap to thread.
    Gates,
    /// A rock spine down the middle, splitting the court in two.
    Spine,
    /// Alternating half-walls that force the hull to weave.
    Maze,
    /// Thick with columns, wall to wall.
    Reef,
    /// A capital ship's surface trench: two walls, one lane, and the guns are
    /// bolted to both sides of it.
    Trench,
}

impl TerrainKind {
    pub const ALL: [TerrainKind; 10] = [
        TerrainKind::Open,
        TerrainKind::Canyon,
        TerrainKind::Cave,
        TerrainKind::Tunnel,
        TerrainKind::Pillars,
        TerrainKind::Gates,
        TerrainKind::Spine,
        TerrainKind::Maze,
        TerrainKind::Reef,
        TerrainKind::Trench,
    ];

    pub open spec fn spec_name(self) -> &'static str {
        match self {
            TerrainKind::Open => "open",
            TerrainKind::Canyon => "canyon",
            TerrainKind::Cave => "cave",
            TerrainKind::Tunnel => "tunnel",
            TerrainKind::Pillars => "pillars",
            TerrainKind::Gates => "gates",
            TerrainKind::Spine => "spine",
            TerrainKind::Maze => "maze",
            TerrainKind::Reef => "reef",
            TerrainKind::Trench => "trench",
        }
    }

    #[verifier::when_used_as_spec(spec_name)]
    pub fn name(self) -> (r: &'static str)
        ensures r == self.spec_name(),
    {
        match self {
            TerrainKind::Open => "open",
            TerrainKind::Canyon => "canyon",
            TerrainKind::Cave => "cave",
            TerrainKind::Tunnel => "tunnel",
            TerrainKind::Pillars => "pillars",
            TerrainKind::Gates => "gates",
            TerrainKind::Spine => "spine",
            TerrainKind::Maze => "maze",
            TerrainKind::Reef => "reef",
            TerrainKind::Trench => "trench",
        }
    }

    pub open spec fn spec_blurb(self) -> &'static str {
        match self {
            TerrainKind::Open => "clear lanes wall to wall",
            TerrainKind::Canyon => "a channel that pinches shut",
            TerrainKind::Cave => "a wandering passage with rough edges",
            TerrainKind::Tunnel => "barely wider than the hull",
            TerrainKind::Pillars => "open, but studded with rock columns",
            TerrainKind::Gates => "bulkheads with one gap to thread",
            TerrainKind::Spine => "a rock spine splitting the court",
            TerrainKind::Maze => "half-walls that force a weave",
            TerrainKind::Reef => "columns wall to wall",
            TerrainKind::Trench => "one lane between two armoured walls",
        }
    }

    #[verifier::when_used_as_spec(spec_blurb)]
    pub fn blurb(self) -> (r: &'static str)
        ensures r == self.spec_blurb(),
    {
        match self {
            TerrainKind::Open => "clear lanes wall to wall",
            TerrainKind::Canyon => "a channel that pinches shut",
            TerrainKind::Cave => "a wandering passage with rough edges",
            TerrainKind::Tunnel => "barely wider than the hull",
            TerrainKind::Pillars => "open, but studded with rock columns",
            TerrainKind::Gates => "bulkheads with one gap to thread",
            TerrainKind::Spine => "a rock spine splitting the court",
            TerrainKind::Maze => "half-walls that force a weave",
            TerrainKind::Reef => "columns wall to wall",
            TerrainKind::Trench => "one lane between two armoured walls",
        }
    }

    pub open spec fn spec_width_range(self) -> (i16, i16) {
        match self {
            TerrainKind::Open => ((W - 2) as i16, (W - 2) as i16),
            TerrainKind::Canyon => (26, (W - 8) as i16),
            TerrainKind::Cave => (28, (W - 4) as i16),
            TerrainKind::Tunnel => (22, 32),
            TerrainKind::Pillars | TerrainKind::Reef => ((W - 8) as i16, (W - 4) as i16),
            TerrainKind::Gates | TerrainKind::Spine | TerrainKind::Maze => ((W - 6) as i16, (W - 2) as i16),
            TerrainKind::Trench => (18, 22),
        }
    }

    /// Narrowest and widest the channel gets, in columns.
    #[verifier::when_used_as_spec(spec_width_range)]
    pub fn width_range(self) -> (r: (i16, i16))
        ensures r == self.spec_width_range(),
    {
        match self {
            TerrainKind::Open => (W - 2, W - 2),
            TerrainKind::Canyon => (26, W - 8),
            TerrainKind::Cave => (28, W - 4),
            TerrainKind::Tunnel => (22, 32),
            TerrainKind::Pillars | TerrainKind::Reef => (W - 8, W - 4),
            TerrainKind::Gates | TerrainKind::Spine | TerrainKind::Maze => (W - 6, W - 2),
            TerrainKind::Trench => (18, 22),
        }
    }

    pub open spec fn spec_wander(self) -> i16 {
        match self {
            TerrainKind::Open => 0,
            TerrainKind::Canyon | TerrainKind::Tunnel => 1,
            TerrainKind::Cave => 2,
            TerrainKind::Pillars | TerrainKind::Reef => 1,
            TerrainKind::Gates | TerrainKind::Spine => 2,
            TerrainKind::Maze => 0,
            TerrainKind::Trench => 1,
        }
    }

    /// Columns the channel centre may wander per row.
    #[verifier::when_used_as_spec(spec_wander)]
    pub fn wander(self) -> (r: i16)
        ensures r == self.spec_wander(),
    {
        match self {
            TerrainKind::Open => 0,
            TerrainKind::Canyon | TerrainKind::Tunnel => 1,
            TerrainKind::Cave => 2,
            TerrainKind::Pillars | TerrainKind::Reef => 1,
            TerrainKind::Gates | TerrainKind::Spine => 2,
            TerrainKind::Maze => 0,
            TerrainKind::Trench => 1,
        }
    }

    pub open spec fn spec_pillar_chance(self) -> u64 {
        match self {
            TerrainKind::Reef => 2,
            TerrainKind::Pillars => 4,
            TerrainKind::Cave => 14,
            _ => 0,
        }
    }

    /// 1-in-N odds a generated row grows a rock column in the channel.
    #[verifier::when_used_as_spec(spec_pillar_chance)]
    pub fn pillar_chance(self) -> (r: u64)
        ensures r == self.spec_pillar_chance(),
    {
        match self {
            TerrainKind::Reef => 2,
            TerrainKind::Pillars => 4,
            TerrainKind::Cave => 14,
            _ => 0,
        }
    }

    pub open spec fn spec_destructible(self) -> bool {
        matches!(
            self,
            TerrainKind::Cave | TerrainKind::Pillars | TerrainKind::Reef | TerrainKind::Spine
        )
    }

    /// Whether shooting the rock carves it away.
    #[verifier::when_used_as_spec(spec_destructible)]
    pub fn destructible(self) -> (r: bool)
        ensures r == self.spec_destructible(),
    {
        matches!(
            self,
            TerrainKind::Cave | TerrainKind::Pillars | TerrainKind::Reef | TerrainKind::Spine
        )
    }

}

/// Something the sector itself does to you, over and above the rock.
#[derive(Clone, Copy, PartialEq, Eq, Debug)]
pub enum Hazard {
    /// Drags the hull a column toward it every few ticks.
    GravityWell { pos: (i16, i16) },
    /// A wall of fire sweeping across the court a column at a time.
    SolarFlare { col: i16, dir: i16 },
    /// A current that shoves the hull sideways.
    IonStream { push: i16 },
}

impl Hazard {
    pub open spec fn spec_name(self) -> &'static str {
        match self {
            Hazard::GravityWell { .. } => "gravity well",
            Hazard::SolarFlare { .. } => "solar flare",
            Hazard::IonStream { .. } => "ion stream",
        }
    }

    #[verifier::when_used_as_spec(spec_name)]
    pub fn name(self) -> (r: &'static str)
        ensures r == self.spec_name(),
    {
        match self {
            Hazard::GravityWell { .. } => "gravity well",
            Hazard::SolarFlare { .. } => "solar flare",
            Hazard::IonStream { .. } => "ion stream",
        }
    }

}

/// What a route node pays out when it is flown.
#[derive(Clone, Copy, PartialEq, Eq, Debug, Structural)]
pub enum NodeBonus {
    /// A salvage cache banked the moment the wave starts.
    Cache(u32),
    /// A gun crate: the node hands over a weapon.
    Armoury(Weapon),
    /// Shields and a bomb, topped up on arrival.
    Refit,
    /// Thicker enemy armour, double salvage from every kill.
    Danger,
}

/// The galaxy a run is flown in. Each one fields a different mix of sectors,
/// rock and enemies, and pays differently for it.
#[derive(Clone, Copy, PartialEq, Eq, Hash, Debug, Structural)]
pub enum Galaxy {
    /// The starting arm: everything shows up, nothing is extreme.
    Orion,
    /// Swarm space: deeper formations, thinner armour, more drops.
    Hive,
    /// Industrial space: hulks, mines and turrets, but the salvage is rich.
    Forge,
    /// Burnt space: flares, corona and rock, with heavier hulls.
    Cinder,
    /// The deep: wells, void and long tunnels, and everything is armoured.
    Abyss,
}

impl Galaxy {
    pub const ALL: [Galaxy; 5] = [
        Galaxy::Orion,
        Galaxy::Hive,
        Galaxy::Forge,
        Galaxy::Cinder,
        Galaxy::Abyss,
    ];

    pub open spec fn spec_name(self) -> &'static str {
        match self {
            Galaxy::Orion => "Outer Rim Territories",
            Galaxy::Hive => "Kessel Sector",
            Galaxy::Forge => "Corellian Run",
            Galaxy::Cinder => "Tatooine Sector",
            Galaxy::Abyss => "The Maw",
        }
    }

    #[verifier::when_used_as_spec(spec_name)]
    pub fn name(self) -> (r: &'static str)
        ensures r == self.spec_name(),
    {
        match self {
            Galaxy::Orion => "Outer Rim Territories",
            Galaxy::Hive => "Kessel Sector",
            Galaxy::Forge => "Corellian Run",
            Galaxy::Cinder => "Tatooine Sector",
            Galaxy::Abyss => "The Maw",
        }
    }

    pub open spec fn spec_blurb(self) -> &'static str {
        match self {
            Galaxy::Orion => "the frontier: a bit of everything, nothing extreme",
            Galaxy::Hive => "spice lanes thick with TIEs, thin hulls, rich salvage",
            Galaxy::Forge => "shipyards and minefields — and heavy salvage",
            Galaxy::Cinder => "twin suns and rock; the patrols out here are tough",
            Galaxy::Abyss => "black holes and long tunnels; everything is armoured",
        }
    }

    #[verifier::when_used_as_spec(spec_blurb)]
    pub fn blurb(self) -> (r: &'static str)
        ensures r == self.spec_blurb(),
    {
        match self {
            Galaxy::Orion => "the frontier: a bit of everything, nothing extreme",
            Galaxy::Hive => "spice lanes thick with TIEs, thin hulls, rich salvage",
            Galaxy::Forge => "shipyards and minefields — and heavy salvage",
            Galaxy::Cinder => "twin suns and rock; the patrols out here are tough",
            Galaxy::Abyss => "black holes and long tunnels; everything is armoured",
        }
    }

    pub open spec fn spec_swarm(self) -> usize {
        match self {
            Galaxy::Hive => 1,
            _ => 0,
        }
    }

    /// Extra rows of hulls a wave fields here.
    #[verifier::when_used_as_spec(spec_swarm)]
    pub fn swarm(self) -> (r: usize)
        ensures r == self.spec_swarm(),
    {
        match self {
            Galaxy::Hive => 1,
            _ => 0,
        }
    }

    pub open spec fn spec_armour(self) -> i32 {
        match self {
            Galaxy::Hive => -1i32,
            Galaxy::Cinder => 1,
            Galaxy::Abyss => 2,
            _ => 0,
        }
    }

    /// Extra armour on every enemy hull.
    #[verifier::when_used_as_spec(spec_armour)]
    pub fn armour(self) -> (r: i32)
        ensures r == self.spec_armour(),
    {
        match self {
            Galaxy::Hive => -1,
            Galaxy::Cinder => 1,
            Galaxy::Abyss => 2,
            _ => 0,
        }
    }

    pub open spec fn spec_salvage_bonus(self) -> u32 {
        match self {
            Galaxy::Forge => 60,
            Galaxy::Abyss => 30,
            Galaxy::Hive => 15,
            _ => 0,
        }
    }

    /// Percentage on top of every salvage payout.
    #[verifier::when_used_as_spec(spec_salvage_bonus)]
    pub fn salvage_bonus(self) -> (r: u32)
        ensures r == self.spec_salvage_bonus(),
    {
        match self {
            Galaxy::Forge => 60,
            Galaxy::Abyss => 30,
            Galaxy::Hive => 15,
            _ => 0,
        }
    }

    pub open spec fn spec_chart(self) -> (usize, usize) {
        match self {
            Galaxy::Orion => (14, 7),
            Galaxy::Hive => (15, 8),
            Galaxy::Forge => (13, 7),
            Galaxy::Cinder => (14, 8),
            Galaxy::Abyss => (16, 9),
        }
    }

    /// The grid its chart is laid out on, as `(columns, rows)`. A galaxy is a
    /// map to roam, not a corridor: even the smallest runs to sixty systems.
    #[verifier::when_used_as_spec(spec_chart)]
    pub fn chart(self) -> (r: (usize, usize))
        ensures r == self.spec_chart(),
    {
        match self {
            Galaxy::Orion => (14, 7),
            Galaxy::Hive => (15, 8),
            Galaxy::Forge => (13, 7),
            Galaxy::Cinder => (14, 8),
            Galaxy::Abyss => (16, 9),
        }
    }

}

/// What is waiting at a system on the chart.
#[derive(Clone, Copy, PartialEq, Eq, Debug, Structural)]
pub enum NodeKind {
    /// An ordinary wave.
    Battle,
    /// A wave with heavier hulls and a better payout.
    Elite,
    /// A boss.
    Boss,
    /// No fight: a hangar with a free repair.
    Depot,
    /// No fight: a hulk to strip for salvage and a gun.
    Derelict,
    /// A capital ship: a wedge destroyer holding the system, or a battlestation
    /// with a trench to run.
    Capital,
}

impl NodeKind {
    pub open spec fn spec_name(self) -> &'static str {
        match self {
            NodeKind::Battle => "patrol",
            NodeKind::Elite => "elite squadron",
            NodeKind::Boss => "ace pilot",
            NodeKind::Depot => "Rebel outpost",
            NodeKind::Derelict => "wrecked freighter",
            NodeKind::Capital => "capital ship",
        }
    }

    #[verifier::when_used_as_spec(spec_name)]
    pub fn name(self) -> (r: &'static str)
        ensures r == self.spec_name(),
    {
        match self {
            NodeKind::Battle => "patrol",
            NodeKind::Elite => "elite squadron",
            NodeKind::Boss => "ace pilot",
            NodeKind::Depot => "Rebel outpost",
            NodeKind::Derelict => "wrecked freighter",
            NodeKind::Capital => "capital ship",
        }
    }

    pub open spec fn spec_glyph(self) -> &'static str {
        match self {
            NodeKind::Battle => "◇",
            NodeKind::Elite => "◆",
            NodeKind::Boss => "☠",
            NodeKind::Depot => "⌂",
            NodeKind::Derelict => "⌗",
            NodeKind::Capital => "▰",
        }
    }

    /// The glyph the chart draws it with.
    #[verifier::when_used_as_spec(spec_glyph)]
    pub fn glyph(self) -> (r: &'static str)
        ensures r == self.spec_glyph(),
    {
        match self {
            NodeKind::Battle => "◇",
            NodeKind::Elite => "◆",
            NodeKind::Boss => "☠",
            NodeKind::Depot => "⌂",
            NodeKind::Derelict => "⌗",
            NodeKind::Capital => "▰",
        }
    }

    pub open spec fn spec_fights(self) -> bool {
        matches!(
            self,
            NodeKind::Battle | NodeKind::Elite | NodeKind::Boss | NodeKind::Capital
        )
    }

    /// Whether flying here means a fight.
    #[verifier::when_used_as_spec(spec_fights)]
    pub fn fights(self) -> (r: bool)
        ensures r == self.spec_fights(),
    {
        matches!(
            self,
            NodeKind::Battle | NodeKind::Elite | NodeKind::Boss | NodeKind::Capital
        )
    }

}

/// A band of the galaxy, from the quiet rim in to the deep.
#[derive(Clone, Copy, PartialEq, Eq, PartialOrd, Ord, Hash, Debug, Structural)]
pub enum Region {
    Rim,
    Verge,
    Reach,
    Core,
    Deep,
}

impl Region {
    pub open spec fn spec_name(self) -> &'static str {
        match self {
            Region::Rim => "the Outer Rim",
            Region::Verge => "the Mid Rim",
            Region::Reach => "the Expansion Region",
            Region::Core => "the Inner Rim",
            Region::Deep => "the Core Worlds",
        }
    }

    #[verifier::when_used_as_spec(spec_name)]
    pub fn name(self) -> (r: &'static str)
        ensures r == self.spec_name(),
    {
        match self {
            Region::Rim => "the Outer Rim",
            Region::Verge => "the Mid Rim",
            Region::Reach => "the Expansion Region",
            Region::Core => "the Inner Rim",
            Region::Deep => "the Core Worlds",
        }
    }

    pub open spec fn spec_armour(self) -> i32 {
        match self {
            Region::Rim => 0,
            Region::Verge => 1,
            Region::Reach => 2,
            Region::Core => 3,
            Region::Deep => 5,
        }
    }

    /// Extra armour every hull in this band carries.
    #[verifier::when_used_as_spec(spec_armour)]
    pub fn armour(self) -> (r: i32)
        ensures r == self.spec_armour(),
    {
        match self {
            Region::Rim => 0,
            Region::Verge => 1,
            Region::Reach => 2,
            Region::Core => 3,
            Region::Deep => 5,
        }
    }

}

/// The class of capital ship holding a system.
#[derive(Clone, Copy, PartialEq, Eq, Debug, Structural)]
pub enum CapitalKind {
    /// A picket: short, lightly gunned, one dome.
    ImperialFrigate,
    /// The wedge: a long arrowhead bristling with batteries, its domes on the
    /// tower and its bays feeding fighters into the court.
    StarDestroyer,
    /// A moon-sized plate of armour with a trench cut across it, and a port at
    /// the bottom of the trench that ends it.
    DeathStar,
    /// The command ship: a wedge twice the size, and twice the batteries.
    SuperDestroyer,
    /// An interdictor: gravity-well projectors that hold a hull in the system
    /// and drag it wherever they please.
    Interdictor,
}

impl CapitalKind {
    pub open spec fn spec_name(self) -> &'static str {
        match self {
            CapitalKind::ImperialFrigate => "Imperial frigate",
            CapitalKind::StarDestroyer => "Star Destroyer",
            CapitalKind::DeathStar => "Death Star",
            CapitalKind::SuperDestroyer => "Super Star Destroyer",
            CapitalKind::Interdictor => "Interdictor cruiser",
        }
    }

    #[verifier::when_used_as_spec(spec_name)]
    pub fn name(self) -> (r: &'static str)
        ensures r == self.spec_name(),
    {
        match self {
            CapitalKind::ImperialFrigate => "Imperial frigate",
            CapitalKind::StarDestroyer => "Star Destroyer",
            CapitalKind::DeathStar => "Death Star",
            CapitalKind::SuperDestroyer => "Super Star Destroyer",
            CapitalKind::Interdictor => "Interdictor cruiser",
        }
    }

    pub open spec fn spec_depth(self) -> i16 {
        match self {
            CapitalKind::ImperialFrigate => 3,
            CapitalKind::StarDestroyer => 6,
            CapitalKind::DeathStar => 8,
            CapitalKind::SuperDestroyer => 9,
            CapitalKind::Interdictor => 5,
        }
    }

    /// Rows of hull, counted down from the anchor.
    #[verifier::when_used_as_spec(spec_depth)]
    pub fn depth(self) -> (r: i16)
        ensures r == self.spec_depth(),
    {
        match self {
            CapitalKind::ImperialFrigate => 3,
            CapitalKind::StarDestroyer => 6,
            CapitalKind::DeathStar => 8,
            CapitalKind::SuperDestroyer => 9,
            CapitalKind::Interdictor => 5,
        }
    }

    pub open spec fn spec_hull(self) -> i32 {
        match self {
            CapitalKind::ImperialFrigate => 120,
            CapitalKind::StarDestroyer => 260,
            CapitalKind::DeathStar => 400,
            CapitalKind::SuperDestroyer => 700,
            CapitalKind::Interdictor => 220,
        }
    }

    /// Hull points before the campaign scales it.
    #[verifier::when_used_as_spec(spec_hull)]
    pub fn hull(self) -> (r: i32)
        ensures r == self.spec_hull(),
    {
        match self {
            CapitalKind::ImperialFrigate => 120,
            CapitalKind::StarDestroyer => 260,
            CapitalKind::DeathStar => 400,
            CapitalKind::SuperDestroyer => 700,
            CapitalKind::Interdictor => 220,
        }
    }

}

/// What a piece of a capital ship does.
#[derive(Clone, Copy, PartialEq, Eq, Debug, Structural)]
pub enum Emplacement {
    /// While one still stands the hull cannot be touched at all.
    ShieldDome,
    /// Heavy batteries: two shield pips a hit.
    Turbolaser,
    /// Launches fighters until it is knocked out.
    HangarBay,
    /// The command tower: without it the ship's guns are half as quick.
    CommandTower,
    /// The engines: without them the ship cannot hold station.
    EngineBank,
    /// Drags the hull toward the ship.
    TractorBeam,
    /// The weak point at the bottom of the trench. One hit through the shields
    /// takes the whole ship.
    ExhaustPort,
    /// A gravity-well projector: it drags harder than a tractor beam, and while
    /// one is up no hull in the system can go to lightspeed.
    GravityProjector,
}

impl Emplacement {
    pub open spec fn spec_name(self) -> &'static str {
        match self {
            Emplacement::ShieldDome => "shield generator",
            Emplacement::Turbolaser => "turbolaser battery",
            Emplacement::HangarBay => "hangar bay",
            Emplacement::CommandTower => "bridge tower",
            Emplacement::EngineBank => "ion engines",
            Emplacement::TractorBeam => "tractor beam",
            Emplacement::ExhaustPort => "thermal exhaust port",
            Emplacement::GravityProjector => "gravity-well projector",
        }
    }

    #[verifier::when_used_as_spec(spec_name)]
    pub fn name(self) -> (r: &'static str)
        ensures r == self.spec_name(),
    {
        match self {
            Emplacement::ShieldDome => "shield generator",
            Emplacement::Turbolaser => "turbolaser battery",
            Emplacement::HangarBay => "hangar bay",
            Emplacement::CommandTower => "bridge tower",
            Emplacement::EngineBank => "ion engines",
            Emplacement::TractorBeam => "tractor beam",
            Emplacement::ExhaustPort => "thermal exhaust port",
            Emplacement::GravityProjector => "gravity-well projector",
        }
    }

    pub open spec fn spec_glyph(self) -> &'static str {
        match self {
            Emplacement::ShieldDome => "◓",
            Emplacement::Turbolaser => "╪",
            Emplacement::HangarBay => "⊓",
            Emplacement::CommandTower => "♜",
            Emplacement::EngineBank => "◙",
            Emplacement::TractorBeam => "◈",
            Emplacement::ExhaustPort => "◎",
            Emplacement::GravityProjector => "◍",
        }
    }

    #[verifier::when_used_as_spec(spec_glyph)]
    pub fn glyph(self) -> (r: &'static str)
        ensures r == self.spec_glyph(),
    {
        match self {
            Emplacement::ShieldDome => "◓",
            Emplacement::Turbolaser => "╪",
            Emplacement::HangarBay => "⊓",
            Emplacement::CommandTower => "♜",
            Emplacement::EngineBank => "◙",
            Emplacement::TractorBeam => "◈",
            Emplacement::ExhaustPort => "◎",
            Emplacement::GravityProjector => "◍",
        }
    }

    pub open spec fn spec_hp(self) -> i32 {
        match self {
            Emplacement::ShieldDome => 26,
            Emplacement::Turbolaser => 14,
            Emplacement::HangarBay => 20,
            Emplacement::CommandTower => 30,
            Emplacement::EngineBank => 18,
            Emplacement::TractorBeam => 16,
            Emplacement::ExhaustPort => 6,
            Emplacement::GravityProjector => 22,
        }
    }

    #[verifier::when_used_as_spec(spec_hp)]
    pub fn hp(self) -> (r: i32)
        ensures r == self.spec_hp(),
    {
        match self {
            Emplacement::ShieldDome => 26,
            Emplacement::Turbolaser => 14,
            Emplacement::HangarBay => 20,
            Emplacement::CommandTower => 30,
            Emplacement::EngineBank => 18,
            Emplacement::TractorBeam => 16,
            Emplacement::ExhaustPort => 6,
            Emplacement::GravityProjector => 22,
        }
    }

    pub open spec fn spec_score(self) -> u32 {
        match self {
            Emplacement::ShieldDome => 400,
            Emplacement::Turbolaser => 200,
            Emplacement::HangarBay => 300,
            Emplacement::CommandTower => 500,
            Emplacement::EngineBank => 250,
            Emplacement::TractorBeam => 350,
            Emplacement::ExhaustPort => 1_000,
            Emplacement::GravityProjector => 450,
        }
    }

    #[verifier::when_used_as_spec(spec_score)]
    pub fn score(self) -> (r: u32)
        ensures r == self.spec_score(),
    {
        match self {
            Emplacement::ShieldDome => 400,
            Emplacement::Turbolaser => 200,
            Emplacement::HangarBay => 300,
            Emplacement::CommandTower => 500,
            Emplacement::EngineBank => 250,
            Emplacement::TractorBeam => 350,
            Emplacement::ExhaustPort => 1_000,
            Emplacement::GravityProjector => 450,
        }
    }

}

/// What a pilot can do with the Force, once there is enough of it.
#[derive(Clone, Copy, PartialEq, Eq, Debug, Structural)]
pub enum ForcePower {
    /// Stretch out: everything the Empire throws flies at half speed.
    Sense,
    /// Pull: every loose pickup on the court comes to the hull.
    Pull,
    /// Let go: the next torpedo salvo flies itself into a weak point.
    Guided,
}

impl ForcePower {
    pub open spec fn spec_name(self) -> &'static str {
        match self {
            ForcePower::Sense => "sense",
            ForcePower::Pull => "pull",
            ForcePower::Guided => "guided",
        }
    }

    #[verifier::when_used_as_spec(spec_name)]
    pub fn name(self) -> (r: &'static str)
        ensures r == self.spec_name(),
    {
        match self {
            ForcePower::Sense => "sense",
            ForcePower::Pull => "pull",
            ForcePower::Guided => "guided",
        }
    }

    pub open spec fn spec_cost(self) -> u32 {
        match self {
            ForcePower::Sense => SENSE_COST,
            ForcePower::Pull => PULL_COST,
            ForcePower::Guided => GUIDED_COST,
        }
    }

    #[verifier::when_used_as_spec(spec_cost)]
    pub fn cost(self) -> (r: u32)
        ensures r == self.spec_cost(),
    {
        match self {
            ForcePower::Sense => SENSE_COST,
            ForcePower::Pull => PULL_COST,
            ForcePower::Guided => GUIDED_COST,
        }
    }

}

/// What the Alliance calls you, by the flying you have done.
#[derive(Clone, Copy, PartialEq, Eq, PartialOrd, Ord, Debug, Structural)]
pub enum Rank {
    FlightCadet,
    FlightOfficer,
    Lieutenant,
    Captain,
    Commander,
    General,
}

impl Rank {
    pub open spec fn spec_of_level(level: u32) -> Rank {
        if level <= 2 {
            Rank::FlightCadet
        } else if level <= 5 {
            Rank::FlightOfficer
        } else if level <= 9 {
            Rank::Lieutenant
        } else if level <= 14 {
            Rank::Captain
        } else if level <= 21 {
            Rank::Commander
        } else {
            Rank::General
        }
    }

    /// The rank a pilot of this level has earned.
    #[verifier::when_used_as_spec(spec_of_level)]
    pub fn of_level(level: u32) -> (r: Rank)
        ensures r == Self::spec_of_level(level),
    {
        if level <= 2 {
            Rank::FlightCadet
        } else if level <= 5 {
            Rank::FlightOfficer
        } else if level <= 9 {
            Rank::Lieutenant
        } else if level <= 14 {
            Rank::Captain
        } else if level <= 21 {
            Rank::Commander
        } else {
            Rank::General
        }
    }

    pub open spec fn spec_name(self) -> &'static str {
        match self {
            Rank::FlightCadet => "Flight Cadet",
            Rank::FlightOfficer => "Flight Officer",
            Rank::Lieutenant => "Lieutenant",
            Rank::Captain => "Captain",
            Rank::Commander => "Commander",
            Rank::General => "General",
        }
    }

    #[verifier::when_used_as_spec(spec_name)]
    pub fn name(self) -> (r: &'static str)
        ensures r == self.spec_name(),
    {
        match self {
            Rank::FlightCadet => "Flight Cadet",
            Rank::FlightOfficer => "Flight Officer",
            Rank::Lieutenant => "Lieutenant",
            Rank::Captain => "Captain",
            Rank::Commander => "Commander",
            Rank::General => "General",
        }
    }

}

/// A world the fighting happens over. Most systems have one hanging in the
/// court; a surface mission is flown down on the deck of one.
#[derive(Clone, Copy, PartialEq, Eq, Hash, Debug, Structural)]
pub enum Planet {
    Tatooine,
    Hoth,
    Yavin,
    Endor,
    Bespin,
    Kessel,
    Alderaan,
    Jakku,
    Scarif,
    Mustafar,
    Dagobah,
    Coruscant,
    Naboo,
    Geonosis,
    Mandalore,
    /// Nothing but stars out here.
    DeepSpace,
}

impl Planet {
    pub const ALL: [Planet; 16] = [
        Planet::Tatooine,
        Planet::Hoth,
        Planet::Yavin,
        Planet::Endor,
        Planet::Bespin,
        Planet::Kessel,
        Planet::Alderaan,
        Planet::Jakku,
        Planet::Scarif,
        Planet::Mustafar,
        Planet::Dagobah,
        Planet::Coruscant,
        Planet::Naboo,
        Planet::Geonosis,
        Planet::Mandalore,
        Planet::DeepSpace,
    ];

    pub open spec fn spec_name(self) -> &'static str {
        match self {
            Planet::Tatooine => "Tatooine",
            Planet::Hoth => "Hoth",
            Planet::Yavin => "Yavin IV",
            Planet::Endor => "Endor",
            Planet::Bespin => "Bespin",
            Planet::Kessel => "Kessel",
            Planet::Alderaan => "Alderaan",
            Planet::Jakku => "Jakku",
            Planet::Scarif => "Scarif",
            Planet::Mustafar => "Mustafar",
            Planet::Dagobah => "Dagobah",
            Planet::Coruscant => "Coruscant",
            Planet::Naboo => "Naboo",
            Planet::Geonosis => "Geonosis",
            Planet::Mandalore => "Mandalore",
            Planet::DeepSpace => "deep space",
        }
    }

    #[verifier::when_used_as_spec(spec_name)]
    pub fn name(self) -> (r: &'static str)
        ensures r == self.spec_name(),
    {
        match self {
            Planet::Tatooine => "Tatooine",
            Planet::Hoth => "Hoth",
            Planet::Yavin => "Yavin IV",
            Planet::Endor => "Endor",
            Planet::Bespin => "Bespin",
            Planet::Kessel => "Kessel",
            Planet::Alderaan => "Alderaan",
            Planet::Jakku => "Jakku",
            Planet::Scarif => "Scarif",
            Planet::Mustafar => "Mustafar",
            Planet::Dagobah => "Dagobah",
            Planet::Coruscant => "Coruscant",
            Planet::Naboo => "Naboo",
            Planet::Geonosis => "Geonosis",
            Planet::Mandalore => "Mandalore",
            Planet::DeepSpace => "deep space",
        }
    }

    pub open spec fn spec_blurb(self) -> &'static str {
        match self {
            Planet::Tatooine => "twin suns over open desert",
            Planet::Hoth => "ice, and not much else",
            Planet::Yavin => "a gas giant with a moon full of Rebels",
            Planet::Endor => "forest moon under a half-built station",
            Planet::Bespin => "gas streams and floating cities",
            Planet::Kessel => "spice mines at the edge of the Maw",
            Planet::Alderaan => "what is left of it",
            Planet::Jakku => "a graveyard of hulls half-buried in sand",
            Planet::Scarif => "beaches, and a shield gate above them",
            Planet::Mustafar => "lava, ash and Imperial works",
            Planet::Dagobah => "swamp thick enough to hide in",
            Planet::Coruscant => "the whole world is one city",
            Planet::Naboo => "green plains and a hangar full of fighters",
            Planet::Geonosis => "red rock and droid foundries",
            Planet::Mandalore => "grey dust and old armour",
            Planet::DeepSpace => "nothing out here but stars",
        }
    }

    #[verifier::when_used_as_spec(spec_blurb)]
    pub fn blurb(self) -> (r: &'static str)
        ensures r == self.spec_blurb(),
    {
        match self {
            Planet::Tatooine => "twin suns over open desert",
            Planet::Hoth => "ice, and not much else",
            Planet::Yavin => "a gas giant with a moon full of Rebels",
            Planet::Endor => "forest moon under a half-built station",
            Planet::Bespin => "gas streams and floating cities",
            Planet::Kessel => "spice mines at the edge of the Maw",
            Planet::Alderaan => "what is left of it",
            Planet::Jakku => "a graveyard of hulls half-buried in sand",
            Planet::Scarif => "beaches, and a shield gate above them",
            Planet::Mustafar => "lava, ash and Imperial works",
            Planet::Dagobah => "swamp thick enough to hide in",
            Planet::Coruscant => "the whole world is one city",
            Planet::Naboo => "green plains and a hangar full of fighters",
            Planet::Geonosis => "red rock and droid foundries",
            Planet::Mandalore => "grey dust and old armour",
            Planet::DeepSpace => "nothing out here but stars",
        }
    }

    pub open spec fn spec_shade(self) -> &'static str {
        match self {
            Planet::Hoth | Planet::Bespin | Planet::Naboo => "░",
            Planet::Tatooine | Planet::Jakku | Planet::Geonosis | Planet::Scarif => "▒",
            Planet::DeepSpace => " ",
            _ => "▓",
        }
    }

    /// The shading the disc is drawn with; ice reads bright, lava dark.
    #[verifier::when_used_as_spec(spec_shade)]
    pub fn shade(self) -> (r: &'static str)
        ensures r == self.spec_shade(),
    {
        match self {
            Planet::Hoth | Planet::Bespin | Planet::Naboo => "░",
            Planet::Tatooine | Planet::Jakku | Planet::Geonosis | Planet::Scarif => "▒",
            Planet::DeepSpace => " ",
            _ => "▓",
        }
    }

    pub open spec fn spec_surface(self) -> bool {
        matches!(
            self,
            Planet::Hoth | Planet::Endor | Planet::Scarif | Planet::Geonosis
        )
    }

    /// Whether a mission here is flown down on the deck rather than in orbit.
    #[verifier::when_used_as_spec(spec_surface)]
    pub fn surface(self) -> (r: bool)
        ensures r == self.spec_surface(),
    {
        matches!(
            self,
            Planet::Hoth | Planet::Endor | Planet::Scarif | Planet::Geonosis
        )
    }

    pub open spec fn spec_of_sector(sector: Sector) -> Planet {
        match sector {
            Sector::SolarCorona => Planet::Tatooine,
            Sector::AsteroidBelt => Planet::Hoth,
            Sector::Nebula => Planet::Kessel,
            Sector::DebrisRing => Planet::Alderaan,
            Sector::Wreckage => Planet::Jakku,
            Sector::CometTrail => Planet::Bespin,
            Sector::VoidRift => Planet::Mustafar,
            Sector::Minefield => Planet::Scarif,
            Sector::IonStorm => Planet::Geonosis,
            Sector::OpenSpace => Planet::DeepSpace,
        }
    }

    /// Which world hangs over a given stretch of space.
    #[verifier::when_used_as_spec(spec_of_sector)]
    pub fn of_sector(sector: Sector) -> (r: Planet)
        ensures r == Self::spec_of_sector(sector),
    {
        match sector {
            Sector::SolarCorona => Planet::Tatooine,
            Sector::AsteroidBelt => Planet::Hoth,
            Sector::Nebula => Planet::Kessel,
            Sector::DebrisRing => Planet::Alderaan,
            Sector::Wreckage => Planet::Jakku,
            Sector::CometTrail => Planet::Bespin,
            Sector::VoidRift => Planet::Mustafar,
            Sector::Minefield => Planet::Scarif,
            Sector::IonStorm => Planet::Geonosis,
            Sector::OpenSpace => Planet::DeepSpace,
        }
    }

}

/// What a mission actually asks of the squadron.
#[derive(Clone, Copy, PartialEq, Eq, Debug, Structural)]
pub enum Objective {
    /// Clear the system: everything Imperial in it has to go.
    Destroy,
    /// Get the transports out: this many have to reach the far side.
    Escort { needed: usize },
    /// Hold out for this long, whatever comes.
    Survive { ticks: u32 },
    /// Bring the walkers down; the cables are the only thing that will do it.
    Walkers { count: usize },
    /// Down the trench and put one in the port.
    CoreRun,
}

/// Which of the three systems power is being sent to.
#[derive(Clone, Copy, PartialEq, Eq, Debug, Structural)]
pub enum System {
    Lasers,
    Shields,
    Engines,
}

impl System {
    pub open spec fn spec_name(self) -> &'static str {
        match self {
            System::Lasers => "lasers",
            System::Shields => "shields",
            System::Engines => "engines",
        }
    }

    #[verifier::when_used_as_spec(spec_name)]
    pub fn name(self) -> (r: &'static str)
        ensures r == self.spec_name(),
    {
        match self {
            System::Lasers => "lasers",
            System::Shields => "shields",
            System::Engines => "engines",
        }
    }

}

impl Difficulty {
    pub open spec fn spec_drop_chance(self) -> u64 {
        (DROP_CHANCE + self.spec_aggression() - 1) as u64
    }

    /// 1-in-N odds a kill drops something; drops thin out as it gets harder.
    #[verifier::when_used_as_spec(spec_drop_chance)]
    pub fn drop_chance(self) -> (r: u64)
        ensures
            r == self.spec_drop_chance(),
    {
        DROP_CHANCE + self.aggression() - 1
    }
}

impl Part {
    /// Where the part sits in `Part::ALL`, which is also its slot in a loadout.
    pub open spec fn index(self) -> int {
        match self {
            Part::Engine => 0,
            Part::Reactor => 1,
            Part::Plating => 2,
            Part::Cannon => 3,
            Part::Magazine => 4,
        }
    }

    /// The slot of the part in a loadout's tier table.
    pub fn slot(self) -> (r: usize)
        ensures
            r == self.index(),
            r < 5,
    {
        match self {
            Part::Engine => 0,
            Part::Reactor => 1,
            Part::Plating => 2,
            Part::Cannon => 3,
            Part::Magazine => 4,
        }
    }

    /// What the next tier costs; each one is dearer than the last.
    pub fn price(self, tier: u32) -> (r: u32)
        requires
            250 * tier + 300 <= u32::MAX,
        ensures
            r == 300 + 250 * tier,
    {
        300 + 250 * tier
    }
}

impl Weapon {
    /// Where the gun sits in `Weapon::ALL`.
    pub open spec fn index(self) -> int {
        match self {
            Weapon::LaserCannon => 0,
            Weapon::QuadLaser => 1,
            Weapon::HeavyLaser => 2,
            Weapon::ConcussionMissile => 3,
            Weapon::ProtonBomb => 4,
            Weapon::RepeatingBlaster => 5,
            Weapon::RocketPod => 6,
            Weapon::Flechette => 7,
            Weapon::MassDriver => 8,
            Weapon::ArcCaster => 9,
            Weapon::ProtonTorpedo => 10,
            Weapon::IonCannon => 11,
            Weapon::TowCable => 12,
        }
    }

    /// The next gun in the rotation, for the hangar's swap.
    pub fn next(self) -> (r: Weapon)
        ensures
            r == Weapon::ALL[(self.index() + 1) % 13],
    {
        let all = Weapon::ALL;
        let mut i: usize = 0;
        while i < 13
            invariant
                i <= 13,
                all == Weapon::ALL,
                forall|j: int| 0 <= j < i ==> all[j] != self,
            decreases 13 - i,
        {
            if all[i] == self {
                assert(i == self.index());
                return all[(i + 1) % 13];
            }
            i = i + 1;
        }
        assert(all[self.index()] == self);
        all[0]
    }
}

impl Formation {
    /// Board cell of a formation slot, as `(row, col)`.
    pub open spec fn spec_slot(self, row: int, col: int) -> (int, int) {
        let centre = (COLS - 1) / 2;
        let spread = if col >= centre { col - centre } else { centre - col };
        let x = BASE_X + col * ENEMY_GAP;
        let y = match self {
            Formation::Grid => FORMATION_TOP + row * 2,
            Formation::Vee => FORMATION_TOP + row * 2 + spread,
            Formation::Diamond => FORMATION_TOP + row * 2 + (centre - spread),
            Formation::Columns => FORMATION_TOP + row * 3 + col % 2,
            Formation::Arc => FORMATION_TOP + row * 2 + spread * spread / 6,
        };
        (y, x)
    }

    /// Board cell of the formation slot at grid position `(row, col)`. A
    /// formation is a few rows of a dozen hulls; the bounds, far above that,
    /// keep the cell inside `i16`.
    pub fn slot(self, row: usize, col: usize) -> (r: (i16, i16))
        requires
            row <= 1000,
            col <= 100,
        ensures
            r.0 == self.spec_slot(row as int, col as int).0,
            r.1 == self.spec_slot(row as int, col as int).1,
    {
        let r = row as i16;
        let c = col as i16;
        let centre = (COLS as i16 - 1) / 2;
        let spread = if c >= centre { c - centre } else { centre - c };
        let x = BASE_X + c * ENEMY_GAP;
        assert(spread * spread <= 10000) by (nonlinear_arith)
            requires spread <= 100, spread >= 0;
        let y = match self {
            Formation::Grid => FORMATION_TOP + r * 2,
            Formation::Vee => FORMATION_TOP + r * 2 + spread,
            Formation::Diamond => FORMATION_TOP + r * 2 + (centre - spread),
            Formation::Columns => FORMATION_TOP + r * 3 + c % 2,
            Formation::Arc => FORMATION_TOP + r * 2 + spread * spread / 6,
        };
        (y, x)
    }
}

impl Sector {
    pub open spec fn spec_of_wave(wave: u32) -> Sector {
        Sector::ALL[((wave + 9) % 10) as int]
    }

    /// The sector a wave number is fought in, cycling through `Sector::ALL`.
    #[verifier::when_used_as_spec(spec_of_wave)]
    pub fn of_wave(wave: u32) -> (r: Sector)
        ensures
            r == Sector::spec_of_wave(wave),
    {
        let i = ((wave as u64 + 9) % 10) as usize;
        Sector::ALL[i]
    }
}

impl Galaxy {
    pub open spec fn spec_sectors(self) -> Seq<Sector> {
        match self {
            Galaxy::Orion => Sector::ALL@,
            Galaxy::Hive => seq![Sector::OpenSpace, Sector::Nebula, Sector::CometTrail, Sector::IonStorm],
            Galaxy::Forge => seq![Sector::Wreckage, Sector::DebrisRing, Sector::Minefield, Sector::AsteroidBelt],
            Galaxy::Cinder => seq![Sector::SolarCorona, Sector::AsteroidBelt, Sector::OpenSpace, Sector::IonStorm],
            Galaxy::Abyss => seq![Sector::VoidRift, Sector::Nebula, Sector::Minefield, Sector::DebrisRing],
        }
    }

    /// The sectors that show up in this galaxy.
    pub fn sectors(self) -> (r: Vec<Sector>)
        ensures
            r@ == self.spec_sectors(),
    {
        match self {
            Galaxy::Orion => {
                let mut v = Vec::new();
                let all = Sector::ALL;
                let mut i: usize = 0;
                while i < 10
                    invariant
                        i <= 10,
                        all == Sector::ALL,
                        v@ == all@.subrange(0, i as int),
                    decreases 10 - i,
                {
                    v.push(all[i]);
                    i = i + 1;
                }
                v
            },
            Galaxy::Hive => vec![Sector::OpenSpace, Sector::Nebula, Sector::CometTrail, Sector::IonStorm],
            Galaxy::Forge => vec![Sector::Wreckage, Sector::DebrisRing, Sector::Minefield, Sector::AsteroidBelt],
            Galaxy::Cinder => vec![Sector::SolarCorona, Sector::AsteroidBelt, Sector::OpenSpace, Sector::IonStorm],
            Galaxy::Abyss => vec![Sector::VoidRift, Sector::Nebula, Sector::Minefield, Sector::DebrisRing],
        }
    }

    pub open spec fn spec_terrains(self) -> Seq<TerrainKind> {
        match self {
            Galaxy::Orion => TerrainKind::ALL@,
            Galaxy::Hive => seq![TerrainKind::Open, TerrainKind::Pillars, TerrainKind::Canyon, TerrainKind::Gates],
            Galaxy::Forge => seq![TerrainKind::Reef, TerrainKind::Maze, TerrainKind::Spine, TerrainKind::Pillars],
            Galaxy::Cinder => seq![TerrainKind::Canyon, TerrainKind::Cave, TerrainKind::Open, TerrainKind::Spine],
            Galaxy::Abyss => seq![TerrainKind::Tunnel, TerrainKind::Maze, TerrainKind::Cave, TerrainKind::Gates],
        }
    }

    /// The rock that shows up in this galaxy.
    pub fn terrains(self) -> (r: Vec<TerrainKind>)
        ensures
            r@ == self.spec_terrains(),
    {
        match self {
            Galaxy::Orion => {
                let mut v = Vec::new();
                let all = TerrainKind::ALL;
                let mut i: usize = 0;
                while i < 10
                    invariant
                        i <= 10,
                        all == TerrainKind::ALL,
                        v@ == all@.subrange(0, i as int),
                    decreases 10 - i,
                {
                    v.push(all[i]);
                    i = i + 1;
                }
                v
            },
            Galaxy::Hive => vec![TerrainKind::Open, TerrainKind::Pillars, TerrainKind::Canyon, TerrainKind::Gates],
            Galaxy::Forge => vec![TerrainKind::Reef, TerrainKind::Maze, TerrainKind::Spine, TerrainKind::Pillars],
            Galaxy::Cinder => vec![TerrainKind::Canyon, TerrainKind::Cave, TerrainKind::Open, TerrainKind::Spine],
            Galaxy::Abyss => vec![TerrainKind::Tunnel, TerrainKind::Maze, TerrainKind::Cave, TerrainKind::Gates],
        }
    }

    /// Roughly how many systems that grid holds once it is scattered.
    pub fn systems(self) -> (r: usize)
        ensures
            r == self.spec_chart().0 * self.spec_chart().1 * 7 / 10,
    {
        let (w, h) = self.chart();
        assert(w <= 16 && h <= 9);
        assert(w * h * 7 <= 1008) by (nonlinear_arith)
            requires
                w <= 16,
                h <= 9,
        ;
        w * h * 7 / 10
    }
}

impl Region {
    /// How deep into the galaxy the band is, rim first.
    pub open spec fn spec_band(self) -> u8 {
        match self {
            Region::Rim => 0,
            Region::Verge => 1,
            Region::Reach => 2,
            Region::Core => 3,
            Region::Deep => 4,
        }
    }

    /// How deep into the galaxy the band is, rim first; the order the bands
    /// compare in.
    #[verifier::when_used_as_spec(spec_band)]
    pub fn band(self) -> (r: u8)
        ensures
            r == self.spec_band(),
    {
        match self {
            Region::Rim => 0,
            Region::Verge => 1,
            Region::Reach => 2,
            Region::Core => 3,
            Region::Deep => 4,
        }
    }

    pub open spec fn spec_of_column(col: usize, width: usize) -> Region {
        let w: int = if width >= 1 { width as int } else { 1 };
        let band = (col as int * 5) / w;
        if band == 0 {
            Region::Rim
        } else if band == 1 {
            Region::Verge
        } else if band == 2 {
            Region::Reach
        } else if band == 3 {
            Region::Core
        } else {
            Region::Deep
        }
    }

    /// Which band a column of the chart falls in.
    pub fn of_column(col: usize, width: usize) -> (r: Region)
        requires
            col * 5 <= usize::MAX,
        ensures
            r == Region::spec_of_column(col, width),
    {
        let w = if width >= 1 { width } else { 1 };
        match col * 5 / w {
            0 => Region::Rim,
            1 => Region::Verge,
            2 => Region::Reach,
            3 => Region::Core,
            _ => Region::Deep,
        }
    }
}

impl CapitalKind {
    pub open spec fn spec_span(self, row: int) -> int {
        match self {
            CapitalKind::ImperialFrigate => 9,
            CapitalKind::StarDestroyer => 4 + row * 3,
            CapitalKind::DeathStar => W / 2 - 2,
            CapitalKind::SuperDestroyer => 5 + row * 4,
            CapitalKind::Interdictor => 10,
        }
    }

    /// Half-width of the hull on a given row of it: the wedge tapers, the
    /// station is a wall. A hull is a dozen rows deep; the bound on `row`,
    /// far above that, keeps the taper inside `i16`.
    pub fn span(self, row: i16) -> (r: i16)
        requires
            -8000 <= row <= 8000,
        ensures
            r == self.spec_span(row as int),
    {
        match self {
            CapitalKind::ImperialFrigate => 9,
            CapitalKind::StarDestroyer => 4 + row * 3,
            CapitalKind::DeathStar => W / 2 - 2,
            CapitalKind::SuperDestroyer => 5 + row * 4,
            CapitalKind::Interdictor => 10,
        }
    }
}

} // verus!
