//! The tuning of the Nova court: its size, its cadences and its ceilings.

use vstd::prelude::*;

verus! {

/// Court width in cells.
pub const W: i16 = 76;
/// Court height in cells.
pub const H: i16 = 28;
/// Topmost row the ship may fly to; it owns the bottom seven rows.
pub const SHIP_TOP: i16 = H - 9;
/// The row the ship starts on.
pub const SHIP_ROW: i16 = H - 1;
/// Formation columns.
pub const COLS: usize = 12;
/// Formation rows the court has room for.
pub const ROWS: usize = 6;
/// Horizontal spacing between formation columns.
pub const ENEMY_GAP: i16 = 6;
/// Column of the leftmost formation column at zero sway.
pub const BASE_X: i16 = 5;
/// Row of the top formation row.
pub const FORMATION_TOP: i16 = 2;
/// Ticks between successive formation sway steps.
pub const SWAY_CADENCE: u32 = 5;
/// How far the formation drifts to either side.
pub const SWAY_MAX: i16 = 3;
/// 1-in-N chance per tick that a weaver breaks formation into its snaking run.
pub const WEAVE_CHANCE: u64 = 90;
/// Ticks of invulnerability granted after taking a hit.
pub const INVULN_TICKS: u32 = 24;
/// Ticks a kill chain survives without another kill.
pub const COMBO_TICKS: u32 = 60;
/// Ticks a rapid-fire pickup lasts.
pub const RAPID_TICKS: u32 = 240;
/// Highest kill-chain multiplier.
pub const MAX_COMBO: u32 = 8;
/// Highest level any gun can be upgraded to.
pub const MAX_WEAPON_LEVEL: u32 = 3;
/// Ticks an ion hit scrambles an emplacement for.
pub const ION_STUN: u32 = 90;
/// Rows a flak shell climbs before it bursts.
pub const FLAK_FUSE: i16 = 6;
/// How far an arc bolt will reach for its next hull.
pub const ARC_REACH: i16 = 10;
/// Cap on player shots in flight.
pub const MAX_SHOTS: usize = 48;
/// Damage a smart bomb deals to everything on the court.
pub const BOMB_DAMAGE: i32 = 4;
/// Ticks between a cleared wave and the hangar opening.
pub const INTERMISSION_TICKS: u32 = 20;
/// Base 1-in-N chance a kill drops a powerup, before difficulty.
pub const DROP_CHANCE: u64 = 4;
/// Every Nth wave is a boss wave.
pub const BOSS_EVERY: u32 = 4;
/// Base energy meter, and what a hull special costs out of it.
pub const BASE_ENERGY: u32 = 100;
pub const SPECIAL_COST: u32 = 60;
/// Energy the meter recovers per tick before any reactor upgrade.
pub const ENERGY_REGEN: u32 = 1;
/// Columns an Interceptor blink covers, and the invulnerability it lands with.
pub const BLINK_DISTANCE: i16 = 10;
pub const BLINK_IFRAMES: u32 = 20;
/// Ticks a Cruiser bulwark holds enemy fire off the hull.
pub const BULWARK_TICKS: u32 = 60;
/// Columns between the bolts a Juggernaut barrage lays across the court.
pub const BARRAGE_STEP: i16 = 7;
/// The most shield pips any hull can ever carry.
pub const MAX_SHIELD_PIPS: u32 = 8;
/// The Force builds as you fly and is spent on the three things a pilot who
/// trusts it can do: stretch out with his senses, pull what he needs to him,
/// and let go of the targeting computer.
pub const FORCE_MAX: u32 = 100;
pub const FORCE_PER_KILL: u32 = 6;
pub const FORCE_REGEN_TICKS: u32 = 20;
pub const SENSE_COST: u32 = 45;
pub const SENSE_TICKS: u32 = 90;
pub const PULL_COST: u32 = 30;
pub const GUIDED_COST: u32 = 60;
/// Ticks between a walker's shots, and turns of cable it takes to bring one down.
pub const WALKER_CADENCE: u32 = 26;
pub const CABLE_WRAPS: u32 = 2;
/// Ticks a line of radio chatter stays on the display.
pub const CHATTER_TICKS: u32 = 110;
/// Pips of power the reactor splits between lasers, shields and engines, and
/// how long a fully-charged shield takes to knit a pip back.
pub const POWER_PIPS: u32 = 6;
pub const SHIELD_KNIT_TICKS: u32 = 600;
/// Hulls a squad can hold, where the wingmen ride, how often they fire, and
/// what a new hull or a rescue costs.
pub const MAX_SQUAD: usize = 4;
pub const WING_OFFSETS: [i16; 3] = [-6, 6, -11];
pub const WING_CADENCE: u32 = 9;
/// Missiles the launcher fires per salvo, and what it holds to start with.
pub const MISSILE_SALVO: u32 = 2;
pub const MISSILE_START: u32 = 6;
pub const MISSILE_PACK: u32 = 8;
/// Wing drones the ship can carry, and how far out they ride.
pub const MAX_DRONES: usize = 2;
pub const DRONE_OFFSET: i16 = 4;
/// A spare life every this many points.
pub const EXTEND_SCORE: u32 = 25_000;
/// Ticks a sniper spends telegraphing before its shot goes off.
pub const SNIPER_CHARGE: u32 = 8;
/// Ticks a mine sits before it goes off on its own, and how close the ship has
/// to fly to set it off early.
pub const MINE_FUSE: u32 = 200;
pub const MINE_TRIGGER: i16 = 2;
/// Hit points an asteroid carries, and the base 1-in-N odds one drifts in.
pub const ASTEROID_HP: i32 = 5;
pub const ASTEROID_CHANCE: u64 = 260;
/// Hit points a debris block carries.
pub const DEBRIS_HP: i32 = 9;
/// Ticks between the repairs a healer hands out, and how far its reach is.
pub const HEAL_CADENCE: u32 = 40;
pub const HEAL_RANGE: i16 = 6;
/// Points a medal pickup pays, and the salvage that comes with it.
pub const MEDAL_SCORE: u32 = 500;
/// Experience the next pilot level costs, multiplied by the level reached.
pub const XP_PER_LEVEL: u32 = 200;
/// Highest tier any ship component upgrades to.
pub const MAX_TIER: u32 = 4;
/// Ticks between the repair bay module handing back a shield pip.
pub const REPAIR_CADENCE: u32 = 300;
/// Energy an ion surge drains, and how long it stuns the drones for.
pub const SURGE_DRAIN: u32 = 25;
pub const SURGE_STUN: u32 = 40;
/// Rows between the bulkheads in a gates map, and the gap left in each.
pub const GATE_PERIOD: u32 = 7;
pub const GATE_GAP: i16 = 16;
/// Rows in one maze block, and how many of them are walled.
pub const MAZE_PERIOD: u32 = 8;
pub const MAZE_WALL: u32 = 4;
/// Rock columns a row may grow.
pub const PILLARS_PER_ROW: usize = 3;
/// Ticks between the rock scrolling one row down the court.
pub const SCROLL_CADENCE: u32 = 5;
/// Wall turrets a map keeps bolted to its rock, and what they carry.
pub const TURRETS_PER_MAP: usize = 2;
pub const TURRET_HP: i32 = 4;
pub const TURRET_CADENCE: u32 = 34;
/// Ticks between a solar flare stepping one column across the court, and the
/// rhythm it burns on: it is only hot for FLARE_ACTIVE ticks in FLARE_PERIOD.
pub const FLARE_CADENCE: u32 = 4;
pub const FLARE_PERIOD: u32 = 60;
pub const FLARE_ACTIVE: u32 = 18;
/// Ticks the arrival banner stays up for.
pub const BANNER_TICKS: u32 = 40;
/// Rows of parallax backdrop drawn behind the court.
pub const STAR_LAYERS: usize = 3;
/// Segments a serpent boss trails behind its head.
pub const SERPENT_SEGMENTS: usize = 8;
/// The vertical offsets a serpent's body cycles through as it swims.
pub const SERPENT_WAVE: [i16; 8] = [0, 1, 2, 1, 0, -1, -2, -1];
/// The keys the hangar hands out to its lines, in order.
pub const SHOP_KEYS: [char; 20] = [
    '1', '2', '3', '4', '5', '6', '7', '8', '9', 'a', 'c', 'e', 'g', 'i', 'k', 'm', 'o', 's', 'u',
    'y',
];

/// The names hulls are rolled off the line with.
pub const HULL_NAMES: [&'static str; MAX_SQUAD] = ["Red Leader", "Red Two", "Red Three", "Red Five"];

} // verus!
