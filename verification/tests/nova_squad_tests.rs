#![allow(unused_imports, unused_variables, unused_mut, dead_code)]

use zmax_term::nova::consts::{MAX_SQUAD, MISSILE_PACK, MISSILE_SALVO, WING_CADENCE};
use zmax_term::nova::entities::{Enemy, ShopLine, Shot};
use zmax_term::nova::game::{Game};
use zmax_term::nova::kinds::{Difficulty, EnemyKind, Galaxy, NodeBonus, NodeKind, PowerKind, Region, Sector, ShipClass, ShopEntry, Status, Stock, TerrainKind, Weapon};
use zmax_term::nova::starmap::{MapNode};
use zmax_term::nova::terrain::{Terrain};

/// A cruiser one keypress into wave one, on an empty stretch of court.
fn flying() -> Game {
    let mut g = Game::new(1);
    g.start(ShipClass::XWing, Difficulty::Normal, Galaxy::Orion);
    g.node = MapNode {
        pos: (0, 0),
        region: Region::Rim,
        kind: NodeKind::Battle,
        sector: Sector::OpenSpace,
        terrain: TerrainKind::Open,
        bonus: NodeBonus::Refit,
        cleared: false,
        explored: true,
    };
    g.status = Status::Playing;
    g.spawn_wave();
    g.terrain = Terrain::new(TerrainKind::Open, 1);
    g.turrets.clear();
    g.hazards.clear();
    g.enemies.clear();
    g.mines.clear();
    g.debris.clear();
    g.asteroids.clear();
    g
}


fn docked() -> Game {
    let mut g = flying();
    g.status = Status::Hangar;
    g.credits = 20_000;
    g
}

fn line(g: &Game, stock: Stock) -> ShopLine {
    g.shop_lines()
        .into_iter()
        .find(|l| l.entry == ShopEntry::Consumable(stock))
        .expect("the hangar lists it")
}

#[test]
fn a_run_starts_with_one_hull_and_the_hangar_sells_more() {
    let mut g = docked();
    assert_eq!(g.squad.len(), 1, "one hull off the line");
    let hull = line(&g, Stock::Hull);
    assert!(g.buy(hull.key), "a second hull is for sale");
    assert_eq!(g.squad.len(), 2, "and joins the squad");
    assert_ne!(
        g.squad[1].class, g.squad[0].class,
        "a squad is built out of different hulls"
    );
    while g.squad.len() < MAX_SQUAD {
        let hull = line(&g, Stock::Hull);
        assert!(g.buy(hull.key));
    }
    assert!(
        !line(&g, Stock::Hull).available,
        "and it stops at a full squad"
    );
}

#[test]
fn the_pilot_can_climb_into_another_hull_in_the_hangar() {
    let mut g = docked();
    let hull = line(&g, Stock::Hull);
    g.buy(hull.key);
    g.weapon = Weapon::MassDriver;
    let flown = g.class;
    assert!(g.cycle_active(), "the pilot climbs across");
    assert_eq!(g.active, 1);
    assert_ne!(g.class, flown, "into a different hull");
    assert_eq!(g.weapon, Weapon::LaserCannon, "which carries its own gun");
    assert!(g.cycle_active(), "and back again");
    assert_eq!(g.active, 0);
    assert_eq!(
        g.weapon,
        Weapon::MassDriver,
        "the first hull kept its rail gun"
    );
}

#[test]
fn wingmen_fly_alongside_and_fire_on_their_own() {
    let mut g = docked();
    g.buy(line(&g, Stock::Hull).key);
    g.status = Status::Playing;
    let wings = g.wing_cells();
    assert_eq!(wings.len(), 1, "the second hull rides as a wingman");
    assert_ne!(wings[0].1 .1, g.ship.1, "off to one side of the hull");
    g.tick = WING_CADENCE;
    g.advance_wings();
    assert_eq!(g.shots.len(), 1, "and puts its own fire up the court");
}

#[test]
fn a_wingman_can_be_shot_down_and_rescued() {
    let mut g = docked();
    g.buy(line(&g, Stock::Hull).key);
    g.status = Status::Playing;
    let (index, cell) = g.wing_cells()[0];
    let pips = g.squad[index].shield;
    g.enemy_shots = vec![Shot::enemy((cell.0 - 1, cell.1), 0, 1)];
    for _ in 0..pips {
        g.advance_enemy_shots();
        g.enemy_shots = vec![Shot::enemy((cell.0 - 1, cell.1), 0, 1)];
    }
    assert!(!g.squad[index].alive, "the wingman goes down");
    assert!(g.wing_cells().is_empty(), "and stops flying");
    g.status = Status::Hangar;
    assert!(g.buy(line(&g, Stock::Rescue).key), "a yard puts it back up");
    assert!(g.squad[index].alive);
    assert_eq!(g.squad[index].shield, g.squad[index].max_shield);
}

#[test]
fn guns_go_into_the_racks_and_can_be_swapped_mid_fight() {
    let mut g = flying();
    assert_eq!(g.owned, vec![Weapon::LaserCannon], "one gun to start with");
    g.collect(PowerKind::Gun(Weapon::MassDriver));
    g.collect(PowerKind::Gun(Weapon::RepeatingBlaster));
    assert_eq!(g.owned.len(), 3, "picked-up guns are kept");
    assert_eq!(
        g.weapon,
        Weapon::RepeatingBlaster,
        "and the last one is fitted"
    );
    assert!(g.select_weapon(0), "any rack slot can be selected");
    assert_eq!(g.weapon, Weapon::LaserCannon);
    g.cycle_weapon(-1);
    assert_eq!(
        g.weapon,
        Weapon::RepeatingBlaster,
        "and the racks wrap around"
    );
    assert!(!g.select_weapon(9), "empty slots are refused");
}

#[test]
fn a_gun_picked_up_twice_levels_up_rather_than_stacking() {
    let mut g = flying();
    g.collect(PowerKind::Gun(Weapon::Flechette));
    let level = g.weapon_level;
    g.collect(PowerKind::Gun(Weapon::Flechette));
    assert_eq!(g.owned.len(), 2, "the racks hold one of each");
    assert_eq!(g.weapon_level, level + 1, "the second one is an upgrade");
}

#[test]
fn the_launcher_fires_seeking_rounds_off_its_own_ammunition() {
    let mut g = flying();
    g.enemies = vec![Enemy::new(EnemyKind::TieFighter, (4, g.ship.1 - 10))];
    let ammo = g.missiles;
    g.fire_missiles();
    assert_eq!(g.missiles, ammo - 1, "a round leaves the launcher");
    assert_eq!(g.shots.len(), MISSILE_SALVO as usize, "as a salvo");
    assert!(g.shots.iter().all(|s| s.homing), "the rounds seek");
    assert!(g.shots.iter().all(|s| s.splash > 0), "and blast on impact");
    g.advance_shots();
    assert!(
        g.shots.iter().all(|s| s.drift <= 0),
        "leaning toward the hull off to port"
    );
    g.missiles = 0;
    g.shots.clear();
    g.fire_missiles();
    assert!(g.shots.is_empty(), "an empty launcher fires nothing");
}

#[test]
fn the_hangar_sells_missile_packs() {
    let mut g = docked();
    g.missiles = 0;
    assert!(g.buy(line(&g, Stock::Missiles).key));
    assert_eq!(g.missiles, MISSILE_PACK, "a pack is loaded");
}
