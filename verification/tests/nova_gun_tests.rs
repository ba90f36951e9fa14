#![allow(unused_imports, unused_variables, unused_mut, dead_code)]

use zmax_term::nova::consts::{FLAK_FUSE};
use zmax_term::nova::entities::{Enemy};
use zmax_term::nova::game::{Game};
use zmax_term::nova::kinds::{Difficulty, EnemyKind, Galaxy, NodeBonus, NodeKind, Region, Sector, ShipClass, Status, TerrainKind, Weapon};
use zmax_term::nova::starmap::{MapNode};
use zmax_term::nova::terrain::{Terrain};

/// A cruiser one keypress into wave one, on an empty stretch of court.
fn flying() -> Game {
    let mut g = Game::new(1);
    g.start(ShipClass::XWing, Difficulty::Normal, Galaxy::Orion);
    g.node = MapNode {
        pos: (0, 0),
        region: Region::Rim,
        kind: NodeKind::Battle,
        sector: Sector::OpenSpace,
        terrain: TerrainKind::Open,
        bonus: NodeBonus::Refit,
        cleared: false,
        explored: true,
    };
    g.status = Status::Playing;
    g.spawn_wave();
    g.terrain = Terrain::new(TerrainKind::Open, 1);
    g.turrets.clear();
    g.hazards.clear();
    g.enemies.clear();
    g.mines.clear();
    g.debris.clear();
    g.asteroids.clear();
    g
}


#[test]
fn the_vulcan_hoses_faster_than_anything_else() {
    let mut g = flying();
    g.weapon = Weapon::LaserCannon;
    let blaster = g.cadence();
    g.weapon = Weapon::RepeatingBlaster;
    assert!(g.cadence() < blaster, "the machine gun barely pauses");
    g.weapon = Weapon::MassDriver;
    assert!(g.cadence() > blaster, "the rail gun takes its time");
    g.weapon = Weapon::RepeatingBlaster;
    g.weapon_level = 3;
    g.fire();
    assert_eq!(g.shots.len(), 3, "and walks three rounds across at level 3");
}

#[test]
fn a_rocket_takes_the_neighbours_with_it() {
    let mut g = flying();
    g.weapon = Weapon::RocketPod;
    let (row, col) = (g.ship.0 - 2, g.ship.1);
    g.enemies = vec![
        Enemy::new(EnemyKind::TieFighter, (row, col)),
        Enemy::new(EnemyKind::TieFighter, (row, col + 1)),
        Enemy::new(EnemyKind::TieFighter, (row - 1, col - 1)),
    ];
    g.fire();
    g.advance_shots();
    assert!(g.enemies.is_empty(), "the blast clears the cells around it");
}

#[test]
fn a_flak_shell_bursts_into_a_fan() {
    let mut g = flying();
    g.weapon = Weapon::Flechette;
    g.fire();
    assert_eq!(g.shots.len(), 1, "one shell goes up");
    for _ in 0..FLAK_FUSE {
        g.advance_shots();
    }
    assert_eq!(g.shots.len(), 5, "and comes apart into five fragments");
    assert!(
        g.shots.iter().all(|s| s.fuse == 0),
        "fragments have no fuse of their own"
    );
}

#[test]
fn a_rail_slug_runs_the_length_of_the_court() {
    let mut g = flying();
    g.weapon = Weapon::MassDriver;
    let col = g.ship.1;
    g.enemies = (2..=5)
        .map(|dr| Enemy::new(EnemyKind::Gunboat, (g.ship.0 - dr, col)))
        .collect();
    g.fire();
    g.advance_shots();
    assert!(
        g.enemies.is_empty(),
        "the slug punches through the whole column"
    );
}

#[test]
fn an_arc_bolt_earths_itself_through_a_crowd() {
    let mut g = flying();
    g.weapon = Weapon::ArcCaster;
    g.weapon_level = 2;
    let (row, col) = (g.ship.0 - 2, g.ship.1);
    g.enemies = vec![
        Enemy::new(EnemyKind::TieFighter, (row, col)),
        Enemy::new(EnemyKind::TieFighter, (row, col + 3)),
        Enemy::new(EnemyKind::TieFighter, (row - 1, col + 5)),
    ];
    g.fire();
    g.advance_shots();
    assert!(
        g.enemies.len() <= 1,
        "the bolt jumps from hull to hull, {} left",
        g.enemies.len()
    );
}

#[test]
fn every_gun_puts_something_in_the_air() {
    for weapon in Weapon::ALL {
        let mut g = flying();
        g.weapon = weapon;
        g.weapon_level = 3;
        g.fire();
        assert!(
            !g.shots.is_empty(),
            "{} fires something at level three",
            weapon.name()
        );
    }
}
