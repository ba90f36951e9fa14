#![allow(unused_imports, unused_variables, unused_mut, dead_code)]

use zmax_term::nova::consts::{GATE_GAP, H, W};
use zmax_term::nova::game::{Game};
use zmax_term::nova::kinds::{Difficulty, Galaxy, Hazard, NodeBonus, NodeKind, Region, Sector, ShipClass, Status, TerrainKind};
use zmax_term::nova::starmap::{MapNode};
use zmax_term::nova::terrain::{Terrain};

/// A cruiser one keypress into wave one, on an empty stretch of court.
fn flying() -> Game {
    let mut g = Game::new(1);
    g.start(ShipClass::XWing, Difficulty::Normal, Galaxy::Orion);
    g.node = MapNode {
        pos: (0, 0),
        region: Region::Rim,
        kind: NodeKind::Battle,
        sector: Sector::OpenSpace,
        terrain: TerrainKind::Open,
        bonus: NodeBonus::Refit,
        cleared: false,
        explored: true,
    };
    g.status = Status::Playing;
    g.spawn_wave();
    g.terrain = Terrain::new(TerrainKind::Open, 1);
    g.turrets.clear();
    g.hazards.clear();
    g.enemies.clear();
    g.mines.clear();
    g.debris.clear();
    g.asteroids.clear();
    g
}


fn count_pillars(kind: TerrainKind) -> usize {
    Terrain::new(kind, 17)
        .rows
        .iter()
        .map(|r| r.pillars.len())
        .sum()
}

#[test]
fn gates_leave_exactly_one_gap_to_thread() {
    let terrain = Terrain::new(TerrainKind::Gates, 4);
    let gate = terrain
        .rows
        .iter()
        .find(|r| r.open.1 - r.open.0 <= GATE_GAP)
        .expect("a bulkhead stands somewhere in the court");
    assert!(gate.open.0 > 1, "rock to the left of the gap");
    assert!(gate.open.1 < W - 2, "and rock to the right of it");
    assert!(
        terrain.rows.iter().any(|r| r.open == (1, W - 2)),
        "with clear rows between the bulkheads"
    );
}

#[test]
fn a_spine_splits_the_court_down_the_middle() {
    let terrain = Terrain::new(TerrainKind::Spine, 4);
    assert!(
        terrain.rows.iter().all(|r| r.pillars.len() == 2),
        "every row carries the spine"
    );
    let row = &terrain.rows[3];
    assert!(
        (8..W - 8).contains(&row.pillars[0]),
        "and it runs down the middle of the court"
    );
}

#[test]
fn maze_walls_alternate_sides() {
    let terrain = Terrain::new(TerrainKind::Maze, 4);
    assert!(
        terrain.rows.iter().any(|r| r.open.0 > 1),
        "some blocks wall the left"
    );
    assert!(
        terrain.rows.iter().any(|r| r.open.1 < W - 2),
        "some wall the right"
    );
    assert!(
        terrain.rows.iter().any(|r| r.open == (1, W - 2)),
        "and there is clear water between them"
    );
}

#[test]
fn a_reef_is_thicker_than_a_cave() {
    assert!(
        count_pillars(TerrainKind::Reef) > count_pillars(TerrainKind::Cave),
        "the reef is the one that is wall to wall"
    );
    assert_eq!(count_pillars(TerrainKind::Canyon), 0, "a canyon is clear");
}

#[test]
fn the_new_sectors_bring_their_own_trouble() {
    let hazards = |sector: Sector| {
        let mut g = flying();
        g.node = MapNode {
            pos: (0, 0),
            region: Region::Rim,
            kind: NodeKind::Battle,
            sector,
            terrain: TerrainKind::Open,
            bonus: NodeBonus::Refit,
            cleared: false,
            explored: true,
        };
        g.spawn_wave();
        g
    };
    let corona = hazards(Sector::SolarCorona);
    assert_eq!(
        corona
            .hazards
            .iter()
            .filter(|h| matches!(h, Hazard::SolarFlare { .. }))
            .count(),
        2,
        "the corona sweeps two walls of fire"
    );
    let void = hazards(Sector::VoidRift);
    assert_eq!(
        void.hazards
            .iter()
            .filter(|h| matches!(h, Hazard::GravityWell { .. }))
            .count(),
        2,
        "the rift drags from two wells"
    );
    let comet = hazards(Sector::CometTrail);
    assert!(
        comet
            .hazards
            .iter()
            .any(|h| matches!(h, Hazard::IonStream { .. })),
        "the comet trail runs a current"
    );
    assert!(
        Sector::CometTrail.asteroid_chance() < Sector::AsteroidBelt.asteroid_chance(),
        "and throws more rock than the belt"
    );
    let wreck = hazards(Sector::Wreckage);
    assert!(
        wreck.debris.len() > 8 && !wreck.mines.is_empty(),
        "the graveyard is full of hulks and old mines"
    );
}

#[test]
fn every_map_can_be_flown_without_panicking() {
    for terrain in TerrainKind::ALL {
        for sector in Sector::ALL {
            let mut g = Game::new(5);
            g.start(ShipClass::XWing, Difficulty::Normal, Galaxy::Orion);
            g.status = Status::Playing;
            g.node = MapNode {
                pos: (0, 0),
                region: Region::Rim,
                kind: NodeKind::Battle,
                sector,
                terrain,
                bonus: NodeBonus::Refit,
                cleared: false,
                explored: true,
            };
            g.spawn_wave();
            for i in 0..300 {
                if i % 3 == 0 {
                    g.fire();
                }
                g.move_ship(if i % 7 < 3 { 1 } else { -1 }, 0);
                g.step();
            }
            assert_eq!(
                g.terrain.rows.len(),
                H as usize,
                "{} in {} keeps its rock",
                terrain.name(),
                sector.name()
            );
        }
    }
}
