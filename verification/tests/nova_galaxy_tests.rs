#![allow(unused_imports, unused_variables, unused_mut, dead_code)]

use zmax_term::nova::capital::{Capital};
use zmax_term::nova::entities::{Wing};
use zmax_term::nova::game::{Game};
use zmax_term::nova::kinds::{Difficulty, Galaxy, NodeBonus, NodeKind, Region, Sector, ShipClass, Status, TerrainKind, Weapon};
use zmax_term::nova::starmap::{MapNode, StarMap};
use zmax_term::nova::terrain::{Terrain};

/// A cruiser one keypress into wave one, on an empty stretch of court.
fn flying() -> Game {
    let mut g = Game::new(1);
    g.start(ShipClass::XWing, Difficulty::Normal, Galaxy::Orion);
    g.node = MapNode {
        pos: (0, 0),
        region: Region::Rim,
        kind: NodeKind::Battle,
        sector: Sector::OpenSpace,
        terrain: TerrainKind::Open,
        bonus: NodeBonus::Refit,
        cleared: false,
        explored: true,
    };
    g.status = Status::Playing;
    g.spawn_wave();
    g.terrain = Terrain::new(TerrainKind::Open, 1);
    g.turrets.clear();
    g.hazards.clear();
    g.enemies.clear();
    g.mines.clear();
    g.debris.clear();
    g.asteroids.clear();
    g
}


#[test]
fn every_galaxy_lays_out_a_chart_that_can_be_flown() {
    for galaxy in Galaxy::ALL {
        let map = StarMap::generate(galaxy, 7);
        assert!(
            map.nodes.len() >= galaxy.systems() * 8 / 10,
            "{} fills its chart",
            galaxy.name()
        );
        assert!(
            !map.reachable().is_empty(),
            "there is a lane out of the rim"
        );
        for node in &map.nodes {
            assert!(
                galaxy.sectors().contains(&node.sector),
                "{} only fields its own sectors",
                galaxy.name()
            );
            assert!(
                galaxy.terrains().contains(&node.terrain) || node.kind == NodeKind::Capital,
                "{} only fields its own rock outside a capital system",
                galaxy.name()
            );
        }
    }
}

#[test]
fn lanes_run_both_ways_so_a_depot_can_be_flown_back_to() {
    let mut map = StarMap::generate(Galaxy::Orion, 3);
    let start = map.at;
    let out = map.reachable()[0];
    map.cursor = out;
    assert!(map.jump().is_some(), "the lane is flown");
    assert_eq!(map.at, out);
    assert!(
        map.reachable().contains(&start),
        "and the way back is still open"
    );
}

#[test]
fn the_chart_cursor_only_walks_the_lanes_out_of_here() {
    let mut g = flying();
    g.status = Status::Chart;
    let lanes = g.map.reachable();
    for _ in 0..lanes.len() * 2 {
        g.move_cursor(1);
        assert!(
            lanes.contains(&g.map.cursor),
            "the cursor never leaves the lanes"
        );
    }
}

#[test]
fn a_depot_repairs_the_squad_without_a_fight() {
    let mut g = flying();
    g.status = Status::Chart;
    g.shield = 0;
    g.squad.push(Wing::new("Two", ShipClass::AWing));
    g.squad[1].alive = false;
    let depot = MapNode {
        pos: (1, 0),
        region: Region::Rim,
        kind: NodeKind::Depot,
        sector: Sector::OpenSpace,
        terrain: TerrainKind::Open,
        bonus: NodeBonus::Refit,
        cleared: false,
        explored: true,
    };
    let at = g.map.reachable()[0];
    g.map.nodes[at] = depot;
    g.map.cursor = at;
    assert!(g.jump(), "the lane is flown");
    assert_eq!(g.status, Status::Hangar, "a yard is not a fight");
    assert_eq!(g.shield, g.max_shield, "the hull is patched up");
    assert!(g.squad[1].alive, "and the wing is back in the air");
}

#[test]
fn a_derelict_pays_salvage_and_leaves_a_gun_behind() {
    let mut g = flying();
    g.status = Status::Chart;
    g.credits = 0;
    let hulk = MapNode {
        pos: (1, 0),
        region: Region::Rim,
        kind: NodeKind::Derelict,
        sector: Sector::OpenSpace,
        terrain: TerrainKind::Open,
        bonus: NodeBonus::Armoury(Weapon::MassDriver),
        cleared: false,
        explored: true,
    };
    let at = g.map.reachable()[0];
    g.map.nodes[at] = hulk;
    g.map.cursor = at;
    assert!(g.jump());
    assert!(g.credits > 0, "the hulk is worth stripping");
    assert_eq!(g.weapon, Weapon::MassDriver, "and the gun aboard is fitted");
    assert!(g.owned.contains(&Weapon::MassDriver), "into the racks");
}

#[test]
fn an_elite_system_is_tougher_and_pays_double() {
    let mut g = flying();
    let plain = g.wave_armour();
    g.credits = 0;
    g.award(100);
    let plain_salvage = g.credits;
    g.node.kind = NodeKind::Elite;
    assert_eq!(g.wave_armour(), plain + 2, "elite hulls carry more armour");
    g.credits = 0;
    g.combo = 1;
    g.award(100);
    assert_eq!(g.credits, plain_salvage * 2, "and pay twice as much");
}

#[test]
fn galaxies_bias_the_run_they_are_flown_in() {
    let mut hive = Game::new(2);
    hive.start(ShipClass::XWing, Difficulty::Normal, Galaxy::Hive);
    let mut abyss = Game::new(2);
    abyss.start(ShipClass::XWing, Difficulty::Normal, Galaxy::Abyss);
    assert!(
        hive.wave_armour() < abyss.wave_armour(),
        "the abyss armours everything the hive does not"
    );
    assert_eq!(Galaxy::Hive.swarm(), 1, "and the hive fields deeper waves");
    assert!(
        Galaxy::Forge.salvage_bonus() > Galaxy::Orion.salvage_bonus(),
        "the forge is where the salvage is"
    );
}

#[test]
fn a_run_across_a_galaxy_never_panics() {
    for galaxy in Galaxy::ALL {
        let mut g = Game::new(13);
        g.start(ShipClass::XWing, Difficulty::Normal, galaxy);
        for i in 0..4_000 {
            match g.status {
                Status::Lost => break,
                Status::Hangar => {
                    while let Some(l) = g.shop_lines().into_iter().find(|l| l.available) {
                        g.buy(l.key);
                    }
                    g.open_chart();
                }
                Status::Chart => {
                    g.move_cursor(1);
                    g.jump();
                }
                _ => {
                    if i % 3 == 0 {
                        g.fire();
                    }
                    if i % 31 == 0 {
                        g.fire_missiles();
                    }
                    g.move_ship(if i % 5 < 2 { 1 } else { -1 }, 0);
                    g.step();
                }
            }
            assert!(g.active < g.squad.len(), "the squad index stays sane");
        }
    }
}
