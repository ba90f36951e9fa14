#![allow(unused_imports, unused_variables, unused_mut, dead_code)]

use zmax_term::nova::campaign::{Mission};
use zmax_term::nova::consts::{W};
use zmax_term::nova::entities::{Shot};
use zmax_term::nova::game::{Game};
use zmax_term::nova::kinds::{CapitalKind, Difficulty, Galaxy, NodeBonus, NodeKind, Objective, Planet, Region, Sector, ShipClass, Status, TerrainKind};
use zmax_term::nova::starmap::{MapNode};
use zmax_term::nova::terrain::{Terrain};

/// A cruiser one keypress into wave one, on an empty stretch of court.
fn flying() -> Game {
    let mut g = Game::new(1);
    g.start(ShipClass::XWing, Difficulty::Normal, Galaxy::Orion);
    g.node = MapNode {
        pos: (0, 0),
        region: Region::Rim,
        kind: NodeKind::Battle,
        sector: Sector::OpenSpace,
        terrain: TerrainKind::Open,
        bonus: NodeBonus::Refit,
        cleared: false,
        explored: true,
    };
    g.status = Status::Playing;
    g.spawn_wave();
    g.terrain = Terrain::new(TerrainKind::Open, 1);
    g.turrets.clear();
    g.hazards.clear();
    g.enemies.clear();
    g.mines.clear();
    g.debris.clear();
    g.asteroids.clear();
    g
}


fn on_mission(index: usize) -> Game {
    let mut g = Game::new(6);
    g.start_campaign(ShipClass::XWing, Difficulty::Normal);
    g.fly_mission(index);
    g
}

#[test]
fn the_campaign_flies_the_war_in_order() {
    let mut g = Game::new(6);
    g.start_campaign(ShipClass::XWing, Difficulty::Normal);
    assert_eq!(
        g.status,
        Status::Playing,
        "the first mission starts at once"
    );
    assert_eq!(
        g.mission.unwrap().name,
        Mission::campaign()[0].name,
        "with the first mission of the war"
    );
    let names: Vec<&str> = Mission::campaign().iter().map(|m| m.name).collect();
    assert!(names.contains(&"Battle of Yavin"));
    assert!(names.contains(&"Battle of Hoth"));
    assert!(names.contains(&"Battle of Endor"));
    g.fly_mission(Mission::campaign().len());
    assert!(g.mission.is_none(), "past the last one the war is over");
    assert_eq!(g.status, Status::Hangar);
}

#[test]
fn yavin_is_a_trench_run_at_a_station() {
    let g = on_mission(3);
    assert_eq!(g.mission.unwrap().name, "Battle of Yavin");
    assert_eq!(g.objective, Objective::CoreRun, "one shot down the shaft");
    assert_eq!(g.node.terrain, TerrainKind::Trench);
    assert_eq!(
        g.capital.as_ref().map(|c| c.kind),
        Some(CapitalKind::DeathStar),
        "and a station to run"
    );
}

#[test]
fn hoth_puts_walkers_on_the_deck_and_only_cables_stop_them() {
    let mut g = on_mission(4);
    assert_eq!(g.objective, Objective::Walkers { count: 3 });
    assert_eq!(g.walkers.len(), 3, "three of them on the ridge");
    let pos = g.walkers[0].pos;
    let hp = g.walkers[0].hp;
    g.hit_targets(&Shot::bolt(pos, 0, 40));
    assert_eq!(g.walkers[0].hp, hp, "cannons do not mark the armour");
    assert!(g.hit_targets(&Shot::cable(pos, 0)), "the cable catches");
    assert_eq!(g.walkers[0].wraps, 1, "one turn round the legs");
    assert!(!g.walkers[0].down, "one turn is not enough");
    g.hit_targets(&Shot::cable(pos, 0));
    assert!(g.walkers[0].down, "the second turn puts it over");
    for walker in g.walkers.iter_mut() {
        walker.down = true;
    }
    g.check_end();
    assert_eq!(g.status, Status::WaveClear, "and that is the mission");
}

#[test]
fn the_evacuation_is_won_by_transports_that_get_away() {
    let mut g = on_mission(5);
    assert!(matches!(g.objective, Objective::Escort { .. }));
    assert!(g.transports.len() >= 4, "the convoy is on the deck");
    for transport in g.transports.iter_mut() {
        transport.away = true;
    }
    let score = g.score;
    g.check_end();
    assert_eq!(g.status, Status::WaveClear, "the convoy is through");
    assert!(g.score > score, "and it pays");
}

#[test]
fn a_transport_under_fire_can_be_lost() {
    let mut g = on_mission(5);
    let pos = g.transports[0].pos;
    g.transports[0].hp = 2;
    g.enemy_shots = vec![Shot::enemy((pos.0, pos.1 + 1), 0, 1)];
    g.tick = 3;
    g.advance_transports();
    assert!(g.transports[0].hp <= 0, "the shot goes home");
    assert!(
        g.chatter.iter().any(|c| c.line.contains("transports")),
        "and the squadron hears about it"
    );
}

#[test]
fn the_kessel_run_is_a_hold_out() {
    let mut g = on_mission(1);
    assert!(matches!(g.objective, Objective::Survive { .. }));
    assert!(g.objective_ticks > 0, "with a clock on it");
    g.objective_ticks = 0;
    g.check_end();
    assert_eq!(g.status, Status::WaveClear, "outrunning it is the mission");
}

#[test]
fn every_system_hangs_over_a_world() {
    for sector in Sector::ALL {
        let planet = Planet::of_sector(sector);
        assert!(!planet.name().is_empty());
    }
    assert_eq!(Planet::of_sector(Sector::AsteroidBelt), Planet::Hoth);
    assert_eq!(Planet::of_sector(Sector::SolarCorona), Planet::Tatooine);
    assert!(
        Planet::Hoth.surface(),
        "some of them are fought on the deck"
    );
    assert!(!Planet::DeepSpace.surface(), "and some are not");
    let mut g = flying();
    g.node.sector = Sector::CometTrail;
    g.spawn_wave();
    assert_eq!(g.planet, Planet::Bespin, "the world follows the sector");
}

#[test]
fn every_mission_in_the_campaign_can_be_flown() {
    for index in 0..Mission::campaign().len() {
        let mut g = on_mission(index);
        let mission = g.mission.expect("the mission is loaded");
        assert_eq!(g.sector, mission.sector, "{} is in place", mission.name);
        for i in 0..600 {
            if g.status != Status::Playing {
                break;
            }
            if i % 3 == 0 {
                g.fire();
            }
            if i % 29 == 0 {
                g.fire_missiles();
            }
            g.move_ship(if i % 7 < 3 { 1 } else { -1 }, 0);
            g.step();
        }
        assert!(
            (1..W - 1).contains(&g.ship.1),
            "{} flies without losing the hull off the court",
            mission.name
        );
    }
}
