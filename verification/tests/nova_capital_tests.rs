#![allow(unused_imports, unused_variables, unused_mut, dead_code)]

use zmax_term::nova::capital::{Capital};
use zmax_term::nova::consts::{W};
use zmax_term::nova::entities::{Shot};
use zmax_term::nova::game::{Game};
use zmax_term::nova::kinds::{CapitalKind, Difficulty, Emplacement, EnemyKind, Galaxy, NodeBonus, NodeKind, Region, Sector, ShipClass, Status, TerrainKind, Weapon};
use zmax_term::nova::starmap::{MapNode};
use zmax_term::nova::terrain::{Terrain};

/// A cruiser one keypress into wave one, on an empty stretch of court.
fn flying() -> Game {
    let mut g = Game::new(1);
    g.start(ShipClass::XWing, Difficulty::Normal, Galaxy::Orion);
    g.node = MapNode {
        pos: (0, 0),
        region: Region::Rim,
        kind: NodeKind::Battle,
        sector: Sector::OpenSpace,
        terrain: TerrainKind::Open,
        bonus: NodeBonus::Refit,
        cleared: false,
        explored: true,
    };
    g.status = Status::Playing;
    g.spawn_wave();
    g.terrain = Terrain::new(TerrainKind::Open, 1);
    g.turrets.clear();
    g.hazards.clear();
    g.enemies.clear();
    g.mines.clear();
    g.debris.clear();
    g.asteroids.clear();
    g
}


/// A court with a capital ship in it, and nothing else.
fn against(kind: CapitalKind) -> Game {
    let mut g = flying();
    g.node.kind = NodeKind::Capital;
    g.capital = Some(Capital::new(kind, 0, 0));
    g.enemies.clear();
    g
}

fn cell_of(g: &Game, kind: Emplacement) -> (i16, i16) {
    let cap = g.capital.as_ref().expect("a capital is in the system");
    let part = cap
        .parts
        .iter()
        .find(|p| p.kind == kind && p.hp > 0)
        .unwrap_or_else(|| panic!("the ship carries a {}", kind.name()));
    cap.part_cell(part)
}

#[test]
fn a_capital_system_fields_a_capital_and_its_fighter_screen() {
    let mut g = flying();
    g.node.kind = NodeKind::Capital;
    g.node.terrain = TerrainKind::Trench;
    g.spawn_wave();
    let cap = g
        .capital
        .as_ref()
        .expect("the station is holding the system");
    assert_eq!(cap.kind, CapitalKind::DeathStar, "a trench means a station");
    assert!(
        g.enemies.iter().all(|e| e.kind == EnemyKind::TieAdvanced),
        "with a screen of fighters out in front of it"
    );
    g.node.terrain = TerrainKind::Open;
    g.node.region = Region::Core;
    g.spawn_wave();
    assert_eq!(
        g.capital.as_ref().unwrap().kind,
        CapitalKind::StarDestroyer,
        "the core fields wedges"
    );
}

#[test]
fn the_hull_cannot_be_touched_while_a_dome_stands() {
    let mut g = against(CapitalKind::StarDestroyer);
    let hull = {
        let cap = g.capital.as_ref().unwrap();
        (cap.pos.0 + cap.kind.depth() - 1, cap.pos.1 + 12)
    };
    let before = g.capital.as_ref().unwrap().hp;
    assert!(
        g.hit_capital(&Shot::bolt(hull, 0, 20)),
        "the plating is hit"
    );
    assert_eq!(
        g.capital.as_ref().unwrap().hp,
        before,
        "but the shields hold it out"
    );
    for part in g.capital.as_mut().unwrap().parts.iter_mut() {
        if part.kind == Emplacement::ShieldDome {
            part.hp = 0;
        }
    }
    assert!(
        !g.capital.as_ref().unwrap().shielded(),
        "the domes are down"
    );
    g.hit_capital(&Shot::bolt(hull, 0, 20));
    assert!(
        g.capital.as_ref().unwrap().hp < before,
        "and now the hull takes it"
    );
}

#[test]
fn an_ion_bolt_scrambles_a_dome_instead_of_breaking_it() {
    let mut g = against(CapitalKind::StarDestroyer);
    let dome = cell_of(&g, Emplacement::ShieldDome);
    let hp = g.capital.as_ref().unwrap().parts[1].hp;
    g.hit_capital(&Shot::ion(dome, 3));
    let cap = g.capital.as_ref().unwrap();
    let part = cap
        .parts
        .iter()
        .find(|p| p.kind == Emplacement::ShieldDome)
        .unwrap();
    assert_eq!(part.hp, hp, "the dome is not broken");
    assert!(part.ion > 0, "it is scrambled");
    assert!(!part.live(), "and offline while it is");
}

#[test]
fn a_run_down_the_trench_ends_the_station() {
    let mut g = against(CapitalKind::DeathStar);
    let port = cell_of(&g, Emplacement::ExhaustPort);
    let full = g.capital.as_ref().unwrap().hp;
    g.hit_capital(&Shot::torpedo(port, 30));
    assert!(
        g.capital.as_ref().unwrap().hp > 0,
        "shielded, the blast is contained"
    );
    assert!(
        g.capital.as_ref().unwrap().hp < full,
        "though it still shakes the station"
    );
    for part in g.capital.as_mut().unwrap().parts.iter_mut() {
        if part.kind == Emplacement::ShieldDome {
            part.hp = 0;
        }
    }
    let port = cell_of(&g, Emplacement::ExhaustPort);
    g.hit_capital(&Shot::torpedo(port, 30));
    assert!(
        g.capital.as_ref().unwrap().hp <= 0,
        "with the shields down the port takes the whole station"
    );
    g.check_end();
    assert!(g.capital.is_none(), "and it is gone");
    assert_eq!(g.status, Status::WaveClear, "the system is clear");
    assert!(g.score >= 2_000, "the bounty is paid");
}

#[test]
fn the_batteries_fire_heavy_and_the_bays_launch_fighters() {
    let mut g = against(CapitalKind::StarDestroyer);
    for part in g.capital.as_mut().unwrap().parts.iter_mut() {
        part.cooldown = 0;
    }
    g.advance_capital();
    assert!(!g.enemy_shots.is_empty(), "the batteries open up");
    assert!(
        g.enemy_shots.iter().any(|s| s.damage >= 2),
        "and they hit for two pips"
    );
    assert!(
        g.enemies.iter().any(|e| e.kind == EnemyKind::TieAdvanced),
        "the bays put fighters in the air"
    );
}

#[test]
fn a_tractor_beam_drags_the_hull_in() {
    let mut g = against(CapitalKind::StarDestroyer);
    {
        let cap = g.capital.as_mut().unwrap();
        cap.pos.1 = W - 12;
        cap.tick = 2;
        for part in cap.parts.iter_mut() {
            // Silence everything but the beam so only the pull moves us.
            if part.kind != Emplacement::TractorBeam {
                part.hp = 0;
            }
        }
    }
    g.ship.1 = 10;
    g.advance_capital();
    assert_eq!(g.ship.1, 11, "the beam walks the hull toward the ship");
}

#[test]
fn losing_the_engines_pins_the_ship_and_losing_the_tower_slows_its_guns() {
    let mut g = against(CapitalKind::StarDestroyer);
    {
        let cap = g.capital.as_mut().unwrap();
        cap.tick = 5;
        cap.pos.1 = W / 2;
    }
    g.advance_capital();
    let moved = g.capital.as_ref().unwrap().pos.1;
    assert_ne!(moved, W / 2, "under way it holds station across the court");
    let quick = g.capital.as_ref().unwrap().cadence();
    for part in g.capital.as_mut().unwrap().parts.iter_mut() {
        if matches!(
            part.kind,
            Emplacement::EngineBank | Emplacement::CommandTower
        ) {
            part.hp = 0;
        }
    }
    assert!(
        g.capital.as_ref().unwrap().cadence() > quick,
        "a headless ship is half as quick on the trigger"
    );
    let pinned = g.capital.as_ref().unwrap().pos.1;
    for _ in 0..12 {
        g.advance_capital();
    }
    assert_eq!(
        g.capital.as_ref().unwrap().pos.1,
        pinned,
        "and with its engines gone it cannot move at all"
    );
}

#[test]
fn torpedoes_and_ion_bolts_are_in_the_racks() {
    let mut g = flying();
    for weapon in [Weapon::ProtonTorpedo, Weapon::IonCannon] {
        g.weapon = weapon;
        g.weapon_level = 1;
        g.fire_cooldown = 0;
        g.shots.clear();
        g.fire();
        assert!(!g.shots.is_empty(), "{} fires", weapon.name());
    }
    g.weapon = Weapon::ProtonTorpedo;
    let slow = g.cadence();
    g.weapon = Weapon::RepeatingBlaster;
    assert!(slow > g.cadence(), "a torpedo tube is slow to reload");
    g.weapon = Weapon::ProtonTorpedo;
    g.fire_cooldown = 0;
    g.shots.clear();
    g.fire();
    assert!(g.shots.iter().all(|s| s.homing), "torpedoes track");
    assert!(g.shots.iter().all(|s| s.splash > 0), "and blast on impact");
}

#[test]
fn a_trench_is_one_lane_between_two_walls() {
    let trench = Terrain::new(TerrainKind::Trench, 5);
    let (left, right) = trench.channel(4);
    assert!(left > 1, "armour to port");
    assert!(right < W - 2, "armour to starboard");
    assert!(right - left <= 24, "and only a lane between them");
}

#[test]
fn the_chart_is_a_grid_that_can_be_roamed_and_charts_itself() {
    let mut g = flying();
    g.status = Status::Chart;
    let charted = g.map.charted();
    assert!(charted < g.map.nodes.len(), "most of the galaxy is dark");
    assert!(g.map.nodes.len() >= 60, "and it is a big galaxy");
    let start = g.map.at;
    g.steer_chart(1, 0);
    assert!(
        g.map.nodes[g.map.cursor].pos.0 >= g.map.nodes[start].pos.0,
        "steering right looks deeper in"
    );
    assert!(g.jump(), "the lane is flown");
    assert!(
        g.map.charted() > charted,
        "and arriving lights up the neighbours"
    );
}

#[test]
fn regions_get_meaner_the_deeper_in_they_are() {
    assert!(
        Region::Deep > Region::Rim,
        "the deep is deeper than the rim"
    );
    assert!(
        Region::Deep.armour() > Region::Rim.armour(),
        "and everything out there is armoured"
    );
    assert_eq!(Region::of_column(0, 10), Region::Rim);
    assert_eq!(Region::of_column(9, 10), Region::Deep);
}

#[test]
fn a_capital_fight_plays_out_without_panicking() {
    for kind in [
        CapitalKind::ImperialFrigate,
        CapitalKind::StarDestroyer,
        CapitalKind::DeathStar,
    ] {
        let mut g = against(kind);
        g.weapon = Weapon::ProtonTorpedo;
        for i in 0..2_000 {
            if g.status != Status::Playing {
                break;
            }
            if i % 4 == 0 {
                g.fire();
            }
            if i % 37 == 0 {
                g.fire_missiles();
            }
            g.move_ship(if i % 9 < 4 { 1 } else { -1 }, 0);
            g.step();
            assert!(
                (1..W - 1).contains(&g.ship.1),
                "the hull stays on the court"
            );
        }
    }
}
