#![allow(unused_imports, unused_variables, unused_mut, dead_code)]

use zmax_term::nova::capital::{Capital};
use zmax_term::nova::consts::{POWER_PIPS, SHIELD_KNIT_TICKS};
use zmax_term::nova::entities::{Power, Star};
use zmax_term::nova::game::{Game};
use zmax_term::nova::kinds::{CapitalKind, Difficulty, Emplacement, Galaxy, NodeBonus, NodeKind, Region, Sector, ShipClass, ShopEntry, Status, Stock, System, TerrainKind};
use zmax_term::nova::starmap::{MapNode};
use zmax_term::nova::terrain::{Terrain};

/// A cruiser one keypress into wave one, on an empty stretch of court.
fn flying() -> Game {
    let mut g = Game::new(1);
    g.start(ShipClass::XWing, Difficulty::Normal, Galaxy::Orion);
    g.node = MapNode {
        pos: (0, 0),
        region: Region::Rim,
        kind: NodeKind::Battle,
        sector: Sector::OpenSpace,
        terrain: TerrainKind::Open,
        bonus: NodeBonus::Refit,
        cleared: false,
        explored: true,
    };
    g.status = Status::Playing;
    g.spawn_wave();
    g.terrain = Terrain::new(TerrainKind::Open, 1);
    g.turrets.clear();
    g.hazards.clear();
    g.enemies.clear();
    g.mines.clear();
    g.debris.clear();
    g.asteroids.clear();
    g
}


#[test]
fn five_fighters_are_on_the_flight_line() {
    assert_eq!(ShipClass::ALL.len(), 5, "A-wing through freighter");
    let names: Vec<&str> = ShipClass::ALL.iter().map(|c| c.name()).collect();
    assert!(names.contains(&"X-wing"));
    assert!(names.contains(&"Y-wing"));
    assert!(names.contains(&"B-wing"));
    assert!(
        ShipClass::AWing.speed() > ShipClass::YWing.speed(),
        "the A-wing is the quick one"
    );
    assert!(
        ShipClass::BWing.damage() > ShipClass::XWing.damage(),
        "the B-wing hits hardest"
    );
    assert!(
        ShipClass::Freighter.max_shield() > ShipClass::XWing.max_shield(),
        "and the freighter carries the most plating"
    );
}

#[test]
fn every_fighter_can_be_launched() {
    for class in ShipClass::ALL {
        let mut g = Game::new(4);
        g.start(class, Difficulty::Normal, Galaxy::Orion);
        assert_eq!(g.class, class, "{} launches", class.name());
        assert_eq!(g.squad[0].class, class, "as the flight leader");
        g.launch_next_wave();
        g.fire();
        assert!(!g.shots.is_empty(), "{} has guns", class.name());
    }
}

#[test]
fn power_is_split_three_ways_and_can_be_diverted() {
    let mut g = flying();
    assert_eq!(
        g.power.lasers + g.power.shields + g.power.engines,
        POWER_PIPS
    );
    let damage = g.gun_damage();
    assert!(g.divert(System::Lasers), "a pip goes to the cannons");
    assert_eq!(g.gun_damage(), damage + 1, "and they hit harder for it");
    assert_eq!(
        g.power.lasers + g.power.shields + g.power.engines,
        POWER_PIPS,
        "the reactor puts out no more than it has"
    );
    let thrust = g.thrust();
    for _ in 0..POWER_PIPS {
        g.divert(System::Engines);
    }
    assert!(g.thrust() > thrust, "everything to the engines is faster");
    assert!(!g.divert(System::Engines), "and there is no more to give");
}

#[test]
fn deflectors_knit_themselves_back_while_they_have_the_power() {
    let mut g = flying();
    g.shield = 0;
    g.power = Power {
        lasers: 0,
        shields: POWER_PIPS,
        engines: 0,
    };
    let cadence = (SHIELD_KNIT_TICKS / POWER_PIPS).max(30);
    g.tick = cadence - 1;
    g.tick_timers();
    assert_eq!(g.shield, 1, "a pip knits itself back");
    g.shield = 0;
    g.power = Power {
        lasers: POWER_PIPS,
        shields: 0,
        engines: 0,
    };
    for _ in 0..cadence * 2 {
        g.tick_timers();
    }
    assert_eq!(g.shield, 0, "with no power to them, nothing comes back");
}

#[test]
fn the_imperial_line_runs_from_frigate_to_command_ship() {
    let frigate = Capital::new(CapitalKind::ImperialFrigate, 0, 0);
    let destroyer = Capital::new(CapitalKind::StarDestroyer, 0, 0);
    let command = Capital::new(CapitalKind::SuperDestroyer, 0, 0);
    assert!(destroyer.max_hp > frigate.max_hp, "a destroyer is heavier");
    assert!(
        command.max_hp > destroyer.max_hp,
        "the command ship heavier still"
    );
    assert!(
        command.standing(Emplacement::Turbolaser) > destroyer.standing(Emplacement::Turbolaser),
        "and carries more batteries"
    );
    assert!(
        command.kind.span(command.kind.depth() - 1)
            > destroyer.kind.span(destroyer.kind.depth() - 1),
        "across a wider hull"
    );
    assert_eq!(
        CapitalKind::DeathStar.name(),
        "Death Star",
        "and the station is what it is"
    );
}

#[test]
fn the_core_worlds_field_the_command_ship() {
    let mut g = flying();
    g.node.kind = NodeKind::Capital;
    g.node.terrain = TerrainKind::Open;
    g.node.region = Region::Deep;
    g.spawn_wave();
    assert_eq!(
        g.capital.as_ref().unwrap().kind,
        CapitalKind::SuperDestroyer,
        "the deepest systems are held by the command ship"
    );
    g.node.region = Region::Rim;
    g.spawn_wave();
    assert_eq!(
        g.capital.as_ref().unwrap().kind,
        CapitalKind::ImperialFrigate,
        "the rim only ever fields a picket"
    );
}

#[test]
fn the_squadron_flies_under_its_own_callsigns() {
    let mut g = flying();
    g.status = Status::Hangar;
    g.credits = 20_000;
    assert_eq!(g.squad[0].name, "Red Leader");
    let hull = g
        .shop_lines()
        .into_iter()
        .find(|l| l.entry == ShopEntry::Consumable(Stock::Hull))
        .expect("the yard has another fighter");
    assert!(g.buy(hull.key));
    assert_eq!(g.squad[1].name, "Red Two", "the wing fills out in order");
}
