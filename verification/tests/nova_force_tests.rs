#![allow(unused_imports, unused_variables, unused_mut, dead_code)]

use zmax_term::nova::boss::{Boss};
use zmax_term::nova::capital::{Capital};
use zmax_term::nova::consts::{BOSS_EVERY, CHATTER_TICKS, FORCE_MAX, FORCE_PER_KILL, SENSE_COST, SENSE_TICKS, W};
use zmax_term::nova::entities::{Powerup, Shot};
use zmax_term::nova::game::{Game};
use zmax_term::nova::kinds::{BossKind, CapitalKind, Difficulty, Emplacement, EnemyKind, ForcePower, Galaxy, NodeBonus, NodeKind, PowerKind, Rank, Region, Sector, ShipClass, Status, TerrainKind};
use zmax_term::nova::starmap::{MapNode};
use zmax_term::nova::terrain::{Terrain};

/// A cruiser one keypress into wave one, on an empty stretch of court.
fn flying() -> Game {
    let mut g = Game::new(1);
    g.start(ShipClass::XWing, Difficulty::Normal, Galaxy::Orion);
    g.node = MapNode {
        pos: (0, 0),
        region: Region::Rim,
        kind: NodeKind::Battle,
        sector: Sector::OpenSpace,
        terrain: TerrainKind::Open,
        bonus: NodeBonus::Refit,
        cleared: false,
        explored: true,
    };
    g.status = Status::Playing;
    g.spawn_wave();
    g.terrain = Terrain::new(TerrainKind::Open, 1);
    g.turrets.clear();
    g.hazards.clear();
    g.enemies.clear();
    g.mines.clear();
    g.debris.clear();
    g.asteroids.clear();
    g
}


#[test]
fn the_force_builds_with_the_flying_and_is_spent_on_powers() {
    let mut g = flying();
    g.force = 0;
    g.award(50);
    assert_eq!(g.force, FORCE_PER_KILL, "a kill puts some of it back");
    g.force = FORCE_MAX;
    assert!(
        g.use_force(ForcePower::Sense),
        "there is enough to reach for"
    );
    assert_eq!(g.force, FORCE_MAX - SENSE_COST, "and it costs");
    assert_eq!(g.sense, SENSE_TICKS, "senses are stretched out");
    g.force = 0;
    assert!(
        !g.use_force(ForcePower::Sense),
        "an empty pilot reaches for nothing"
    );
}

#[test]
fn stretched_out_senses_halve_the_speed_of_imperial_fire() {
    let mut g = flying();
    g.sense = SENSE_TICKS;
    g.tick = 1;
    g.enemy_shots = vec![Shot::enemy((4, 20), 0, 1)];
    g.advance_enemy_shots();
    assert_eq!(g.enemy_shots[0].pos.0, 4, "on the odd tick nothing moves");
    g.tick = 2;
    g.advance_enemy_shots();
    assert_eq!(g.enemy_shots[0].pos.0, 5, "on the even tick it crawls on");
}

#[test]
fn a_force_pull_brings_the_pickups_in() {
    let mut g = flying();
    g.force = FORCE_MAX;
    g.powerups = vec![Powerup {
        pos: (2, 4),
        kind: PowerKind::Bomb,
    }];
    assert!(g.use_force(ForcePower::Pull));
    assert_eq!(g.powerups[0].pos, g.ship, "it comes to the hull");
}

#[test]
fn letting_go_of_the_targeting_computer_puts_a_salvo_down_the_shaft() {
    let mut g = flying();
    g.node.kind = NodeKind::Capital;
    g.capital = Some(Capital::new(CapitalKind::DeathStar, 0, 0));
    for part in g.capital.as_mut().unwrap().parts.iter_mut() {
        if part.kind == Emplacement::ShieldDome {
            part.hp = 0;
        }
    }
    let port = g.weak_point().expect("the port is open");
    g.force = FORCE_MAX;
    assert!(g.use_force(ForcePower::Guided), "he lets go");
    g.ship.1 = 8;
    let plain = g.gun_damage() + 4;
    g.fire_missiles();
    assert!(!g.guided, "the salvo spends it");
    assert!(
        g.shots.iter().all(|s| s.damage > plain),
        "a guided torpedo hits far harder"
    );
    assert!(
        g.shots.iter().all(|s| s.drift == (port.1 - 8).signum()),
        "and every round leans toward the port"
    );
}

#[test]
fn the_alliance_promotes_a_pilot_who_keeps_flying() {
    assert_eq!(Rank::of_level(1), Rank::FlightCadet);
    assert_eq!(Rank::of_level(7), Rank::Lieutenant);
    assert_eq!(Rank::of_level(30), Rank::General);
    assert!(Rank::General > Rank::FlightCadet, "and rank has an order");
    let mut g = flying();
    g.level = 12;
    assert_eq!(
        g.rank(),
        Rank::Captain,
        "the pilot wears what he has earned"
    );
}

#[test]
fn the_squadron_calls_it_out_over_the_radio() {
    let mut g = flying();
    g.chatter.clear();
    g.shield = 1;
    g.damage_ship(1);
    assert!(!g.chatter.is_empty(), "losing the deflectors is called out");
    let first = g.chatter[0].line.clone();
    g.say(&first);
    assert_eq!(g.chatter.len(), 1, "the same line is not repeated");
    for _ in 0..CHATTER_TICKS {
        g.tick_timers();
    }
    assert!(g.chatter.is_empty(), "and traffic ages off the display");
}

#[test]
fn an_interdictor_drags_twice_as_hard_as_a_tractor_beam() {
    let mut g = flying();
    g.node.kind = NodeKind::Capital;
    g.capital = Some(Capital::new(CapitalKind::Interdictor, 0, 0));
    {
        let cap = g.capital.as_mut().unwrap();
        cap.pos.1 = W - 14;
        cap.tick = 1;
        for part in cap.parts.iter_mut() {
            if part.kind != Emplacement::GravityProjector {
                part.hp = 0;
            }
        }
    }
    g.ship.1 = 10;
    g.advance_capital();
    assert!(
        g.ship.1 >= 12,
        "the wells haul the hull two columns at a time, not one"
    );
}

#[test]
fn the_ace_flies_his_own_pattern() {
    let ace = Boss::new(BossKind::AceTie, 60);
    assert!(ace.parts.is_empty(), "one fighter, no emplacements");
    assert_eq!(ace.kind.core_half(), 1, "and a fighter-sized target");
    assert!(
        ace.speed() >= 2,
        "he moves faster than anything else in the sky"
    );
    let bosses: Vec<BossKind> = (1..=5).map(|n| BossKind::of_wave(n * BOSS_EVERY)).collect();
    assert!(
        bosses.contains(&BossKind::AceTie),
        "and he holds boss systems"
    );
}

#[test]
fn every_fighter_and_every_tie_is_drawn_differently() {
    let hulls: std::collections::HashSet<[&str; 2]> =
        ShipClass::ALL.iter().map(|c| c.sprite()).collect();
    assert_eq!(
        hulls.len(),
        ShipClass::ALL.len(),
        "no two fighters look alike"
    );
    for class in ShipClass::ALL {
        for row in class.sprite() {
            assert_eq!(
                row.chars().count(),
                3,
                "{} is three cells wide",
                class.name()
            );
        }
    }
    let ties = [
        EnemyKind::TieFighter,
        EnemyKind::TieInterceptor,
        EnemyKind::TieBomber,
        EnemyKind::TieDefender,
        EnemyKind::TieAdvanced,
    ];
    let shapes: std::collections::HashSet<&str> = ties.iter().map(|k| k.sprite()).collect();
    assert_eq!(shapes.len(), ties.len(), "and no two TIEs do either");
}
