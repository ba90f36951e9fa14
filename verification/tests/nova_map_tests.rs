#![allow(unused_imports, unused_variables, unused_mut, dead_code)]

use zmax_term::nova::consts::{FLARE_ACTIVE, FLARE_CADENCE, H, INTERMISSION_TICKS, W};
use zmax_term::nova::entities::{Shot, WallTurret};
use zmax_term::nova::game::{Game};
use zmax_term::nova::kinds::{Difficulty, Galaxy, Hazard, NodeBonus, NodeKind, Region, Sector, ShipClass, Status, TerrainKind, Weapon};
use zmax_term::nova::starmap::{MapNode};
use zmax_term::nova::terrain::{Terrain};

/// A cruiser one keypress into wave one, on an empty stretch of court.
fn flying() -> Game {
    let mut g = Game::new(1);
    g.start(ShipClass::XWing, Difficulty::Normal, Galaxy::Orion);
    g.node = MapNode {
        pos: (0, 0),
        region: Region::Rim,
        kind: NodeKind::Battle,
        sector: Sector::OpenSpace,
        terrain: TerrainKind::Open,
        bonus: NodeBonus::Refit,
        cleared: false,
        explored: true,
    };
    g.status = Status::Playing;
    g.spawn_wave();
    g.terrain = Terrain::new(TerrainKind::Open, 1);
    g.turrets.clear();
    g.hazards.clear();
    g.enemies.clear();
    g.mines.clear();
    g.debris.clear();
    g.asteroids.clear();
    g
}


/// A court flown through a given kind of rock.
fn on_map(kind: TerrainKind) -> Game {
    let mut g = Game::new(3);
    g.start(ShipClass::XWing, Difficulty::Normal, Galaxy::Orion);
    g.node = MapNode {
        pos: (0, 0),
        region: Region::Rim,
        kind: NodeKind::Battle,
        sector: Sector::OpenSpace,
        terrain: kind,
        bonus: NodeBonus::Refit,
        cleared: false,
        explored: true,
    };
    g.status = Status::Playing;
    g.terrain = Terrain::new(kind, 11);
    g.enemies.clear();
    g.turrets.clear();
    g.hazards.clear();
    g.enemy_shots.clear();
    g
}

/// A row where the rock actually closes in, and the wall cell beside it.
fn wall_cell(g: &Game, row: i16) -> i16 {
    let (left, right) = g.terrain.channel(row);
    if left > 1 {
        left - 1
    } else {
        right + 1
    }
}

#[test]
fn terrain_kinds_shape_the_channel() {
    let tunnel = Terrain::new(TerrainKind::Tunnel, 5);
    let canyon = Terrain::new(TerrainKind::Canyon, 5);
    let open = Terrain::new(TerrainKind::Open, 5);
    let span = |t: &Terrain| {
        let (l, r) = t.channel(6);
        r - l
    };
    assert!(
        span(&tunnel) < span(&canyon),
        "a tunnel is the tightest run"
    );
    assert!(span(&canyon) < span(&open), "and open space the widest");
    assert!(
        !open.solid(6, 1),
        "open space has no rock to fly into at all"
    );
}

#[test]
fn the_rock_scrolls_down_the_court() {
    let mut terrain = Terrain::new(TerrainKind::Cave, 9);
    let second = terrain.rows[1].open;
    terrain.scroll();
    assert_eq!(
        terrain.rows[2].open, second,
        "every row slides one place down"
    );
    assert_eq!(terrain.rows.len(), H as usize, "and the court stays full");
}

#[test]
fn rock_stops_a_shot_and_a_cave_lets_it_be_carved() {
    let mut g = on_map(TerrainKind::Cave);
    let row = g.ship.0 - 2;
    let col = wall_cell(&g, row);
    assert!(g.terrain.solid(row, col), "the cell is rock to begin with");
    g.ship.1 = col;
    g.fire();
    g.advance_shots();
    assert!(g.shots.is_empty(), "the shot is stopped by the rock");
    assert!(!g.terrain.solid(row, col), "and a cave wall is carved open");
}

#[test]
fn canyon_walls_cannot_be_carved() {
    let mut g = on_map(TerrainKind::Canyon);
    let row = g.ship.0 - 2;
    let col = wall_cell(&g, row);
    g.ship.1 = col;
    g.fire();
    g.advance_shots();
    assert!(
        g.terrain.solid(row, col),
        "canyon rock takes the hit and holds"
    );
}

#[test]
fn enemy_fire_is_stopped_by_the_rock_as_well() {
    let mut g = on_map(TerrainKind::Tunnel);
    let row = g.ship.0 - 3;
    let col = wall_cell(&g, row);
    g.enemy_shots = vec![Shot::enemy((row - 1, col), 0, 1)];
    g.advance_enemy_shots();
    assert!(g.enemy_shots.is_empty(), "the wall eats it");
}

#[test]
fn rock_closing_in_shoves_the_hull_back_into_the_lane() {
    let mut g = on_map(TerrainKind::Tunnel);
    g.tick = 1;
    let col = wall_cell(&g, g.ship.0);
    g.ship.1 = col;
    let shield = g.shield;
    g.advance_terrain();
    assert_eq!(g.shield, shield, "being shoved aside does not cost a pip");
    let (left, right) = g.terrain.channel(g.ship.0);
    assert!(
        (left..=right).contains(&g.ship.1),
        "and is shoved back into the lane"
    );
}

#[test]
fn a_wall_turret_fires_and_can_be_shot_off() {
    let mut g = on_map(TerrainKind::Canyon);
    g.tick = 1;
    g.turrets = vec![WallTurret {
        pos: (5, 12),
        hp: 3,
        cooldown: 0,
    }];
    g.advance_terrain();
    assert_eq!(g.enemy_shots.len(), 1, "the emplacement opens up");
    assert!(g.hit_targets(&Shot::bolt((5, 12), 0, 3)), "and can be hit");
    assert!(g.turrets.is_empty(), "three points of damage takes it out");
}

#[test]
fn a_gravity_well_drags_the_hull_toward_it() {
    let mut g = on_map(TerrainKind::Open);
    g.hazards = vec![Hazard::GravityWell {
        pos: (4, g.ship.1 + 6),
    }];
    g.tick = 2;
    let col = g.ship.1;
    g.advance_hazards();
    assert_eq!(g.ship.1, col + 1, "the well pulls a column a time");
}

#[test]
fn an_ion_stream_shoves_the_hull_sideways() {
    let mut g = on_map(TerrainKind::Open);
    g.hazards = vec![Hazard::IonStream { push: -1 }];
    g.tick = 3;
    let col = g.ship.1;
    g.advance_hazards();
    assert_eq!(g.ship.1, col - 1, "the current carries the hull with it");
}

#[test]
fn a_solar_flare_burns_whatever_is_in_its_column() {
    let mut g = on_map(TerrainKind::Open);
    g.shield = 4;
    g.hazards = vec![Hazard::SolarFlare {
        col: g.ship.1,
        dir: 1,
    }];
    g.tick = 1;
    g.advance_hazards();
    assert_eq!(g.shield, 3, "standing in a hot flare costs a pip");
    g.invuln = 0;
    g.tick = FLARE_ACTIVE + 1;
    g.advance_hazards();
    assert_eq!(g.shield, 3, "but the column is cold between pulses");
    g.tick = FLARE_CADENCE;
    g.invuln = 0;
    g.advance_hazards();
    match g.hazards[0] {
        Hazard::SolarFlare { col, .. } => {
            assert_ne!(col, g.ship.1, "and the wall of fire sweeps on")
        }
        _ => panic!("the flare is still the hazard"),
    }
}

#[test]
fn the_chart_flies_the_lane_you_pick() {
    let mut g = flying();
    g.check_end();
    for _ in 0..INTERMISSION_TICKS {
        g.step();
    }
    assert_eq!(g.status, Status::Hangar, "a cleared system docks the squad");
    g.open_chart();
    assert_eq!(g.status, Status::Chart);
    let lanes = g.map.reachable();
    assert!(!lanes.is_empty(), "there is always somewhere to fly");
    g.move_cursor(1);
    let picked = g.map.nodes[g.map.cursor];
    assert!(
        lanes.contains(&g.map.cursor),
        "the cursor stays on the lanes"
    );
    assert!(g.jump(), "and the lane is flown");
    assert_eq!(g.node, g.map.here(), "the squad is parked where it jumped");
    if picked.kind.fights() {
        assert_eq!(g.status, Status::Playing, "a fight starts straight away");
        assert_eq!(g.sector, picked.sector, "in the system's own sector");
    } else {
        assert_eq!(g.status, Status::Hangar, "a depot or hulk parks the squad");
    }
}

#[test]
fn a_salvage_cache_pays_out_on_arrival() {
    let mut g = flying();
    g.credits = 0;
    g.node = MapNode {
        pos: (0, 0),
        region: Region::Rim,
        kind: NodeKind::Battle,
        sector: Sector::OpenSpace,
        terrain: TerrainKind::Open,
        bonus: NodeBonus::Cache(750),
        cleared: false,
        explored: true,
    };
    g.spawn_wave();
    assert_eq!(g.credits, 750, "the cache is banked when the wave starts");
}

#[test]
fn an_armoury_stop_hands_over_its_gun() {
    let mut g = flying();
    g.weapon = Weapon::LaserCannon;
    g.weapon_level = 1;
    g.node = MapNode {
        pos: (0, 0),
        region: Region::Rim,
        kind: NodeKind::Battle,
        sector: Sector::OpenSpace,
        terrain: TerrainKind::Open,
        bonus: NodeBonus::Armoury(Weapon::ProtonBomb),
        cleared: false,
        explored: true,
    };
    g.spawn_wave();
    assert_eq!(g.weapon, Weapon::ProtonBomb, "the crate is fitted");
    assert!(g.weapon_level >= 2, "and comes half tuned");
}

#[test]
fn a_danger_run_is_armoured_but_pays_double() {
    let mut g = flying();
    let plain = g.wave_armour();
    g.credits = 0;
    g.award(100);
    let plain_salvage = g.credits;
    g.node.bonus = NodeBonus::Danger;
    assert_eq!(
        g.wave_armour(),
        plain + 2,
        "everything out there is tougher"
    );
    g.credits = 0;
    g.combo = 1;
    g.award(100);
    assert_eq!(g.credits, plain_salvage * 2, "and worth twice as much");
}

#[test]
fn the_formation_is_squeezed_into_the_channel() {
    let mut g = flying();
    g.wave = 2;
    g.node = MapNode {
        pos: (0, 0),
        region: Region::Rim,
        kind: NodeKind::Battle,
        sector: Sector::OpenSpace,
        terrain: TerrainKind::Tunnel,
        bonus: NodeBonus::Refit,
        cleared: false,
        explored: true,
    };
    g.spawn_wave();
    assert!(!g.enemies.is_empty());
    for e in &g.enemies {
        let (left, right) = g.terrain.channel(e.home.0);
        assert!(
            (left..=right).contains(&e.home.1),
            "every hull in the wave holds station inside the rock"
        );
    }
}

#[test]
fn a_long_run_through_the_rock_never_panics() {
    let mut g = Game::new(21);
    g.start(ShipClass::YWing, Difficulty::Hard, Galaxy::Orion);
    g.launch_next_wave();
    for i in 0..3_000 {
        if matches!(g.status, Status::Hangar | Status::Chart) {
            g.launch_next_wave();
        }
        if i % 3 == 0 {
            g.fire();
        }
        g.move_ship(if i % 5 < 2 { 1 } else { -1 }, 0);
        g.step();
        assert!(
            (1..W - 1).contains(&g.ship.1),
            "the hull stays on the court"
        );
        assert_eq!(
            g.terrain.rows.len(),
            H as usize,
            "the rock always fills the court"
        );
    }
}
