use zmax_term::missilecommand;
use zmax_term::nova::boss::Boss;
use zmax_term::nova::consts::{BASE_ENERGY, FORCE_MAX, MISSILE_START, SHIP_ROW, W};
use zmax_term::nova::entities::{Asteroid, Debris, Enemy};
use zmax_term::nova::game::Game;
use zmax_term::nova::kinds::{BossKind, Difficulty, EnemyKind, Galaxy, NodeKind, ShipClass, Status, TerrainKind, Weapon};
use zmax_term::nova::starmap::StarMap;
use zmax_term::nova::terrain::Terrain;

#[test]
fn exactly_two_thirds_of_the_hull_is_already_the_second_phase() {
    let mut boss = Boss::new(BossKind::Dreadnought, 99);
    assert_eq!(boss.phase(), 1);
    boss.hp = 67;
    assert_eq!(boss.phase(), 1, "above two thirds");
    boss.hp = 66;
    assert_eq!(boss.phase(), 2, "two thirds on the nose");
    boss.hp = 33;
    assert_eq!(boss.phase(), 2, "down to a third");
    boss.hp = 32;
    assert_eq!(boss.phase(), 3);
}

#[test]
fn a_new_run_parks_on_the_picker_with_the_stock_kit() {
    let g = Game::new(5);
    assert_eq!(g.status, Status::Select);
    assert_eq!(g.weapon, Weapon::LaserCannon);
    assert_eq!(g.weapon_level, 1);
    assert_eq!(g.missiles, MISSILE_START);
    assert_eq!(g.squad.len(), 1);
    assert_eq!(g.squad[0].name, "Red Leader");
    assert_eq!(g.force, FORCE_MAX / 2);
    assert_eq!(g.energy, BASE_ENERGY);
    assert_eq!(g.galaxy, Galaxy::Orion);
    assert_eq!(g.level, 1);
    assert_eq!(g.ship, (SHIP_ROW, W / 2));
    assert_eq!(g.fire_cooldown, 0);
    assert!(g.shots.is_empty());
}

#[test]
fn starting_a_run_strips_the_build_back_to_stock() {
    let mut g = Game::new(3);
    g.energy = 7;
    g.start(ShipClass::XWing, Difficulty::Hard, Galaxy::Hive);
    assert_eq!(g.status, Status::Chart);
    assert_eq!(g.energy, BASE_ENERGY);
    assert!(g.mission.is_none());
    assert_eq!(g.loadout.tiers, [0, 0, 0, 0, 0]);
    assert!(g.loadout.modules.is_empty());
    assert_eq!(g.squad[0].name, "Red Leader");
}

#[test]
fn a_smart_bomb_bites_four_and_pays_for_the_kills() {
    let mut g = Game::new(1);
    g.start(ShipClass::XWing, Difficulty::Normal, Galaxy::Orion);
    g.status = Status::Playing;
    g.bombs = 2;
    let mut weak = Enemy::new(EnemyKind::TieFighter, (3, 10));
    weak.hp = 4;
    let mut tough = Enemy::new(EnemyKind::TieFighter, (3, 20));
    tough.hp = 9;
    g.enemies = vec![weak, tough];
    g.asteroids = vec![Asteroid { pos: (5, 5), hp: 4, drift: 0 }, Asteroid { pos: (6, 6), hp: 5, drift: 0 }];
    g.debris = vec![Debris { pos: (7, 7), hp: 3 }];
    let score = g.score;
    g.bomb();
    assert_eq!(g.bombs, 1);
    assert_eq!(g.enemies.len(), 1);
    assert_eq!(g.enemies[0].hp, 5);
    assert_eq!(g.enemies[0].pos, (3, 20));
    assert_eq!(g.asteroids.len(), 1);
    assert_eq!(g.asteroids[0].hp, 1, "a survivor still takes the bite");
    assert!(g.debris.is_empty());
    assert!(g.score > score, "the kill pays out");
    assert_eq!(g.flash, 6);
}

#[test]
fn the_proton_salvo_lays_a_wall_every_seventh_column() {
    let mut g = Game::new(1);
    g.start(ShipClass::YWing, Difficulty::Normal, Galaxy::Orion);
    g.status = Status::Playing;
    g.energy = BASE_ENERGY;
    let before = g.shots.len();
    g.special();
    let cols: Vec<i16> = g.shots[before..].iter().map(|s| s.pos.1).collect();
    assert_eq!(cols, vec![2, 9, 16, 23, 30, 37, 44, 51, 58, 65, 72]);
    assert!(g.shots[before..].iter().all(|s| s.pos.0 == g.ship.0 - 1));
}

#[test]
fn carving_a_wall_widens_the_channel_by_a_column() {
    let mut t = Terrain::new(TerrainKind::Cave, 9);
    t.rows[4].open = (10, 40);
    t.rows[4].pillars = vec![20, 25, 20];
    assert!(t.carve(4, 9));
    assert_eq!(t.rows[4].open, (9, 40));
    assert!(t.carve(4, 41));
    assert_eq!(t.rows[4].open, (9, 41));
    assert!(t.carve(4, 20), "a pillar goes first");
    assert_eq!(t.rows[4].pillars, vec![25, 20]);
    assert_eq!(t.rows[4].open, (9, 41));
    assert!(!t.carve(4, 30), "open space has nothing to carve");
    let mut canyon = Terrain::new(TerrainKind::Canyon, 9);
    assert!(!canyon.carve(4, 0), "canyon walls do not carve");
}

#[test]
fn open_rock_is_open_from_wall_to_wall() {
    let t = Terrain::new(TerrainKind::Open, 4);
    for row in &t.rows {
        assert_eq!(row.open, (1, W - 2));
        assert!(row.pillars.is_empty());
    }
    let spine = Terrain::new(TerrainKind::Spine, 4);
    for row in &spine.rows {
        assert_eq!(row.pillars.len(), 2);
    }
}

#[test]
fn the_chart_starts_on_a_depot_mid_rim_with_the_cursor_first_in_line() {
    for galaxy in Galaxy::ALL {
        let m = StarMap::generate(galaxy, 11);
        let here = m.nodes[m.at];
        assert_eq!(here.pos, (0, m.height / 2));
        assert_eq!(here.kind, NodeKind::Depot);
        for (i, n) in m.nodes.iter().enumerate() {
            assert_eq!(m.grid[n.pos.1][n.pos.0], Some(i));
        }
        let reach = m.reachable();
        if !reach.is_empty() {
            assert_eq!(m.cursor, reach[0]);
        }
        assert!(m.nodes.len() >= m.height);
    }
}

#[test]
fn the_chart_cursor_wraps_round_both_ways() {
    let mut m = StarMap::generate(Galaxy::Orion, 2);
    let reach = m.reachable();
    if reach.len() >= 2 {
        m.cursor = reach[0];
        m.move_cursor(-1);
        assert_eq!(m.cursor, reach[reach.len() - 1]);
        m.move_cursor(1);
        assert_eq!(m.cursor, reach[0]);
    }
}

#[test]
fn the_missile_board_pays_the_wave_bonus_once_the_sky_is_clear() {
    let mut g = missilecommand::Game::new(1);
    g.missiles.clear();
    g.spawned = g.quota;
    g.step();
    assert_eq!(g.wave, 2);
    assert_eq!(g.score, missilecommand::WAVE_BONUS);
    assert_eq!(g.quota, 10);
    assert_eq!(g.spawn_period, 11);
    assert_eq!(g.spawn_timer, 11);
}

#[test]
fn guessing_each_digit_on_the_board_solves_without_errors() {
    let mut p = zmax_term::mpuz::Puzzle::from_seed(17);
    for d in 0..10 {
        if p.present[d] {
            let letter = p.cipher[d];
            assert!(p.guess(letter, d));
        }
    }
    assert!(p.solved());
    assert_eq!(p.errors, 0);
}

fn in_flight() -> Game {
    let mut g = Game::new(1);
    g.start(ShipClass::XWing, Difficulty::Normal, Galaxy::Orion);
    g.status = Status::Playing;
    g.terrain = Terrain::new(TerrainKind::Open, 1);
    g.enemies.clear();
    g.asteroids.clear();
    g.debris.clear();
    g.turrets.clear();
    g
}

#[test]
fn a_bomb_bites_the_boss_and_its_parts() {
    let mut g = in_flight();
    g.bombs = 1;
    g.boss = Some(Boss::new(BossKind::Dreadnought, 240));
    let before = g.boss.clone().unwrap();
    g.bomb();
    let after = g.boss.clone().unwrap();
    assert_eq!(after.hp, before.hp - 20, "a twelfth of the hull");
    for q in &after.parts {
        assert!(before.parts.iter().any(|p| p.offset == q.offset && q.hp == p.hp - 20));
    }
    assert_eq!(
        after.parts.len(),
        before.parts.iter().filter(|p| p.hp > 20).count(),
        "the parts the bite breaks are gone"
    );
}

#[test]
fn the_left_key_flies_the_hull_its_thrust_to_port() {
    let mut nova = zmax_term::nova::view::Nova::new();
    nova.game = in_flight();
    let col = nova.game.ship.1;
    let thrust = nova.game.thrust();
    let other = nova.game.score;
    nova.handle_key(zmax_term::keys::Key::Left, 0);
    assert_eq!(nova.game.ship.1, col - thrust);
    assert_eq!(nova.game.facing, -1);
    assert_eq!(nova.game.score, other);
    nova.handle_key(zmax_term::keys::Key::Right, 0);
    assert_eq!(nova.game.ship.1, col);
}

#[test]
fn the_racks_turn_back_to_the_gun_that_was_fitted() {
    let mut g = in_flight();
    g.owned = vec![Weapon::LaserCannon, Weapon::MassDriver, Weapon::RepeatingBlaster];
    g.weapon = Weapon::LaserCannon;
    g.cycle_weapon(-1);
    assert_eq!(g.weapon, Weapon::RepeatingBlaster);
    g.cycle_weapon(1);
    assert_eq!(g.weapon, Weapon::LaserCannon);
    g.cycle_weapon(5);
    assert_eq!(g.weapon, Weapon::RepeatingBlaster);
    g.cycle_weapon(-5);
    assert_eq!(g.weapon, Weapon::LaserCannon);
}

#[test]
fn the_chart_cursor_walks_back_where_it_came_from() {
    let mut m = StarMap::generate(Galaxy::Hive, 4);
    let start = m.cursor;
    m.move_cursor(3);
    m.move_cursor(-3);
    assert_eq!(m.cursor, start);
}

#[test]
fn every_system_is_linked_ahead_and_below_and_the_depot_has_a_way_out() {
    for galaxy in Galaxy::ALL {
        let m = StarMap::generate(galaxy, 7);
        assert!(!m.lanes[m.at].is_empty());
        for r in 0..m.height {
            for c in 0..m.width {
                if let Some(i) = m.grid[r][c] {
                    if c + 1 < m.width {
                        if let Some(j) = m.grid[r][c + 1] {
                            assert!(m.lanes[i].contains(&j));
                        }
                    }
                    if r + 1 < m.height {
                        if let Some(j) = m.grid[r + 1][c] {
                            assert!(m.lanes[i].contains(&j));
                        }
                    }
                }
            }
        }
    }
}

#[test]
fn pillars_stand_inside_their_channel() {
    for kind in [TerrainKind::Cave, TerrainKind::Reef, TerrainKind::Pillars, TerrainKind::Spine] {
        let t = Terrain::new(kind, 21);
        for row in &t.rows {
            for p in &row.pillars {
                assert!(row.open.0 <= *p && *p <= row.open.1);
            }
        }
    }
}

#[test]
fn a_buzz_droid_that_flies_into_the_hull_is_spent() {
    let mut g = in_flight();
    let mut droid = Enemy::new(EnemyKind::BuzzDroid, (g.ship.0 - 2, g.ship.1));
    droid.pos = (g.ship.0 - 2, g.ship.1);
    droid.state = zmax_term::nova::kinds::EnemyState::Diving { target_x: g.ship.1 };
    let grunt = Enemy::new(EnemyKind::TieFighter, (3, 20));
    g.enemies = vec![droid, grunt];
    g.advance_enemies();
    assert_eq!(g.enemies.len(), 1);
    assert_eq!(g.enemies[0].kind, EnemyKind::TieFighter);
}

#[test]
fn a_sniper_whose_telegraph_runs_out_lets_go_a_heavy_round() {
    let mut g = in_flight();
    g.enemy_shots.clear();
    let mut sniper = Enemy::new(EnemyKind::TieDefender, (3, 20));
    sniper.charge = 1;
    g.enemies = vec![sniper];
    let before = g.enemy_shots.len();
    g.advance_enemies();
    assert_eq!(g.enemies.len(), 1);
    let p = g.enemies[0].pos;
    assert_eq!(g.enemies[0].charge, 0, "the telegraph is spent");
    assert_eq!(g.enemy_shots.len(), before + 1);
    let round = g.enemy_shots[before];
    assert_eq!(round.pos, (p.0 + 1, p.1), "from the cell below the sniper");
    assert_eq!(round.damage, 2, "heavy enough to cost two pips");
    assert_eq!(round.drift, (g.ship.1 - p.1).signum());
}
