#![allow(unused_imports, unused_variables, unused_mut, dead_code)]

use zmax_term::nova::boss::{Boss};
use zmax_term::nova::consts::{BLINK_DISTANCE, BOMB_DAMAGE, BOSS_EVERY, COMBO_TICKS, EXTEND_SCORE, H, HEAL_CADENCE, INTERMISSION_TICKS, MAX_WEAPON_LEVEL, MINE_FUSE, REPAIR_CADENCE, SERPENT_SEGMENTS, SHIP_ROW, SHIP_TOP, SURGE_STUN, W, XP_PER_LEVEL};
use zmax_term::nova::entities::{Asteroid, Debris, Enemy, Mine, Powerup, Shot};
use zmax_term::nova::game::{Game};
use zmax_term::nova::kinds::{BossKind, Difficulty, EnemyKind, EnemyState, Formation, Galaxy, LevelReward, Module, NodeBonus, NodeKind, Part, PowerKind, Region, Sector, ShipClass, ShopEntry, Status, Stock, TerrainKind, Weapon};
use zmax_term::nova::starmap::{MapNode};
use zmax_term::nova::terrain::{Terrain};


/// A cruiser one keypress into wave one, on an empty stretch of court.
fn flying() -> Game {
    let mut g = Game::new(1);
    g.start(ShipClass::XWing, Difficulty::Normal, Galaxy::Orion);
    g.node = MapNode {
        pos: (0, 0),
        region: Region::Rim,
        kind: NodeKind::Battle,
        sector: Sector::OpenSpace,
        terrain: TerrainKind::Open,
        bonus: NodeBonus::Refit,
        cleared: false,
        explored: true,
    };
    g.status = Status::Playing;
    g.spawn_wave();
    g.terrain = Terrain::new(TerrainKind::Open, 1);
    g.turrets.clear();
    g.hazards.clear();
    g.enemies.clear();
    g.mines.clear();
    g.debris.clear();
    g.asteroids.clear();
    g
}

/// The same, but parked in the hangar with salvage to spend.
fn docked(credits: u32) -> Game {
    let mut g = flying();
    g.status = Status::Hangar;
    g.credits = credits;
    g
}

#[test]
fn the_spread_gun_fires_one_bolt_per_lane() {
    let mut g = flying();
    g.weapon = Weapon::QuadLaser;
    g.fire();
    let mut drifts: Vec<i16> = g.shots.iter().map(|s| s.drift).collect();
    drifts.sort_unstable();
    assert_eq!(drifts, vec![-1, 0, 1], "level one spreads three ways");
    g.weapon_level = 2;
    g.fire_cooldown = 0;
    g.shots.clear();
    g.fire();
    assert_eq!(g.shots.len(), 5, "level two widens the spread to five");
}

#[test]
fn the_cadence_gates_the_trigger() {
    let mut g = flying();
    g.fire();
    let after_first = g.shots.len();
    g.fire();
    assert_eq!(
        g.shots.len(),
        after_first,
        "a second trigger pull inside the cadence is dropped"
    );
    for _ in 0..g.cadence() {
        g.tick_timers();
    }
    g.fire();
    assert!(
        g.shots.len() > after_first,
        "the cadence lets the next shot out"
    );
}

#[test]
fn a_laser_beam_pierces_the_hull_it_kills() {
    let mut g = flying();
    g.weapon = Weapon::HeavyLaser;
    let col = g.ship.1;
    g.enemies = vec![
        Enemy::new(EnemyKind::TieFighter, (g.ship.0 - 2, col)),
        Enemy::new(EnemyKind::TieFighter, (g.ship.0 - 3, col)),
    ];
    g.fire();
    g.advance_shots();
    assert!(
        g.enemies.is_empty(),
        "one beam takes out both hulls in its lane"
    );
    assert_eq!(g.shots.len(), 1, "and keeps flying");
}

#[test]
fn a_bolt_stops_at_the_hull_it_hits() {
    let mut g = flying();
    let col = g.ship.1;
    g.enemies = vec![
        Enemy::new(EnemyKind::TieFighter, (g.ship.0 - 2, col)),
        Enemy::new(EnemyKind::TieFighter, (g.ship.0 - 3, col)),
    ];
    g.fire();
    g.advance_shots();
    assert_eq!(g.enemies.len(), 1, "the bolt only kills the first hull");
    assert!(g.shots.is_empty(), "and is spent doing it");
}

#[test]
fn homing_missiles_steer_toward_the_nearest_hull() {
    let mut g = flying();
    g.weapon = Weapon::ConcussionMissile;
    g.ship.1 = 30;
    g.enemies = vec![Enemy::new(EnemyKind::TieFighter, (4, 10))];
    g.fire();
    g.advance_shots();
    assert_eq!(g.shots[0].drift, -1, "the missile leans toward the target");
    assert!(g.shots[0].pos.1 < 30, "and has already closed a column");
}

#[test]
fn plasma_damages_the_whole_footprint() {
    let mut g = flying();
    g.weapon = Weapon::ProtonBomb;
    let col = g.ship.1;
    g.enemies = vec![
        Enemy::new(EnemyKind::TieFighter, (g.ship.0 - 2, col - 1)),
        Enemy::new(EnemyKind::TieFighter, (g.ship.0 - 2, col + 1)),
    ];
    g.fire();
    g.advance_shots();
    assert!(
        g.enemies.is_empty(),
        "the wide bolt clears the cells either side of it"
    );
}

#[test]
fn wing_drones_fire_with_the_hull_until_a_surge_stuns_them() {
    let mut g = flying();
    g.drones = vec![-1, 1];
    g.fire();
    assert_eq!(g.shots.len(), 3, "the hull's bolt plus one per drone");
    g.shots.clear();
    g.fire_cooldown = 0;
    g.drone_stun = 10;
    g.fire();
    assert_eq!(g.shots.len(), 1, "stunned drones sit the volley out");
}

#[test]
fn a_shield_pip_soaks_a_hit_before_a_life_is_lost() {
    let mut g = flying();
    g.enemy_shots = vec![Shot::enemy((g.ship.0 - 1, g.ship.1), 0, 1)];
    let (lives, shield) = (g.lives, g.shield);
    g.advance_enemy_shots();
    assert_eq!(g.shield, shield - 1, "the hit burns a shield pip");
    assert_eq!(g.lives, lives, "the life is untouched");
}

#[test]
fn losing_the_last_pip_costs_a_life_and_downgrades_the_gun() {
    let mut g = flying();
    g.shield = 0;
    g.weapon_level = 3;
    g.drones = vec![-1];
    g.enemy_shots = vec![Shot::enemy((g.ship.0 - 1, g.ship.1), 0, 1)];
    let lives = g.lives;
    g.advance_enemy_shots();
    assert_eq!(g.lives, lives - 1, "the life goes");
    assert_eq!(g.shield, g.max_shield, "shields come back for the next one");
    assert_eq!(g.weapon_level, 2, "the gun drops a level");
    assert!(g.drones.is_empty(), "and a drone is shaken loose");
}

#[test]
fn invulnerability_swallows_a_second_hit_in_the_same_moment() {
    let mut g = flying();
    let row = g.ship.0 - 1;
    g.enemy_shots = vec![
        Shot::enemy((row, g.ship.1), 0, 1),
        Shot::enemy((row, g.ship.1), 0, 1),
    ];
    let shield = g.shield;
    g.advance_enemy_shots();
    assert_eq!(
        g.shield,
        shield - 1,
        "two shots landing together only cost one pip"
    );
}

#[test]
fn the_bulwark_eats_fire_outright() {
    let mut g = flying();
    g.bulwark = 10;
    g.enemy_shots = vec![Shot::enemy((g.ship.0 - 1, g.ship.1), 0, 1)];
    let shield = g.shield;
    g.advance_enemy_shots();
    assert_eq!(g.shield, shield, "nothing gets through the bubble");
    assert!(g.enemy_shots.is_empty(), "and the shot is gone");
}

#[test]
fn a_blink_jumps_the_hull_and_costs_energy() {
    let mut g = Game::new(1);
    g.start(ShipClass::AWing, Difficulty::Normal, Galaxy::Orion);
    g.launch_next_wave();
    let (col, energy) = (g.ship.1, g.energy);
    g.move_ship(1, 0);
    g.special();
    assert_eq!(
        g.ship.1,
        (col + g.thrust() + BLINK_DISTANCE).min(W - 2),
        "the hull jumps the way it was flying"
    );
    assert_eq!(g.energy, energy - g.special_cost(), "and the meter pays");
    assert!(g.invulnerable(), "landing invulnerable");
}

#[test]
fn a_barrage_lays_bolts_across_the_whole_court() {
    let mut g = Game::new(1);
    g.start(ShipClass::YWing, Difficulty::Normal, Galaxy::Orion);
    g.launch_next_wave();
    g.special();
    assert!(g.shots.len() >= 8, "the wall covers the court");
    let spread = g.shots.last().unwrap().pos.1 - g.shots[0].pos.1;
    assert!(spread > W / 2, "from one wall to the other");
}

#[test]
fn overdrive_makes_the_special_cheaper() {
    let mut g = flying();
    let full = g.special_cost();
    g.loadout.modules.push(Module::Overdrive);
    assert!(g.special_cost() < full, "the module discounts the special");
}

#[test]
fn a_matching_gun_pickup_levels_it_up_and_a_different_one_swaps_it() {
    let mut g = flying();
    g.collect(PowerKind::Gun(Weapon::LaserCannon));
    assert_eq!(g.weapon_level, 2, "the carried gun levels up");
    g.collect(PowerKind::Gun(Weapon::HeavyLaser));
    assert_eq!(g.weapon, Weapon::HeavyLaser, "a different gun replaces it");
    for _ in 0..5 {
        g.collect(PowerKind::Gun(Weapon::HeavyLaser));
    }
    assert_eq!(g.weapon_level, MAX_WEAPON_LEVEL, "levels are capped");
}

#[test]
fn a_pickup_is_collected_by_flying_into_it() {
    let mut g = flying();
    g.bombs = 0;
    g.powerups = vec![Powerup {
        pos: (g.ship.0 - 1, g.ship.1),
        kind: PowerKind::Bomb,
    }];
    g.advance_powerups();
    assert_eq!(g.bombs, 1, "the bomb is picked up");
    assert!(g.powerups.is_empty(), "and leaves the court");
}

#[test]
fn the_magnet_pulls_pickups_toward_the_hull() {
    let mut g = flying();
    g.loadout.modules.push(Module::Magnet);
    g.powerups = vec![Powerup {
        pos: (g.ship.0 - 4, g.ship.1 + 6),
        kind: PowerKind::Medal,
    }];
    g.advance_powerups();
    assert_eq!(
        g.powerups[0].pos.1,
        g.ship.1 + 5,
        "the medal slides a column closer"
    );
}

#[test]
fn the_repair_bay_hands_a_pip_back_on_its_cadence() {
    let mut g = flying();
    g.loadout.modules.push(Module::RepairBay);
    g.shield = 0;
    g.repair_timer = 1;
    g.tick_timers();
    assert_eq!(g.shield, 1, "the bay patches a pip in");
    assert_eq!(g.repair_timer, REPAIR_CADENCE, "and resets its clock");
}

#[test]
fn a_smart_bomb_clears_enemy_fire_and_the_lighter_hulls() {
    let mut g = flying();
    g.enemies = vec![
        Enemy::new(EnemyKind::TieFighter, (5, 10)),
        Enemy::new(EnemyKind::Gunboat, (5, 20)),
    ];
    g.enemy_shots = vec![Shot::enemy((10, 10), 0, 1)];
    let bombs = g.bombs;
    g.bomb();
    assert_eq!(g.bombs, bombs - 1, "the bomb is spent");
    assert!(g.enemy_shots.is_empty(), "enemy fire is wiped");
    assert_eq!(g.enemies.len(), 1, "the grunt dies");
    assert_eq!(
        g.enemies[0].hp,
        EnemyKind::Gunboat.hp() - BOMB_DAMAGE,
        "the tank survives with its armour scarred"
    );
}

#[test]
fn the_kill_chain_multiplies_the_score() {
    let mut g = flying();
    g.score = 0;
    g.award(10);
    g.award(10);
    g.award(10);
    assert_eq!(g.score, 10 + 20 + 30, "each kill in the chain pays more");
    g.damage_ship(1);
    assert_eq!(g.combo, 1, "taking a hit breaks the chain");
}

#[test]
fn the_chain_cools_off_when_the_killing_stops() {
    let mut g = flying();
    g.award(10);
    assert_eq!(g.combo, 2);
    for _ in 0..COMBO_TICKS {
        g.tick_timers();
    }
    assert_eq!(g.combo, 1, "the chain lapses after COMBO_TICKS quiet ticks");
}

#[test]
fn kills_pay_salvage_and_the_salvager_pays_more() {
    let mut g = flying();
    g.credits = 0;
    g.award(100);
    let plain = g.credits;
    assert!(plain > 0, "a kill banks salvage");
    g.credits = 0;
    g.combo = 1;
    g.loadout.modules.push(Module::Salvager);
    g.award(100);
    assert!(g.credits > plain, "the salvager takes a bigger cut");
}

#[test]
fn experience_levels_the_pilot_and_pays_an_upgrade() {
    let mut g = flying();
    let damage = g.gun_damage();
    g.gain_xp(4 * XP_PER_LEVEL);
    assert_eq!(g.level, 2, "the bar fills and the pilot levels");
    assert_eq!(
        LevelReward::of_level(2),
        LevelReward::Firepower,
        "level two is the firepower slot"
    );
    assert_eq!(g.gun_damage(), damage + 1, "and the guns hit harder");
    assert_eq!(g.xp_next, XP_PER_LEVEL * 2, "the next level costs more");
}

#[test]
fn an_extend_is_paid_at_every_threshold() {
    let mut g = flying();
    let lives = g.lives;
    g.add_score(EXTEND_SCORE);
    assert_eq!(g.lives, lives + 1, "crossing the threshold pays a hull");
    assert_eq!(g.next_extend, EXTEND_SCORE * 2, "and the bar moves up");
}

#[test]
fn a_sniper_telegraphs_before_its_shot_goes_off() {
    let mut g = flying();
    let mut sniper = g.hatch(EnemyKind::TieDefender, (4, g.ship.1));
    sniper.charge = 1;
    g.enemies = vec![sniper];
    g.advance_enemies();
    assert_eq!(g.enemies[0].charge, 0, "the telegraph runs out");
    assert_eq!(g.enemy_shots.len(), 1, "and the shot goes off");
    assert_eq!(g.enemy_shots[0].speed, 2, "twice as fast as anything else");
}

#[test]
fn a_mine_goes_off_when_the_ship_flies_close() {
    let mut g = flying();
    g.mines = vec![Mine {
        pos: (g.ship.0 - 1, g.ship.1),
        fuse: MINE_FUSE,
    }];
    g.advance_mines();
    assert!(g.mines.is_empty(), "the mine is spent");
    assert_eq!(g.enemy_shots.len(), 3, "throwing a three-way spread");
}

#[test]
fn shooting_a_mine_sets_it_off_too() {
    let mut g = flying();
    let pos = (6, 20);
    g.mines = vec![Mine {
        pos,
        fuse: MINE_FUSE,
    }];
    let hit = g.hit_targets(&Shot::bolt(pos, 0, 2));
    assert!(hit, "the shot connects with the mine");
    assert!(g.mines.is_empty());
    assert_eq!(g.enemy_shots.len(), 3, "and the mine still blows");
}

#[test]
fn a_splitter_breaks_into_two_divers() {
    let mut g = flying();
    let pos = (6, 20);
    let mut splitter = Enemy::new(EnemyKind::VultureDroid, pos);
    splitter.hp = 1;
    g.enemies = vec![splitter];
    g.hit_targets(&Shot::bolt(pos, 0, 2));
    assert_eq!(g.enemies.len(), 2, "two grunts come out of the wreck");
    assert!(
        g.enemies
            .iter()
            .all(|e| matches!(e.state, EnemyState::Diving { .. })),
        "both dive straight at the ship"
    );
}

#[test]
fn a_healer_patches_up_the_hull_beside_it() {
    let mut g = flying();
    let mut hurt = g.hatch(EnemyKind::Gunboat, (5, 20));
    hurt.hp = 2;
    g.enemies = vec![g.hatch(EnemyKind::RepairDroid, (5, 22)), hurt];
    g.tick = HEAL_CADENCE;
    g.advance_enemies();
    let tank = g
        .enemies
        .iter()
        .find(|e| e.kind == EnemyKind::Gunboat)
        .expect("the tank is still flying");
    assert_eq!(tank.hp, 3, "the healer welds a hit point back on");
}

#[test]
fn a_diver_that_misses_returns_to_formation_but_a_kamikaze_is_gone() {
    let mut g = flying();
    let mut grunt = Enemy::new(EnemyKind::TieFighter, (4, 8));
    grunt.pos = (H - 1, 8);
    grunt.state = EnemyState::Diving { target_x: 8 };
    let mut kamikaze = Enemy::new(EnemyKind::BuzzDroid, (4, 40));
    kamikaze.pos = (H - 1, 40);
    kamikaze.state = EnemyState::Diving { target_x: 40 };
    g.enemies = vec![grunt, kamikaze];
    g.advance_enemies();
    assert_eq!(g.enemies.len(), 1, "the kamikaze leaves the court");
    assert_eq!(g.enemies[0].kind, EnemyKind::TieFighter);
    assert_eq!(
        g.enemies[0].state,
        EnemyState::Formation,
        "the diver re-forms"
    );
    assert_eq!(g.enemies[0].pos, (4, 8), "back in its slot");
}

#[test]
fn ramming_the_ship_costs_the_hull_a_pip() {
    let mut g = flying();
    let mut kamikaze = Enemy::new(EnemyKind::BuzzDroid, (4, g.ship.1));
    kamikaze.pos = (g.ship.0 - 2, g.ship.1);
    kamikaze.state = EnemyState::Diving { target_x: g.ship.1 };
    g.enemies = vec![kamikaze];
    let shield = g.shield;
    g.advance_enemies();
    assert_eq!(g.shield, shield - 1, "the ram lands");
    assert!(g.enemies.is_empty(), "and the kamikaze is spent");
}

#[test]
fn a_rock_can_be_shot_or_will_ram_the_hull() {
    let mut g = flying();
    let pos = (6, 20);
    g.asteroids = vec![Asteroid {
        pos,
        hp: 2,
        drift: 0,
    }];
    g.hit_targets(&Shot::bolt(pos, 0, 3));
    assert!(g.asteroids.is_empty(), "a big enough shot breaks the rock");
    g.asteroids = vec![Asteroid {
        pos: g.ship,
        hp: 3,
        drift: 0,
    }];
    g.invuln = 0;
    g.tick = 1;
    let shield = g.shield;
    g.advance_asteroids();
    assert_eq!(g.shield, shield - 1, "flying into one costs a pip");
}

#[test]
fn a_hulk_eats_shots_from_both_sides() {
    let mut g = flying();
    let pos = (6, 20);
    g.debris = vec![Debris { pos, hp: 4 }];
    assert!(g.hit_targets(&Shot::bolt(pos, 0, 1)), "player fire lands");
    assert_eq!(g.debris[0].hp, 3, "and chips the hulk");
    g.enemy_shots = vec![Shot::enemy((pos.0 - 1, pos.1), 0, 1)];
    g.advance_enemy_shots();
    assert!(g.enemy_shots.is_empty(), "enemy fire is stopped too");
    assert_eq!(g.debris[0].hp, 2, "chipping it further");
}

#[test]
fn sectors_change_what_is_in_the_court() {
    let mut g = flying();
    g.sector = Sector::Minefield;
    g.dress_sector();
    assert_eq!(
        g.mines.len(),
        Sector::Minefield.starting_mines(),
        "a minefield starts sown"
    );
    let mut g = flying();
    g.sector = Sector::DebrisRing;
    g.dress_sector();
    assert_eq!(
        g.debris.len(),
        Sector::DebrisRing.debris_blocks(),
        "a debris ring starts blocked"
    );
    assert!(
        Sector::AsteroidBelt.asteroid_chance() < Sector::OpenSpace.asteroid_chance(),
        "the belt throws far more rock"
    );
    let sectors: Vec<Sector> = (1..=6).map(Sector::of_wave).collect();
    assert_eq!(
        sectors.len(),
        sectors
            .iter()
            .collect::<std::collections::HashSet<_>>()
            .len(),
        "six waves visit six different sectors"
    );
}

#[test]
fn the_nebula_drags_every_shot_a_row_slower() {
    let mut g = flying();
    g.fire();
    let clear = g.shots[0].speed;
    let mut g = flying();
    g.sector = Sector::Nebula;
    g.fire();
    assert_eq!(g.shots[0].speed, clear + 1, "the soup costs a row of speed");
    g.launch_enemy(Shot::enemy((0, 5), 0, 2));
    assert_eq!(g.enemy_shots[0].speed, 1, "enemy fire wades too");
}

#[test]
fn an_ion_surge_drains_the_reactor_and_stuns_the_drones() {
    let mut g = flying();
    g.sector = Sector::IonStorm;
    g.drones = vec![-1];
    g.tick = Sector::IonStorm.surge_cadence();
    let energy = g.energy;
    g.advance_storm();
    assert!(g.energy < energy, "the surge drains the meter");
    assert_eq!(g.drone_stun, SURGE_STUN, "and knocks the drones out");
    assert_eq!(g.enemy_shots.len(), 3, "lightning comes down three lanes");
}

#[test]
fn formations_change_shape_from_wave_to_wave() {
    let grid = Formation::Grid.slot(0, 0);
    let vee = Formation::Vee.slot(0, 0);
    assert_ne!(grid, vee, "the vee droops at the edges");
    assert_eq!(
        Formation::Grid.slot(0, 4).1,
        Formation::Vee.slot(0, 4).1,
        "but the columns line up either way"
    );
    let shapes: Vec<Formation> = (1..=5).map(Formation::of_wave).collect();
    assert_eq!(
        shapes.len(),
        shapes
            .iter()
            .collect::<std::collections::HashSet<_>>()
            .len(),
        "five waves fly five shapes"
    );
}

#[test]
fn a_boss_system_fields_a_boss_and_they_cycle() {
    let mut g = flying();
    g.wave = 3;
    g.spawn_wave();
    assert!(g.boss.is_none(), "an ordinary system is a formation");
    g.wave = BOSS_EVERY;
    g.node.kind = NodeKind::Boss;
    g.spawn_wave();
    assert!(g.boss.is_some(), "wave four brings the boss");
    assert!(!g.enemies.is_empty(), "with a kamikaze escort alongside it");
    let bosses: Vec<BossKind> = (1..=4).map(|n| BossKind::of_wave(n * BOSS_EVERY)).collect();
    assert_eq!(
        bosses.len(),
        bosses
            .iter()
            .collect::<std::collections::HashSet<_>>()
            .len(),
        "four boss waves fight four different bosses"
    );
}

#[test]
fn the_boss_enrages_as_its_armour_burns_off() {
    let mut boss = Boss::new(BossKind::Dreadnought, 100);
    assert_eq!(boss.phase(), 1);
    boss.hp = 50;
    assert_eq!(boss.phase(), 2, "past a third of the hull it escalates");
    boss.hp = 20;
    assert_eq!(boss.phase(), 3, "and enrages below a third");
    assert_eq!(boss.speed(), 2, "the enraged sweep is twice as fast");
    assert!(boss.cadence() < 14, "and it fires far more often");
}

#[test]
fn the_twin_core_is_armoured_until_both_turrets_fall() {
    let mut g = flying();
    g.boss = Some(Boss::new(BossKind::Twin, 90));
    let core = g.boss.as_ref().unwrap().pos;
    let before = g.boss.as_ref().unwrap().hp;
    g.hit_targets(&Shot::bolt(core, 0, 5));
    assert_eq!(
        g.boss.as_ref().unwrap().hp,
        before,
        "the core shrugs the shot off while the turrets stand"
    );
    g.boss.as_mut().unwrap().parts.clear();
    g.hit_targets(&Shot::bolt(core, 0, 5));
    assert_eq!(
        g.boss.as_ref().unwrap().hp,
        before - 5,
        "with the turrets gone the core takes it"
    );
}

#[test]
fn a_turret_can_be_shot_off_the_twin() {
    let mut g = flying();
    g.boss = Some(Boss::new(BossKind::Twin, 90));
    let turret = g.boss.as_ref().unwrap().part_cells()[0];
    let hp = g.boss.as_ref().unwrap().parts[0].hp;
    g.hit_targets(&Shot::bolt(turret, 0, hp));
    assert_eq!(
        g.boss.as_ref().unwrap().parts.len(),
        1,
        "the turret comes off"
    );
}

#[test]
fn the_serpent_body_swims_behind_its_head() {
    let mut boss = Boss::new(BossKind::Serpent, 120);
    assert_eq!(boss.parts.len(), SERPENT_SEGMENTS);
    let first = boss.part_cells();
    boss.tick += 2;
    let later = boss.part_cells();
    assert_ne!(first, later, "the segments weave as the tick advances");
    assert!(
        later.iter().all(|&(_, c)| c < boss.pos.1),
        "and always trail the head"
    );
}

#[test]
fn killing_the_boss_pays_a_bounty_and_clears_the_wave() {
    let mut g = flying();
    g.wave = BOSS_EVERY;
    g.node.kind = NodeKind::Boss;
    g.spawn_wave();
    g.enemies.clear();
    let score = g.score;
    if let Some(boss) = g.boss.as_mut() {
        boss.hp = 0;
        boss.parts.clear();
    }
    g.check_end();
    assert!(g.boss.is_none(), "the boss is destroyed");
    assert_eq!(g.status, Status::WaveClear);
    assert!(
        g.score >= score + 500 * BOSS_EVERY,
        "the bounty and the wave bonus are paid"
    );
}

#[test]
fn a_cleared_wave_docks_at_the_hangar() {
    let mut g = flying();
    g.check_end();
    assert_eq!(g.status, Status::WaveClear, "an empty court ends the wave");
    for _ in 0..INTERMISSION_TICKS {
        g.step();
    }
    assert_eq!(g.status, Status::Hangar, "and the hangar opens");
    assert!(g.credits > 0, "with the wave bonus banked as salvage");
}

#[test]
fn the_hangar_sells_component_tiers() {
    let mut g = docked(5_000);
    let line = g
        .shop_lines()
        .into_iter()
        .find(|l| l.entry == ShopEntry::Component(Part::Engine))
        .expect("the engine is on the list");
    let thrust = g.thrust();
    assert!(g.buy(line.key), "the sale goes through");
    assert_eq!(g.loadout.tier(Part::Engine), 1, "the engine is upgraded");
    assert_eq!(g.credits, 5_000 - line.price, "and the salvage is spent");
    assert!(g.buy(line.key), "a second tier is on sale too");
    assert_eq!(g.thrust(), thrust + 1, "two tiers buy a column of thrust");
}

#[test]
fn the_hangar_refuses_what_cannot_be_paid_for() {
    let mut g = docked(0);
    let line = g.shop_lines().into_iter().next().expect("stock is listed");
    assert!(!line.available, "an empty hold cannot afford it");
    assert!(!g.buy(line.key), "and the sale is refused");
    assert_eq!(g.loadout.tier(Part::Engine), 0);
}

#[test]
fn hangar_plating_raises_the_shield_ceiling() {
    let mut g = docked(5_000);
    let ceiling = g.max_shield;
    let line = g
        .shop_lines()
        .into_iter()
        .find(|l| l.entry == ShopEntry::Component(Part::Plating))
        .expect("plating is on the list");
    assert!(g.buy(line.key));
    assert_eq!(g.max_shield, ceiling + 1, "the hull carries another pip");
    assert_eq!(g.shield, g.max_shield, "and it is fitted full");
}

#[test]
fn hangar_fittings_are_sold_once_each() {
    let mut g = docked(5_000);
    let line = g
        .shop_lines()
        .into_iter()
        .find(|l| l.entry == ShopEntry::Fitting(Module::Magnet))
        .expect("the magnet is on the list");
    assert!(g.buy(line.key));
    assert!(g.loadout.has(Module::Magnet), "the module is fitted");
    assert!(
        !g.shop_lines()
            .iter()
            .any(|l| l.entry == ShopEntry::Fitting(Module::Magnet)),
        "and it drops off the list"
    );
}

#[test]
fn hangar_consumables_respect_their_ceilings() {
    let mut g = docked(5_000);
    g.drones = vec![-1, 1];
    assert!(
        g.shop_lines()
            .iter()
            .any(|l| l.entry == ShopEntry::Consumable(Stock::Drone) && !l.available),
        "a full wing cannot take another drone"
    );
    g.owned = vec![Weapon::LaserCannon, Weapon::MassDriver];
    let swap = g
        .shop_lines()
        .into_iter()
        .find(|l| l.entry == ShopEntry::Consumable(Stock::GunSwap))
        .expect("the swap is on the list");
    assert!(g.buy(swap.key));
    assert_eq!(
        g.weapon,
        Weapon::MassDriver,
        "the racks rotate to the next gun"
    );
}

#[test]
fn leaving_the_hangar_flies_the_next_wave_with_the_build_intact() {
    let mut g = docked(5_000);
    g.score = 4_200;
    let engine = g
        .shop_lines()
        .into_iter()
        .find(|l| l.entry == ShopEntry::Component(Part::Engine))
        .expect("the engine is on the list");
    assert!(g.buy(engine.key));
    g.launch_next_wave();
    assert_eq!(g.status, Status::Playing, "the next wave starts");
    assert_eq!(g.wave, 2);
    assert!(!g.enemies.is_empty(), "with a fresh formation");
    assert_eq!(g.loadout.tier(Part::Engine), 1, "the build carries over");
    assert_eq!(g.shield, g.max_shield, "shields are topped back up");
    assert_eq!(g.score, 4_200, "and the score is untouched");
}

#[test]
fn the_run_ends_when_the_last_life_is_gone() {
    let mut g = flying();
    g.lives = 1;
    g.shield = 0;
    g.enemy_shots = vec![Shot::enemy((g.ship.0 - 1, g.ship.1), 0, 1)];
    g.advance_enemy_shots();
    g.check_end();
    assert_eq!(g.status, Status::Lost);
}

#[test]
fn the_hull_cannot_fly_out_of_its_box() {
    let mut g = flying();
    for _ in 0..40 {
        g.move_ship(-1, -1);
    }
    assert_eq!(g.ship.0, SHIP_TOP, "it stops at the top of its band");
    assert_eq!(g.ship.1, 1, "and inside the left wall");
    for _ in 0..80 {
        g.move_ship(1, 1);
    }
    assert_eq!(g.ship.0, SHIP_ROW);
    assert_eq!(g.ship.1, W - 2);
}

#[test]
fn a_long_run_through_every_sector_never_panics() {
    let mut g = Game::new(7);
    g.start(ShipClass::AWing, Difficulty::Insane, Galaxy::Orion);
    g.launch_next_wave();
    for i in 0..2_000 {
        if g.status == Status::Hangar {
            g.launch_next_wave();
        }
        if i % 3 == 0 {
            g.fire();
        }
        if i % 97 == 0 {
            g.bomb();
        }
        if i % 61 == 0 {
            g.special();
        }
        g.move_ship(if i % 2 == 0 { 1 } else { -1 }, 0);
        g.step();
        assert!(
            (1..W - 1).contains(&g.ship.1),
            "the hull stays on the court"
        );
        assert!(
            g.enemies.iter().all(|e| e.pos.0 < H),
            "no hull is left below the floor"
        );
        assert!(g.energy <= g.max_energy(), "the meter never overfills");
    }
}
