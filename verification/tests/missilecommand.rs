#![allow(unused_imports, unused_variables, unused_mut, dead_code)]

use zmax_term::missilecommand::{BAT_COL, Blast, CITY_COLS, CITY_ROW, Game, Missile, WAVE_BONUS};



#[test]
fn interceptor_detonates_at_the_crosshair() {
    let mut g = Game::new(1);
    g.spawn_timer = 999; // keep the spawner quiet
    g.cross = (CITY_ROW - 1, BAT_COL);
    g.fire();
    g.step();
    assert!(
        g.blasts
            .iter()
            .any(|b| b.r == CITY_ROW - 1 && b.c == BAT_COL),
        "a blast forms at the crosshair once the interceptor arrives"
    );
}

#[test]
fn blast_destroys_a_missile_and_scores() {
    let mut g = Game::new(1);
    g.spawn_timer = 999;
    g.missiles.clear();
    g.interceptors.clear();
    g.missiles.push(Missile {
        r: 5,
        c: 10,
        tc: 10,
    });
    g.blasts.push(Blast {
        r: 6,
        c: 10,
        radius: 3,
        ttl: 5,
    });
    let before = g.score;
    g.step();
    assert!(g.missiles.is_empty(), "the missile in the blast is gone");
    assert_eq!(g.score, before + 1, "destroying a missile scores a point");
}

#[test]
fn missile_reaching_a_city_destroys_it() {
    let mut g = Game::new(1);
    g.spawn_timer = 999;
    g.missiles.clear();
    let cx = CITY_COLS[0];
    g.missiles.push(Missile {
        r: CITY_ROW - 1,
        c: cx,
        tc: cx,
    });
    g.step();
    assert!(!g.cities[0].alive, "the targeted city is destroyed");
    assert!(g.missiles.is_empty(), "the grounded missile is consumed");
}

#[test]
fn all_cities_destroyed_ends_the_game() {
    let mut g = Game::new(1);
    g.spawn_timer = 999;
    for c in g.cities.iter_mut() {
        c.alive = false;
    }
    g.cities[0].alive = true; // one city left standing
    g.missiles.clear();
    let cx = g.cities[0].col;
    g.missiles.push(Missile {
        r: CITY_ROW - 1,
        c: cx,
        tc: cx,
    });
    assert!(!g.game_over(), "still one city alive before the hit");
    g.step();
    assert!(g.game_over(), "losing the last city ends the game");
}

#[test]
fn clearing_a_wave_advances_and_awards_a_bonus() {
    let mut g = Game::new(1);
    g.missiles.clear();
    g.spawned = g.quota; // whole wave has been launched
    let wave = g.wave;
    let score = g.score;
    g.step();
    assert_eq!(g.wave, wave + 1, "the next wave begins");
    assert_eq!(
        g.score,
        score + WAVE_BONUS,
        "clearing a wave awards a bonus"
    );
}

