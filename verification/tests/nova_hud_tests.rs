use zmax_term::nova::game::Game;
use zmax_term::nova::hud::health_fill;

#[test]
fn health_bars_fill_in_proportion() {
    assert_eq!(health_fill(50, 100, 24), 12);
    assert_eq!(health_fill(100, 100, 20), 20);
    assert_eq!(health_fill(-5, 100, 24), 0);
    assert_eq!(health_fill(0, 100, 24), 0);
    // A most of zero counts as one.
    assert_eq!(health_fill(1, 0, 20), 20);
    assert_eq!(health_fill(33, 100, 20), 6);
}

#[test]
fn pips_light_in_proportion_and_stop_at_the_top() {
    let mut g = Game::new(1);
    let most = g.max_energy();
    g.energy = most / 2;
    assert_eq!(g.energy_pips(), (most / 2 * 10 / most) as usize);
    g.energy = most * 3;
    assert_eq!(g.energy_pips(), 10);
    g.force = 50;
    assert_eq!(g.force_pips(), 3);
    g.force = 100;
    assert_eq!(g.force_pips(), 6);
    g.xp = 3;
    g.xp_next = 10;
    assert_eq!(g.xp_pips(), 3);
    g.xp = 40;
    assert_eq!(g.xp_pips(), 10);
    assert_eq!(g.boss_fill(), None);
    assert_eq!(g.capital_fill(), None);
}
