use zmax_term::nova::cockpit::{glass, project, Glass};
use zmax_term::nova::entities::Enemy;
use zmax_term::nova::game::Game;
use zmax_term::nova::kinds::EnemyKind;

#[test]
fn glass_fits_the_window() {
    assert_eq!(glass(80, 24), Glass { w: 76, h: 16, centre_x: 38, horizon: 5 });
    assert_eq!(glass(10, 5), Glass { w: 20, h: 8, centre_x: 10, horizon: 2 });
    assert_eq!(glass(500, 500), Glass { w: 96, h: 30, centre_x: 48, horizon: 10 });
}

#[test]
fn cells_ahead_project_onto_the_glass() {
    let g = glass(80, 24);
    let ship = (27, 38);
    // Seven rows ahead, two columns right: a little right of centre.
    assert_eq!(project(g, ship, 20, 40), Some((41, 10, 7)));
    // Two columns left rounds toward the centre, as Rust divides.
    assert_eq!(project(g, ship, 20, 36), Some((35, 10, 7)));
    // On the hull's row: the lowest glass row, right at the middle.
    assert_eq!(project(g, ship, 27, 38), Some((38, 14, 0)));
    // Too far ahead, or behind: not shown.
    assert_eq!(project(g, ship, 9, 38), None);
    assert_eq!(project(g, ship, 28, 38), None);
}

#[test]
fn reticle_boxes_the_nearest_contact_in_its_sights() {
    let mut g = Game::new(1);
    let ship = g.ship;
    g.enemies = vec![
        Enemy::new(EnemyKind::TieFighter, (ship.0 - 10, ship.1 + 2)),
        Enemy::new(EnemyKind::TieFighter, (ship.0 - 5, ship.1 - 9)),
        Enemy::new(EnemyKind::TieFighter, (ship.0 - 4, ship.1 - 3)),
        Enemy::new(EnemyKind::TieFighter, (ship.0 - 4, ship.1 + 1)),
        Enemy::new(EnemyKind::TieFighter, (ship.0 + 1, ship.1)),
    ];
    // Index 1 is nearer but out of the sights; 2 and 3 tie and the first wins.
    assert_eq!(g.cockpit_target(), Some(2));
    g.enemies.truncate(2);
    assert_eq!(g.cockpit_target(), Some(0));
    g.enemies.remove(0);
    assert_eq!(g.cockpit_target(), None);
}
