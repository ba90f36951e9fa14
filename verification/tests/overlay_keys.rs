use zmax_term::keys::Key;
use zmax_term::missilecommand::MissileCommand;
use zmax_term::mpuz::Mpuz;
use zmax_term::nonogram::{Cell, Nonogram};
use zmax_term::nova::kinds::Status;
use zmax_term::nova::view::{Camera, Nova, Screen, ViewMode};

#[test]
fn nova_keys_pick_launch_and_pace() {
    let mut n = Nova::new();
    assert!(!n.handle_key(Key::Char('o'), 0));
    assert_eq!(n.view, ViewMode::Cockpit);
    assert!(!n.handle_key(Key::Right, 0));
    assert_eq!(n.pick, 2);
    assert!(!n.handle_key(Key::Left, 0));
    assert!(!n.handle_key(Key::Left, 0));
    assert_eq!(n.pick, 0);
    assert!(!n.handle_key(Key::Left, 0));
    assert_eq!(n.pick, 4);
    n.handle_key(Key::Char('t'), 0);
    assert!(n.roster);
    // The roster swallows keys until it is closed.
    n.handle_key(Key::Right, 0);
    assert_eq!(n.pick, 4);
    n.handle_key(Key::Enter, 0);
    assert!(!n.roster);
    n.handle_key(Key::Char('1'), 5);
    assert_eq!(n.pick, 0);
    assert_eq!(n.game.status, Status::Chart);
    assert!(n.handle_key(Key::Esc, 5));
}

#[test]
fn missile_command_paces_on_the_interval() {
    let mut m = MissileCommand::new();
    m.pace(1000);
    assert_eq!(m.last, Some(1000));
    let timer = m.game.spawn_timer;
    m.pace(1050);
    assert_eq!(m.last, Some(1000));
    assert_eq!(m.game.spawn_timer, timer);
    m.pace(1090);
    assert_eq!(m.last, Some(1090));
    assert!(!m.handle_key(Key::Char('p')));
    assert!(m.paused);
    m.pace(5000);
    assert_eq!(m.last, Some(1090));
    assert!(!m.handle_key(Key::Char('p')));
    assert_eq!(m.last, None);
    let shots = m.game.interceptors.len();
    m.handle_key(Key::Char(' '));
    assert_eq!(m.game.interceptors.len(), shots + 1);
    assert!(m.handle_key(Key::Char('q')));
}

#[test]
fn nonogram_and_mpuz_keys() {
    let mut g = Nonogram::new();
    g.handle_key(Key::Down);
    g.handle_key(Key::Right);
    assert_eq!(g.game.cursor, (1, 1));
    assert!(g.handle_key(Key::Ctrl('c')));
    let mut p = Mpuz::new();
    p.handle_key(Key::Char('c'));
    assert_eq!(p.pending, Some('C'));
    p.handle_key(Key::Char('7'));
    assert_eq!(p.pending, None);
    p.handle_key(Key::Char('5'));
    assert_eq!(p.status, "Press a letter first.");
}

#[test]
fn nova_frames_pick_their_screen() {
    let mut n = Nova::new();
    assert_eq!(n.game.status, Status::Select);
    assert_eq!(n.screen(80, 24), Screen::Select);
    n.roster = true;
    assert_eq!(n.screen(80, 24), Screen::Roster);
    n.roster = false;
    n.game.status = Status::Playing;
    assert_eq!(n.screen(80, 24), Screen::Court);
    assert_eq!(n.screen(23, 24), Screen::TooSmall);
    assert_eq!(n.screen(80, 15), Screen::TooSmall);
    n.view = ViewMode::Cockpit;
    assert_eq!(n.screen(10, 10), Screen::Cockpit);
    n.paused = true;
    assert_eq!(n.screen(80, 24), Screen::Pause);
    n.game.status = Status::Lost;
    assert_eq!(n.screen(80, 24), Screen::Court);
    n.game.status = Status::Chart;
    assert_eq!(n.screen(80, 24), Screen::Chart);
    n.game.status = Status::Hangar;
    assert_eq!(n.screen(80, 24), Screen::Hangar);
}

#[test]
fn nova_camera_centres_on_the_hull_inside_the_court() {
    let mut n = Nova::new();
    // A 44 × 27 window shows 40 × 20 of the 76 × 28 court.
    n.game.ship = (14, 38);
    assert_eq!(n.camera(44, 27), Camera { view_w: 40, view_h: 20, cam_x: 18, cam_y: 4 });
    // Near the corner the camera stops at the court's edge.
    n.game.ship = (1, 2);
    assert_eq!(n.camera(44, 27), Camera { view_w: 40, view_h: 20, cam_x: 0, cam_y: 0 });
    n.game.ship = (27, 75);
    assert_eq!(n.camera(44, 27), Camera { view_w: 40, view_h: 20, cam_x: 36, cam_y: 8 });
    // Tiny windows still show 20 × 10; huge ones the whole court.
    assert_eq!(n.camera(5, 5).view_w, 20);
    assert_eq!(n.camera(5, 5).view_h, 10);
    assert_eq!(n.camera(500, 500), Camera { view_w: 76, view_h: 28, cam_x: 0, cam_y: 0 });
    // A width past i16::MAX reads as negative and falls back to the least view.
    assert_eq!(n.camera(40000, 500).view_w, 20);
}

#[test]
fn nova_frame_count_wraps() {
    let mut n = Nova::new();
    n.frames = u64::MAX - 1;
    n.count_frame();
    assert_eq!(n.frames, u64::MAX);
    n.count_frame();
    assert_eq!(n.frames, 0);
}

#[test]
fn nonogram_keys_fill_mark_clear_and_deal() {
    let mut n = Nonogram::new();
    assert!(!n.handle_key(Key::Char(' ')));
    assert_eq!(n.game.cells[0], Cell::Filled, "space fills the cell");
    assert!(!n.handle_key(Key::Char('x')));
    assert_eq!(n.game.cells[0], Cell::Marked, "x marks it");
    assert!(!n.handle_key(Key::Right));
    assert!(!n.handle_key(Key::Down));
    assert_eq!(n.game.cursor, (1, 1));
    assert!(!n.handle_key(Key::Up));
    assert!(!n.handle_key(Key::Up));
    assert_eq!(n.game.cursor, (0, 1), "held on the board");
    assert!(!n.handle_key(Key::Char('n')));
    assert_eq!(n.seed, 2);
    assert_eq!(n.game.cursor, (0, 0));
    assert!(n.game.cells.iter().all(|c| *c == Cell::Empty));
}

#[test]
fn missile_command_keys_aim_fire_and_restart() {
    let mut m = MissileCommand::new();
    let cross = m.game.cross;
    assert!(!m.handle_key(Key::Left));
    assert_eq!(m.game.cross, (cross.0, cross.1 - 1));
    assert!(!m.handle_key(Key::Char(' ')));
    assert_eq!(m.game.interceptors.len(), 1);
    assert_eq!((m.game.interceptors[0].tr, m.game.interceptors[0].tc), (cross.0, cross.1 - 1));
    assert!(!m.handle_key(Key::Char('n')));
    assert_eq!(m.seed, 2);
    assert!(m.game.interceptors.is_empty());
    assert_eq!(m.game.cross, (11, 24));
}

#[test]
fn mpuz_keys_hold_a_letter_then_guess() {
    let mut p = Mpuz::new();
    let letter = p.puzzle.cipher[p.puzzle.present.iter().position(|x| *x).unwrap()];
    let digit = p.puzzle.cipher.iter().position(|c| *c == letter).unwrap();
    assert!(!p.handle_key(Key::Char(letter.to_ascii_lowercase())));
    assert_eq!(p.pending, Some(letter));
    assert!(!p.handle_key(Key::Char((b'0' + digit as u8) as char)));
    assert!(p.puzzle.revealed[digit]);
    assert_eq!(p.pending, None);
    assert!(!p.handle_key(Key::Char('n')));
    assert_eq!(p.seed, 2);
    assert_eq!(p.status, "New puzzle.");
}

#[test]
fn nova_keys_divert_retry_and_restart() {
    let mut n = Nova::new();
    n.handle_key(Key::Char('1'), 0);
    assert_eq!(n.game.status, Status::Chart);
    n.game.status = Status::Playing;
    assert!(!n.handle_key(Key::Char('z'), 0));
    assert_eq!(n.game.power.lasers, 3, "a pip goes to the lasers");
    assert_eq!(n.game.power.lasers + n.game.power.shields + n.game.power.engines, 6);
    assert!(!n.handle_key(Key::Char('r'), 0));
    assert_eq!(n.game.status, Status::Chart, "straight back into a run");
    assert_eq!(n.seed, 2);
    assert!(!n.handle_key(Key::Char('n'), 0));
    assert_eq!(n.game.status, Status::Select);
    assert_eq!(n.seed, 3);
}
