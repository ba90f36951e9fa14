//! The interactive Nova overlay's own state: the picker, the pause, the
//! roster, which way the fight is watched, and the frame timing it is driven
//! at. Drawing it and reading keys happen outside the library.

use vstd::prelude::*;

use super::consts::{H, SHIP_ROW, SHIP_TOP, W};
use super::game::{diverted, fresh_game, Game};
use super::game_chart::{campaign_started, chart_cursor_moved, chart_opened, chart_steered, jumped, mission_flown};
use super::game_hangar::{bought, cycled};
use super::game_score::forced;
use super::game_wave::started;
use super::starmap::spot;
use super::game_fire::{gun_fired, ship_moved, special_used};
use super::game_hangar::{gun_picked, racks_turned};
use super::game_round::{bomb_dropped, salvo_fired, stepped};
use super::kinds::{Difficulty, ForcePower, Galaxy, ShipClass, Status, System};
use crate::keys::Key;

verus! {

/// Which way the fight is watched.
#[derive(Clone, Copy, PartialEq, Eq, Debug, Structural)]
pub enum ViewMode {
    /// Straight down on the court, the way the arcade did it.
    TopDown,
    /// Out of the canopy, with everything ahead projected onto the glass.
    Cockpit,
}

impl ViewMode {
    /// The name the HUD shows for it.
    pub fn name(self) -> (r: &'static str)
        ensures
            r == (match self {
                ViewMode::TopDown => "top-down",
                ViewMode::Cockpit => "cockpit",
            }),
    {
        match self {
            ViewMode::TopDown => "top-down",
            ViewMode::Cockpit => "cockpit",
        }
    }
}

/// The interactive Nova overlay: the court, the seed it was rolled from, the
/// picker's highlights, and how it is being shown. Times are in milliseconds.
pub struct Nova {
    pub game: Game,
    pub seed: u64,
    /// Highlighted hull on the picker.
    pub pick: usize,
    /// Highlighted difficulty on the picker.
    pub diff: usize,
    /// Highlighted galaxy on the picker.
    pub gal: usize,
    pub paused: bool,
    /// When the court last ticked, if it has since the last restart.
    pub last: Option<u64>,
    /// Milliseconds between ticks.
    pub interval: u64,
    /// Rendered frames, used only to blink the hull while it is invulnerable.
    pub frames: u64,
    /// True while the squadron roster is up over everything else.
    pub roster: bool,
    /// Whether the fight is watched from above or out of the canopy.
    pub view: ViewMode,
}

/// `h` is `g` back on the hull picker with a fresh game from the next seed,
/// unpaused and with its clock stopped.
pub open spec fn restarted(g: Nova, h: Nova) -> bool {
    &&& h.seed == g.seed.wrapping_add(1)
    &&& fresh_game(h.seed, h.game)
    &&& h == (Nova { game: h.game, seed: h.seed, paused: false, last: None, ..g })
}

/// `h` is `g` restarted and straight back into a run with the same hull,
/// difficulty and galaxy.
pub open spec fn retried(g: Nova, h: Nova) -> bool {
    &&& h.seed == g.seed.wrapping_add(1)
    &&& h == (Nova { game: h.game, seed: h.seed, paused: false, last: None, ..g })
    &&& exists|m: Game| #[trigger] fresh_game(h.seed, m)
        && started(m, g.game.class, g.game.difficulty, g.game.galaxy, h.game)
}

/// `h` is `g` with a run begun in the highlighted hull, at the highlighted
/// difficulty, in the highlighted galaxy.
pub open spec fn launched_run(g: Nova, h: Nova) -> bool {
    &&& h == (Nova { game: h.game, ..g })
    &&& started(
        g.game,
        ShipClass::ALL[g.pick as int],
        Difficulty::ALL[g.diff as int],
        Galaxy::ALL[g.gal as int],
        h.game,
    )
}

/// What a key on the hull picker does: the arrows walk the hulls, the
/// difficulty and galaxy keys cycle their lists, `m` flies the campaign in
/// the highlighted hull, a digit `1`..`5` launches that hull, enter or space
/// launches the highlighted one, and any other key does nothing.
pub open spec fn picked(g: Nova, key: Key, h: Nova) -> bool {
    match key {
        Key::Left | Key::Char('h') => h == (Nova { pick: ((g.pick + 4) % 5) as usize, ..g }),
        Key::Right | Key::Char('l') => h == (Nova { pick: ((g.pick + 1) % 5) as usize, ..g }),
        Key::Char('d') | Key::Tab => h == (Nova { diff: ((g.diff + 1) % 3) as usize, ..g }),
        Key::Char('g') => h == (Nova { gal: ((g.gal + 1) % 5) as usize, ..g }),
        Key::Char('m') => h == (Nova { game: h.game, ..g })
            && campaign_started(g.game, ShipClass::ALL[g.pick as int], Difficulty::ALL[g.diff as int], h.game),
        Key::Char('1') => launched_run(Nova { pick: 0, ..g }, h),
        Key::Char('2') => launched_run(Nova { pick: 1, ..g }, h),
        Key::Char('3') => launched_run(Nova { pick: 2, ..g }, h),
        Key::Char('4') => launched_run(Nova { pick: 3, ..g }, h),
        Key::Char('5') => launched_run(Nova { pick: 4, ..g }, h),
        Key::Enter | Key::Char(' ') => launched_run(g, h),
        _ => h == g,
    }
}

/// What a key on the star chart does: the arrows steer the cursor toward a
/// system that way, tab walks it on through the reachable systems, enter or
/// space flies the lane under it, `n` starts over, and any other key does
/// nothing.
pub open spec fn charted_key(g: Nova, key: Key, h: Nova) -> bool {
    let same = h == (Nova { game: h.game, ..g });
    match key {
        Key::Left | Key::Char('h') => same && chart_steered(g.game, -1i32, 0i32, h.game),
        Key::Right | Key::Char('l') => same && chart_steered(g.game, 1i32, 0i32, h.game),
        Key::Up | Key::Char('k') => same && chart_steered(g.game, 0i32, -1i32, h.game),
        Key::Down | Key::Char('j') => same && chart_steered(g.game, 0i32, 1i32, h.game),
        Key::Tab => same && chart_cursor_moved(g.game, 1i32, h.game),
        Key::Enter | Key::Char(' ') => same && if g.game.wave < 50_000_000 {
            exists|r: bool| #[trigger] jumped(g.game, r, h.game)
        } else {
            h.game == g.game
        },
        Key::Char('n') => restarted(g, h),
        _ => h == g,
    }
}

/// What a key in the hangar does: enter flies the next campaign mission, or
/// opens the chart outside the campaign; `w` climbs into another flying
/// hull; `n` starts over; any other letter buys the line it names; and any
/// other key does nothing.
pub open spec fn docked_key(g: Nova, key: Key, h: Nova) -> bool {
    let same = h == (Nova { game: h.game, ..g });
    match key {
        Key::Enter => same && if g.game.mission is Some {
            if g.game.campaign_at < usize::MAX {
                mission_flown(g.game, (g.game.campaign_at + 1) as usize, h.game)
            } else {
                h.game == g.game
            }
        } else {
            chart_opened(g.game, h.game)
        },
        Key::Char('w') => same && exists|r: bool| #[trigger] cycled(g.game, r, h.game),
        Key::Char('n') => restarted(g, h),
        Key::Char(c) => same && exists|r: bool| #[trigger] bought(g.game, c, r, h.game),
        _ => h == g,
    }
}

/// The keys a round answers to.
pub open spec fn flight_key_used(key: Key) -> bool {
    match key {
        Key::Left | Key::Right | Key::Up | Key::Down => true,
        Key::Char(c) => c == 'h' || c == 'j' || c == 'k' || c == 'l' || c == ' ' || c == 'f' || c == 'm'
            || c == '[' || c == ']' || ('0' <= c <= '9') || c == 'x' || c == 'z' || c == 'c' || c == 'v'
            || c == 'e' || c == 'y' || c == 'u' || c == 'b' || c == 'p' || c == 'r' || c == 'n',
        _ => false,
    }
}

/// What a key in flight does: the arrows fly the hull, the rack keys and
/// the digits change guns, the trigger, launcher, bomb and special keys do
/// what the round says of them, the divert keys move power, the Force keys
/// reach for the Force, the pause key pauses, `r` retries the run, `n`
/// starts over, and any other key does nothing.
pub open spec fn flown_key(g: Nova, key: Key, h: Nova) -> bool {
    &&& match key {
        Key::Char('p') => h == (Nova { paused: !g.paused, ..g }),
        Key::Char('r') => retried(g, h),
        Key::Char('n') => restarted(g, h),
        _ => h == (Nova { game: h.game, ..g }),
    }
    &&& !flight_key_used(key) ==> h == g
    &&& key == Key::Char('z') ==> exists|r: bool| #[trigger] diverted(g.game, System::Lasers, r, h.game)
    &&& key == Key::Char('c') ==> exists|r: bool| #[trigger] diverted(g.game, System::Shields, r, h.game)
    &&& key == Key::Char('v') ==> exists|r: bool| #[trigger] diverted(g.game, System::Engines, r, h.game)
    &&& key == Key::Char('e') ==> exists|r: bool| #[trigger] forced(g.game, ForcePower::Sense, r, h.game)
    &&& key == Key::Char('y') ==> exists|r: bool| #[trigger] forced(g.game, ForcePower::Pull, r, h.game)
    &&& key == Key::Char('u') ==> exists|r: bool| #[trigger] forced(g.game, ForcePower::Guided, r, h.game)
    &&& g.game.status == Status::Playing ==> {
        let row = g.game.ship.0;
        &&& (key == Key::Left || key == Key::Char('h')) ==> h.game.facing == -1 && h.game.ship.0 == row
        &&& (key == Key::Right || key == Key::Char('l')) ==> h.game.facing == 1 && h.game.ship.0 == row
        &&& (key == Key::Up || key == Key::Char('k')) ==> h.game.ship.0
            == crate::arith::clamp_int(row - 1, SHIP_TOP as int, SHIP_ROW as int)
        &&& (key == Key::Down || key == Key::Char('j')) ==> h.game.ship.0
            == crate::arith::clamp_int(row + 1, SHIP_TOP as int, SHIP_ROW as int)
    }
    &&& (key == Key::Char(' ') || key == Key::Char('f')) ==> gun_fired(g.game, h.game) && h.paused == g.paused
    &&& key == Key::Char('m') ==> salvo_fired(g.game, h.game) && h.paused == g.paused
    &&& key == Key::Char('b') ==> bomb_dropped(g.game, h.game) && h.paused == g.paused
    &&& key == Key::Char('x') ==> special_used(g.game, h.game) && h.paused == g.paused
    &&& key == Key::Char('p') ==> h.paused == !g.paused && h.game == g.game
    &&& (key == Key::Left || key == Key::Char('h')) ==> ship_moved(g.game, -1i16, 0i16, h.game)
    &&& (key == Key::Right || key == Key::Char('l')) ==> ship_moved(g.game, 1i16, 0i16, h.game)
    &&& (key == Key::Up || key == Key::Char('k')) ==> ship_moved(g.game, 0i16, -1i16, h.game)
    &&& (key == Key::Down || key == Key::Char('j')) ==> ship_moved(g.game, 0i16, 1i16, h.game)
    &&& key == Key::Char('[') ==> racks_turned(g.game, -1i32, h.game)
    &&& key == Key::Char(']') ==> racks_turned(g.game, 1i32, h.game)
    &&& key == Key::Char('1') ==> gun_picked(g.game, 0usize, h.game)
    &&& key == Key::Char('2') ==> gun_picked(g.game, 1usize, h.game)
    &&& key == Key::Char('3') ==> gun_picked(g.game, 2usize, h.game)
    &&& key == Key::Char('4') ==> gun_picked(g.game, 3usize, h.game)
    &&& key == Key::Char('5') ==> gun_picked(g.game, 4usize, h.game)
    &&& key == Key::Char('6') ==> gun_picked(g.game, 5usize, h.game)
    &&& key == Key::Char('7') ==> gun_picked(g.game, 6usize, h.game)
    &&& key == Key::Char('8') ==> gun_picked(g.game, 7usize, h.game)
    &&& key == Key::Char('9') ==> gun_picked(g.game, 8usize, h.game)
    &&& key == Key::Char('0') ==> gun_picked(g.game, 9usize, h.game)
}

/// What a key does by the game's state: on the picker, the chart, in the
/// hangar, or in the round.
pub open spec fn keyed(g: Nova, key: Key, h: Nova) -> bool {
    match g.game.status {
        Status::Select => picked(g, key, h),
        Status::Chart => charted_key(g, key, h),
        Status::Hangar => docked_key(g, key, h),
        _ => flown_key(g, key, h),
    }
}

/// `n` with its clock started at `now`, when it runs and has none yet.
pub open spec fn clocked(n: Nova, now: u64) -> Nova {
    if n.live() && n.last is None { Nova { last: Some(now), ..n } } else { n }
}

impl Nova {
    /// The picker, seeded with one, on the X-wing at the first difficulty and
    /// galaxy, ticking every seventy milliseconds.
    pub fn new() -> (r: Nova)
        ensures
            r.game.wf(),
            r.game.status == Status::Select,
            r.seed == 1,
            r.pick == 1,
            r.diff == 0,
            r.gal == 0,
            !r.paused,
            r.last is None,
            r.interval == 70,
            r.frames == 0,
            !r.roster,
            r.view == ViewMode::TopDown,
    {
        Nova {
            game: Game::new(1),
            seed: 1,
            pick: 1,
            diff: 0,
            gal: 0,
            paused: false,
            last: None,
            interval: 70,
            frames: 0,
            roster: false,
            view: ViewMode::TopDown,
        }
    }

    /// Back to the hull picker with a fresh seed.
    pub fn restart(&mut self)
        ensures
            final(self).game.wf(),
            restarted(*old(self), *final(self)),
    {
        self.seed = self.seed.wrapping_add(1);
        self.game = Game::new(self.seed);
        self.paused = false;
        self.last = None;
    }

    /// Straight back into a round with the same hull, difficulty and galaxy.
    pub fn retry(&mut self)
        ensures
            final(self).game.wf(),
            retried(*old(self), *final(self)),
    {
        let class = self.game.class;
        let difficulty = self.game.difficulty;
        let galaxy = self.game.galaxy;
        self.restart();
        let ghost fresh = self.game;
        self.game.start(class, difficulty, galaxy);
        assert(fresh_game(self.seed, fresh) && started(fresh, class, difficulty, galaxy, self.game));
    }

    /// Launch the highlighted hull at the highlighted difficulty, into the
    /// highlighted galaxy.
    pub fn launch(&mut self)
        requires
            old(self).game.wf(),
            old(self).pick < 5,
            old(self).diff < 3,
            old(self).gal < 5,
        ensures
            final(self).game.wf(),
            launched_run(*old(self), *final(self)),
    {
        let class = ShipClass::ALL[self.pick];
        let difficulty = Difficulty::ALL[self.diff];
        let galaxy = Galaxy::ALL[self.gal];
        self.game.start(class, difficulty, galaxy);
    }

    /// Running: a live round or the cleared-wave pause, not paused, and not
    /// sitting with the roster up.
    pub fn running(&self) -> (r: bool)
        ensures
            r == ((self.game.status == Status::Playing || self.game.status == Status::WaveClear)
                && !self.paused && !self.roster),
    {
        (self.game.status == Status::Playing || self.game.status == Status::WaveClear) && !self.paused
            && !self.roster
    }
}

impl Nova {
    /// The overlay's own shape: a sound game and highlights on the picker's
    /// lists.
    pub open spec fn wf(&self) -> bool {
        self.game.wf() && self.pick < 5 && self.diff < 3 && self.gal < 5
    }

    /// A live round or the cleared-wave pause, not paused, roster down.
    pub open spec fn live(&self) -> bool {
        (self.game.status == Status::Playing || self.game.status == Status::WaveClear) && !self.paused && !self.roster
    }

    /// The clock at `now` milliseconds: while running, a tick is taken once
    /// an interval has passed since the last one, and the first call starts
    /// the clock.
    pub fn pace(&mut self, now: u64)
        requires
            old(self).wf(),
        ensures
            final(self).wf(),
            !old(self).live() ==> final(self).game == old(self).game && final(self).last == old(self).last,
            old(self).live() ==> match old(self).last {
                None => final(self).last == Some(now) && final(self).game == old(self).game,
                Some(t) => if now >= t && now - t >= old(self).interval {
                    final(self).last == Some(now) && stepped(old(self).game, final(self).game)
                } else {
                    final(self).last == old(self).last && final(self).game == old(self).game
                },
            },
    {
        if self.running() {
            match self.last {
                Some(t) => {
                    if now >= t && now - t >= self.interval {
                        self.game.step();
                        self.last = Some(now);
                    }
                },
                None => {
                    self.last = Some(now);
                },
            }
        }
    }

    /// A key on the hull picker.
    fn select_key(&mut self, key: Key)
        requires
            old(self).wf(),
        ensures
            final(self).wf(),
            picked(*old(self), key, *final(self)),
    {
        match key {
            Key::Left | Key::Char('h') => self.pick = (self.pick + 4) % 5,
            Key::Right | Key::Char('l') => self.pick = (self.pick + 1) % 5,
            Key::Char('d') | Key::Tab => self.diff = (self.diff + 1) % 3,
            Key::Char('g') => self.gal = (self.gal + 1) % 5,
            Key::Char('m') => {
                let class = ShipClass::ALL[self.pick];
                let difficulty = Difficulty::ALL[self.diff];
                self.game.start_campaign(class, difficulty);
            },
            Key::Char('1') => {
                self.pick = 0;
                self.launch();
            },
            Key::Char('2') => {
                self.pick = 1;
                self.launch();
            },
            Key::Char('3') => {
                self.pick = 2;
                self.launch();
            },
            Key::Char('4') => {
                self.pick = 3;
                self.launch();
            },
            Key::Char('5') => {
                self.pick = 4;
                self.launch();
            },
            Key::Enter | Key::Char(' ') => self.launch(),
            _ => {},
        }
    }

    /// A key on the star chart.
    fn chart_key(&mut self, key: Key)
        requires
            old(self).wf(),
        ensures
            final(self).wf(),
            charted_key(*old(self), key, *final(self)),
    {
        match key {
            Key::Left | Key::Char('h') => self.game.steer_chart(-1, 0),
            Key::Right | Key::Char('l') => self.game.steer_chart(1, 0),
            Key::Up | Key::Char('k') => self.game.steer_chart(0, -1),
            Key::Down | Key::Char('j') => self.game.steer_chart(0, 1),
            Key::Tab => self.game.move_cursor(1),
            Key::Enter | Key::Char(' ') => {
                if self.game.wave < 50_000_000 {
                    self.game.jump();
                }
            },
            Key::Char('n') => self.restart(),
            _ => {},
        }
    }

    /// A key in the hangar.
    fn hangar_key(&mut self, key: Key)
        requires
            old(self).wf(),
        ensures
            final(self).wf(),
            docked_key(*old(self), key, *final(self)),
    {
        match key {
            Key::Enter => {
                if self.game.mission.is_some() {
                    if self.game.campaign_at < usize::MAX {
                        let next = self.game.campaign_at + 1;
                        self.game.fly_mission(next);
                    }
                } else {
                    self.game.open_chart();
                }
            },
            Key::Char('w') => {
                self.game.cycle_active();
            },
            Key::Char('n') => self.restart(),
            Key::Char(c) => {
                self.game.buy(c);
            },
            _ => {},
        }
    }

    /// A key in flight.
    #[verifier::rlimit(80)]
    fn flight_key(&mut self, key: Key)
        requires
            old(self).wf(),
        ensures
            final(self).wf(),
            flown_key(*old(self), key, *final(self)),
    {
        match key {
            Key::Left | Key::Char('h') => self.game.move_ship(-1, 0),
            Key::Right | Key::Char('l') => self.game.move_ship(1, 0),
            Key::Up | Key::Char('k') => self.game.move_ship(0, -1),
            Key::Down | Key::Char('j') => self.game.move_ship(0, 1),
            Key::Char(' ') | Key::Char('f') => self.game.fire(),
            Key::Char('m') => self.game.fire_missiles(),
            Key::Char('[') => self.game.cycle_weapon(-1),
            Key::Char(']') => self.game.cycle_weapon(1),
            Key::Char('1') => {
                self.game.select_weapon(0);
            },
            Key::Char('2') => {
                self.game.select_weapon(1);
            },
            Key::Char('3') => {
                self.game.select_weapon(2);
            },
            Key::Char('4') => {
                self.game.select_weapon(3);
            },
            Key::Char('5') => {
                self.game.select_weapon(4);
            },
            Key::Char('6') => {
                self.game.select_weapon(5);
            },
            Key::Char('7') => {
                self.game.select_weapon(6);
            },
            Key::Char('8') => {
                self.game.select_weapon(7);
            },
            Key::Char('9') => {
                self.game.select_weapon(8);
            },
            Key::Char('0') => {
                self.game.select_weapon(9);
            },
            Key::Char('x') => self.game.special(),
            Key::Char('z') => {
                self.game.divert(System::Lasers);
            },
            Key::Char('c') => {
                self.game.divert(System::Shields);
            },
            Key::Char('v') => {
                self.game.divert(System::Engines);
            },
            Key::Char('e') => {
                self.game.use_force(ForcePower::Sense);
            },
            Key::Char('y') => {
                self.game.use_force(ForcePower::Pull);
            },
            Key::Char('u') => {
                self.game.use_force(ForcePower::Guided);
            },
            Key::Char('b') => self.game.bomb(),
            Key::Char('p') => self.paused = !self.paused,
            Key::Char('r') => self.retry(),
            Key::Char('n') => self.restart(),
            _ => {},
        }
    }

    /// Read one key at `now` milliseconds: quit, swap the view, open or
    /// close the roster, or act by the game's state (pick and launch a hull;
    /// steer the chart and jump; buy in the hangar; fly, fire and steer the
    /// round). Whether the overlay closes.
    pub fn handle_key(&mut self, key: Key, now: u64) -> (close: bool)
        requires
            old(self).wf(),
        ensures
            final(self).wf(),
            close == (key == Key::Char('q') || key == Key::Esc || key == Key::Ctrl('c')),
            close ==> *final(self) == *old(self),
            !close && key == Key::Char('o') ==> *final(self) == (Nova {
                view: if old(self).view == ViewMode::TopDown { ViewMode::Cockpit } else { ViewMode::TopDown },
                ..*old(self)
            }),
            !close && key == Key::Char('t') ==> ({
                let n = Nova { roster: !old(self).roster, ..*old(self) };
                *final(self) == if n.live() { Nova { last: Some(now), ..n } } else { n }
            }),
            !close && key != Key::Char('o') && key != Key::Char('t') && old(self).roster ==> *final(self)
                == (Nova { roster: !(key == Key::Enter || key == Key::Char(' ')), ..*old(self) }),
            !close && key != Key::Char('o') && key != Key::Char('t') && !old(self).roster ==> exists|mid: Nova|
                #[trigger] keyed(*old(self), key, mid) && *final(self) == clocked(mid, now),
    {
        if key == Key::Char('q') || key == Key::Esc || key == Key::Ctrl('c') {
            return true;
        }
        if key == Key::Char('o') {
            self.view = match self.view {
                ViewMode::TopDown => ViewMode::Cockpit,
                ViewMode::Cockpit => ViewMode::TopDown,
            };
            return false;
        }
        if key == Key::Char('t') {
            self.roster = !self.roster;
            if self.running() {
                self.last = Some(now);
            }
            return false;
        }
        if self.roster {
            if key == Key::Enter || key == Key::Char(' ') {
                self.roster = false;
            }
            return false;
        }
        match self.game.status {
            Status::Select => self.select_key(key),
            Status::Chart => self.chart_key(key),
            Status::Hangar => self.hangar_key(key),
            _ => self.flight_key(key),
        }
        let ghost mid = *self;
        assert(keyed(*old(self), key, mid));
        if self.running() && self.last.is_none() {
            self.last = Some(now);
        }
        assert(*self == clocked(mid, now));
        false
    }
}

/// What a frame of the overlay draws.
#[derive(Clone, Copy, PartialEq, Eq, Debug, Structural)]
pub enum Screen {
    /// The squadron roster, over everything else.
    Roster,
    /// The pause card over a round.
    Pause,
    /// The round seen out of the canopy.
    Cockpit,
    /// The hull picker.
    Select,
    /// The hangar between waves.
    Hangar,
    /// The galaxy chart.
    Chart,
    /// A note that the window is too small for the court.
    TooSmall,
    /// The court seen from above, with its head-up lines.
    Court,
}

/// The window on the court: how many columns and rows of it show, and the
/// court cell at its top-left corner.
#[derive(Clone, Copy, PartialEq, Eq, Debug, Structural)]
pub struct Camera {
    pub view_w: i16,
    pub view_h: i16,
    pub cam_x: i16,
    pub cam_y: i16,
}

/// A round is on: being played, or between waves.
pub open spec fn in_round(status: Status) -> bool {
    status == Status::Playing || status == Status::WaveClear
}

/// The screen a frame of `width` × `height` cells draws: the roster over
/// everything, then the pause card or the cockpit over a round, then the
/// picker, hangar or chart, then the court when it fits.
pub open spec fn screen_of(roster: bool, paused: bool, view: ViewMode, status: Status, width: u16, height: u16) -> Screen {
    if roster {
        Screen::Roster
    } else if paused && in_round(status) {
        Screen::Pause
    } else if view == ViewMode::Cockpit && in_round(status) {
        Screen::Cockpit
    } else if status == Status::Select {
        Screen::Select
    } else if status == Status::Hangar {
        Screen::Hangar
    } else if status == Status::Chart {
        Screen::Chart
    } else if width < 24 || height < 16 {
        Screen::TooSmall
    } else {
        Screen::Court
    }
}

/// `x` kept inside `lo..=hi`.
pub open spec fn clamped(x: int, lo: int, hi: int) -> int {
    if x < lo { lo } else if x > hi { hi } else { x }
}

/// A window dimension read as a signed 16-bit number, the way the drawing
/// code reads it.
pub open spec fn signed16(n: u16) -> int {
    if n < 0x8000 { n as int } else { n - 0x10000 }
}

/// How many columns of the court a window `width` wide shows: all but four,
/// between 20 and the court's width.
pub open spec fn span_w(width: u16) -> int {
    clamped(signed16(width) - 4, 20, W as int)
}

/// How many rows of the court a window `height` high shows: all but seven,
/// between 10 and the court's height.
pub open spec fn span_h(height: u16) -> int {
    clamped(signed16(height) - 7, 10, H as int)
}

/// The camera for a window of `width` × `height` cells with the hull at
/// `ship` (row, column): centred on the hull as far as the court allows.
pub open spec fn camera_of(width: u16, height: u16, ship: (i16, i16)) -> Camera {
    let vw = span_w(width);
    let vh = span_h(height);
    Camera {
        view_w: vw as i16,
        view_h: vh as i16,
        cam_x: clamped(ship.1 - vw / 2, 0, W - vw) as i16,
        cam_y: clamped(ship.0 - vh / 2, 0, H - vh) as i16,
    }
}

/// The camera sits inside the court, and a hull on the court is always in
/// its view.
pub proof fn hull_in_view(width: u16, height: u16, ship: (i16, i16))
    requires
        0 <= ship.0 < H,
        0 <= ship.1 < W,
    ensures
        ({
            let c = camera_of(width, height, ship);
            &&& 0 <= c.cam_x && c.cam_x + c.view_w <= W
            &&& 0 <= c.cam_y && c.cam_y + c.view_h <= H
            &&& c.cam_x <= ship.1 < c.cam_x + c.view_w
            &&& c.cam_y <= ship.0 < c.cam_y + c.view_h
        }),
{
}

/// `x` kept inside `lo..=hi`, for `lo <= hi`.
fn clamp_i32(x: i32, lo: i32, hi: i32) -> (r: i32)
    requires
        lo <= hi,
    ensures
        r == clamped(x as int, lo as int, hi as int),
{
    if x < lo {
        lo
    } else if x > hi {
        hi
    } else {
        x
    }
}

/// A window dimension as a signed 16-bit number.
fn signed(n: u16) -> (r: i32)
    ensures
        r == signed16(n),
{
    if n < 0x8000 { n as i32 } else { n as i32 - 0x10000 }
}

impl Nova {
    /// The screen a frame of `width` × `height` cells draws.
    pub fn screen(&self, width: u16, height: u16) -> (r: Screen)
        ensures
            r == screen_of(self.roster, self.paused, self.view, self.game.status, width, height),
    {
        let round = self.game.status == Status::Playing || self.game.status == Status::WaveClear;
        if self.roster {
            Screen::Roster
        } else if self.paused && round {
            Screen::Pause
        } else if self.view == ViewMode::Cockpit && round {
            Screen::Cockpit
        } else {
            match self.game.status {
                Status::Select => Screen::Select,
                Status::Hangar => Screen::Hangar,
                Status::Chart => Screen::Chart,
                _ => if width < 24 || height < 16 {
                    Screen::TooSmall
                } else {
                    Screen::Court
                },
            }
        }
    }

    /// Count a drawn frame; the count wraps.
    pub fn count_frame(&mut self)
        ensures
            final(self).frames == (if old(self).frames == u64::MAX { 0 } else { old(self).frames + 1 }),
            final(self).game == old(self).game,
            final(self).last == old(self).last,
            final(self).paused == old(self).paused,
            final(self).roster == old(self).roster,
            final(self).view == old(self).view,
            final(self).pick == old(self).pick && final(self).diff == old(self).diff && final(self).gal == old(self).gal,
            final(self).interval == old(self).interval && final(self).seed == old(self).seed,
    {
        self.frames = if self.frames == u64::MAX { 0 } else { self.frames + 1 };
    }

    /// The court's camera for a window of `width` × `height` cells. The
    /// window must not be so wide or high that reading it as a signed 16-bit
    /// number and taking the frame off overflows, nor the hull so far off the
    /// court that centring on it does.
    pub fn camera(&self, width: u16, height: u16) -> (r: Camera)
        requires
            signed16(width) - 4 >= i16::MIN,
            signed16(height) - 7 >= i16::MIN,
            self.game.ship.1 - span_w(width) / 2 >= i16::MIN,
            self.game.ship.0 - span_h(height) / 2 >= i16::MIN,
        ensures
            r == camera_of(width, height, self.game.ship),
    {
        let vw = clamp_i32(signed(width) - 4, 20, W as i32);
        let vh = clamp_i32(signed(height) - 7, 10, H as i32);
        let cam_x = clamp_i32(self.game.ship.1 as i32 - vw / 2, 0, W as i32 - vw);
        let cam_y = clamp_i32(self.game.ship.0 as i32 - vh / 2, 0, H as i32 - vh);
        Camera { view_w: vw as i16, view_h: vh as i16, cam_x: cam_x as i16, cam_y: cam_y as i16 }
    }
}

} // verus!
