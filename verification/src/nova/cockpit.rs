//! The view out of the canopy: how big the glass is in a window, where a
//! court cell ahead of the hull lands on it, and which contact the reticle
//! boxes.

use vstd::prelude::*;

use super::entities::Enemy;
use super::game::Game;
use super::view::{clamped, signed16};

verus! {

/// How many court rows ahead of the hull the cockpit sees.
pub const COCKPIT_DEPTH: i16 = 18;

/// The glass in a window: its size, the column the hull points at, and the
/// horizon row.
#[derive(Clone, Copy, PartialEq, Eq, Debug, Structural)]
pub struct Glass {
    pub w: i16,
    pub h: i16,
    pub centre_x: i16,
    pub horizon: i16,
}

/// The glass in a window of `width` × `height` cells: four columns and eight
/// rows go to the frame and the dash, and it stays within 20..=96 columns by
/// 8..=30 rows. The hull points at the middle column; the horizon sits a
/// third of the way down.
pub open spec fn glass_of(width: u16, height: u16) -> Glass {
    let w = clamped(signed16(width) - 4, 20, 96);
    let h = clamped(signed16(height) - 8, 8, 30);
    Glass { w: w as i16, h: h as i16, centre_x: (w / 2) as i16, horizon: (h / 3) as i16 }
}

/// A glass as windows make it.
pub open spec fn glass_ok(g: Glass) -> bool {
    &&& 20 <= g.w <= 96
    &&& 8 <= g.h <= 30
    &&& g.centre_x == g.w / 2
    &&& g.horizon == g.h / 3
}

/// The glass in a window of `width` × `height` cells. The window must not be
/// so wide or high that reading it as a signed 16-bit number and taking the
/// frame off overflows.
pub fn glass(width: u16, height: u16) -> (g: Glass)
    requires
        signed16(width) - 4 >= i16::MIN,
        signed16(height) - 8 >= i16::MIN,
    ensures
        g == glass_of(width, height),
        glass_ok(g),
{
    let sw: i32 = if width < 0x8000 { width as i32 } else { width as i32 - 0x10000 };
    let sh: i32 = if height < 0x8000 { height as i32 } else { height as i32 - 0x10000 };
    let w: i32 = if sw - 4 < 20 { 20 } else if sw - 4 > 96 { 96 } else { sw - 4 };
    let h: i32 = if sh - 8 < 8 { 8 } else if sh - 8 > 30 { 30 } else { sh - 8 };
    Glass { w: w as i16, h: h as i16, centre_x: (w / 2) as i16, horizon: (h / 3) as i16 }
}

/// `a / b` rounded toward zero, the way Rust divides signed numbers.
pub open spec fn toward_zero(a: int, b: int) -> int {
    if a >= 0 { a / b } else { -((-a) / b) }
}

/// Where the court cell at (`row`, `col`) lands on the glass with the hull
/// at `ship` (row, column): nowhere unless it lies ahead of the hull by less
/// than the cockpit's depth; otherwise the nearer it is, the lower it sits
/// and the farther from the middle column it spreads. Gives the column, the
/// row, and how far ahead the cell is.
pub open spec fn projected(g: Glass, ship: (i16, i16), row: int, col: int) -> Option<(int, int, int)> {
    let depth = ship.0 - row;
    if 0 <= depth < COCKPIT_DEPTH {
        let near = COCKPIT_DEPTH - depth;
        Some((
            g.centre_x + toward_zero((col - ship.1) * near, (COCKPIT_DEPTH / 3) as int),
            g.horizon + (near * (g.h - g.horizon - 2)) / (COCKPIT_DEPTH as int),
            depth,
        ))
    } else {
        None
    }
}

/// A cell's projection stays within 16-bit numbers: the cell is not so far
/// to the side that spreading it overflows.
pub open spec fn projects_in_range(g: Glass, ship: (i16, i16), row: i16, col: i16) -> bool {
    let depth = ship.0 - row;
    &&& i16::MIN <= depth <= i16::MAX
    &&& (0 <= depth < COCKPIT_DEPTH ==> {
        let near = COCKPIT_DEPTH - depth;
        &&& i16::MIN <= col - ship.1 <= i16::MAX
        &&& i16::MIN <= (col - ship.1) * near <= i16::MAX
        &&& i16::MIN <= g.centre_x + toward_zero((col - ship.1) * near, (COCKPIT_DEPTH / 3) as int) <= i16::MAX
    })
}

/// Where the court cell at (`row`, `col`) lands on the glass.
pub fn project(g: Glass, ship: (i16, i16), row: i16, col: i16) -> (r: Option<(i16, i16, i16)>)
    requires
        glass_ok(g),
        projects_in_range(g, ship, row, col),
    ensures
        match r {
            Some((x, y, d)) => projected(g, ship, row as int, col as int) == Some((x as int, y as int, d as int)),
            None => projected(g, ship, row as int, col as int) is None,
        },
{
    let depth = ship.0 - row;
    if depth < 0 || depth >= COCKPIT_DEPTH {
        return None;
    }
    let near = COCKPIT_DEPTH - depth;
    let spread: i16 = if COCKPIT_DEPTH / 3 > 1 { COCKPIT_DEPTH / 3 } else { 1 };
    let off = col - ship.1;
    let x = g.centre_x + off * near / spread;
    proof {
        on_glass_rows(g, ship, row as int, col as int);
    }
    let y = g.horizon + (near * (g.h - g.horizon - 2)) / COCKPIT_DEPTH;
    Some((x, y, depth))
}

/// Everything the cockpit shows lands on the glass's rows, between the
/// horizon and the row above the dash, and lies ahead by less than the
/// cockpit's depth.
pub proof fn on_glass_rows(g: Glass, ship: (i16, i16), row: int, col: int)
    requires
        glass_ok(g),
    ensures
        projected(g, ship, row, col) matches Some((x, y, d)) ==> g.horizon <= y <= g.h - 2 && 0 <= d < COCKPIT_DEPTH,
{
    let depth = ship.0 - row;
    if 0 <= depth < COCKPIT_DEPTH {
        let near = COCKPIT_DEPTH - depth;
        let k = g.h - g.horizon - 2;
        assert(k >= 2);
        assert(0 <= (near * k) / 18 <= k) by (nonlinear_arith)
            requires
                1 <= near <= 18,
                k >= 2,
        ;
    }
}

/// A cell straight ahead of the hull lands on the glass's middle column.
pub proof fn dead_ahead_is_centred(g: Glass, ship: (i16, i16), row: int)
    ensures
        projected(g, ship, row, ship.1 as int) matches Some((x, y, d)) ==> x == g.centre_x,
{
}

/// A contact the reticle can box: ahead of the hull and at most three
/// columns to either side of it.
pub open spec fn in_sights(e: Enemy, ship: (i16, i16)) -> bool {
    e.pos.0 < ship.0 && -3 <= e.pos.1 - ship.1 <= 3
}

/// Contact `i` is the one the reticle boxes: in its sights, none nearer,
/// and the first of those as near.
pub open spec fn boxed(es: Seq<Enemy>, ship: (i16, i16), i: int) -> bool {
    &&& 0 <= i < es.len()
    &&& in_sights(es[i], ship)
    &&& forall|j: int| 0 <= j < es.len() && in_sights(#[trigger] es[j], ship) ==> es[j].pos.0 <= es[i].pos.0
    &&& forall|j: int| 0 <= j < i && in_sights(#[trigger] es[j], ship) ==> es[j].pos.0 < es[i].pos.0
}

impl Game {
    /// The contact the reticle boxes, if any is in its sights: the nearest
    /// one ahead, the first of equals. Every contact's column must differ
    /// from the hull's by a 16-bit number other than the least, and every
    /// contact ahead must be within 16-bit reach.
    pub fn cockpit_target(&self) -> (r: Option<usize>)
        requires
            forall|k: int| 0 <= k < self.enemies@.len() ==> {
                let e = #[trigger] self.enemies@[k];
                &&& i16::MIN < e.pos.1 - self.ship.1 <= i16::MAX
                &&& (e.pos.0 < self.ship.0 ==> self.ship.0 - e.pos.0 <= i16::MAX)
            },
        ensures
            match r {
                Some(i) => boxed(self.enemies@, self.ship, i as int),
                None => forall|j: int| 0 <= j < self.enemies@.len() ==> !in_sights(#[trigger] self.enemies@[j], self.ship),
            },
    {
        let mut best: Option<usize> = None;
        let mut i: usize = 0;
        while i < self.enemies.len()
            invariant
                i <= self.enemies@.len(),
                forall|k: int| 0 <= k < self.enemies@.len() ==> {
                    let e = #[trigger] self.enemies@[k];
                    &&& i16::MIN < e.pos.1 - self.ship.1 <= i16::MAX
                    &&& (e.pos.0 < self.ship.0 ==> self.ship.0 - e.pos.0 <= i16::MAX)
                },
                match best {
                    Some(b) => b < i && boxed(self.enemies@.take(i as int), self.ship, b as int),
                    None => forall|j: int| 0 <= j < i ==> !in_sights(#[trigger] self.enemies@[j], self.ship),
                },
            decreases self.enemies@.len() - i,
        {
            let e = &self.enemies[i];
            let ghost es = self.enemies@;
            assert(es.take(i + 1)[i as int] == es[i as int]);
            if e.pos.0 < self.ship.0 {
                let side = e.pos.1 - self.ship.1;
                if -3 <= side && side <= 3 {
                    match best {
                        Some(b) => {
                            if e.pos.0 > self.enemies[b].pos.0 {
                                best = Some(i);
                            }
                        },
                        None => {
                            best = Some(i);
                        },
                    }
                }
            }
            proof {
                let t = es.take(i + 1);
                assert forall|j: int| 0 <= j < i implies #[trigger] t[j] == es.take(i as int)[j] by {}
                match best {
                    Some(b) => {
                        assert(boxed(t, self.ship, b as int));
                    },
                    None => {},
                }
            }
            i = i + 1;
        }
        proof {
            assert(self.enemies@.take(i as int) =~= self.enemies@);
        }
        best
    }
}

} // verus!
