//! The wave bosses: a wide hull sweeping the top of the court, escalating
//! through three attack phases as its armour burns off.

use vstd::prelude::*;

use super::consts::{FORMATION_TOP, SERPENT_SEGMENTS, SERPENT_WAVE, W};
use super::kinds::BossKind;
use crate::arith::{add16, clamp_int};

verus! {

/// A destructible piece of a boss: a turret, a launch bay or a body segment.
#[derive(Clone, Copy, Debug)]
pub struct BossPart {
    /// Offset from the boss anchor; the serpent recomputes its own as it swims.
    pub offset: (i16, i16),
    pub hp: i32,
    pub max_hp: i32,
}

impl BossPart {
    /// A fresh part at `offset` with `hp` to burn.
    pub fn new(offset: (i16, i16), hp: i32) -> (r: BossPart)
        ensures
            r == (BossPart { offset, hp, max_hp: hp }),
    {
        BossPart { offset, hp, max_hp: hp }
    }
}

/// The wave boss: a wide hull that sweeps the top of the court and escalates
/// through three attack phases as its armour burns off.
#[derive(Debug)]
pub struct Boss {
    pub kind: BossKind,
    pub pos: (i16, i16),
    pub hp: i32,
    pub max_hp: i32,
    pub dir: i16,
    pub parts: Vec<BossPart>,
    pub cooldown: u32,
    pub minion_timer: u32,
    pub tick: u32,
}

/// The phase a boss is in for the hull it has left: `1` above two thirds,
/// `2` from there down to a third, `3` once enraged below a third.
pub open spec fn phase_of(hp: int, max_hp: int) -> u8 {
    let h = if hp > 0 { hp } else { 0 };
    let m = if max_hp > 1 { max_hp } else { 1 };
    if 3 * h > 2 * m {
        1
    } else if 3 * h >= m {
        2
    } else {
        3
    }
}

impl Clone for Boss {
    fn clone(&self) -> (r: Self)
        ensures
            r.kind == self.kind,
            r.pos == self.pos,
            r.hp == self.hp,
            r.max_hp == self.max_hp,
            r.dir == self.dir,
            r.parts@ == self.parts@,
            r.cooldown == self.cooldown,
            r.minion_timer == self.minion_timer,
            r.tick == self.tick,
    {
        Boss {
            kind: self.kind,
            pos: self.pos,
            hp: self.hp,
            max_hp: self.max_hp,
            dir: self.dir,
            parts: self.parts.clone(),
            cooldown: self.cooldown,
            minion_timer: self.minion_timer,
            tick: self.tick,
        }
    }
}

impl Boss {
    /// The parts a boss of `kind` is built with, for `hp` of hull.
    pub open spec fn spec_parts(kind: BossKind, hp: i32) -> Seq<BossPart> {
        match kind {
            BossKind::Dreadnought => seq![],
            BossKind::Twin => seq![
                BossPart { offset: (0i16, -6i16), hp: crate::arith::quot(hp as int, 3) as i32, max_hp: crate::arith::quot(hp as int, 3) as i32 },
                BossPart { offset: (0i16, 6i16), hp: crate::arith::quot(hp as int, 3) as i32, max_hp: crate::arith::quot(hp as int, 3) as i32 },
            ],
            BossKind::Carrier => seq![
                BossPart { offset: (1i16, -5i16), hp: crate::arith::quot(hp as int, 4) as i32, max_hp: crate::arith::quot(hp as int, 4) as i32 },
                BossPart { offset: (1i16, 5i16), hp: crate::arith::quot(hp as int, 4) as i32, max_hp: crate::arith::quot(hp as int, 4) as i32 },
            ],
            BossKind::AceTie => seq![],
            BossKind::Serpent => Seq::new(
                SERPENT_SEGMENTS as nat,
                |i: int| BossPart { offset: (0i16, (-(i + 1) * 2) as i16), hp: crate::arith::quot(hp as int, 6) as i32, max_hp: crate::arith::quot(hp as int, 6) as i32 },
            ),
        }
    }

    /// A fresh boss of `kind` with `hp` of hull, anchored at the top centre.
    pub fn new(kind: BossKind, hp: i32) -> (r: Boss)
        ensures
            r.kind == kind,
            r.pos == (FORMATION_TOP, (W / 2) as i16),
            r.hp == hp,
            r.max_hp == hp,
            r.dir == 1,
            r.parts@ == Boss::spec_parts(kind, hp),
            r.cooldown == 20,
            r.minion_timer == 90,
            r.tick == 0,
    {
        let parts = match kind {
            BossKind::Dreadnought => Vec::new(),
            BossKind::Twin => {
                let third = crate::arith::quot32(hp, 3);
                vec![BossPart::new((0, -6), third), BossPart::new((0, 6), third)]
            },
            BossKind::Carrier => {
                let quarter = crate::arith::quot32(hp, 4);
                vec![BossPart::new((1, -5), quarter), BossPart::new((1, 5), quarter)]
            },
            BossKind::AceTie => Vec::new(),
            BossKind::Serpent => {
                let mut v: Vec<BossPart> = Vec::new();
                let mut i: usize = 0;
                while i < SERPENT_SEGMENTS
                    invariant
                        i <= SERPENT_SEGMENTS,
                        v@ == Boss::spec_parts(kind, hp).subrange(0, i as int),
                        kind == BossKind::Serpent,
                    decreases SERPENT_SEGMENTS - i,
                {
                    let off: i16 = -2 * (i as i16) - 2;
                    let part = BossPart::new((0, off), crate::arith::quot32(hp, 6));
                    assert(off as int == -(i + 1) * 2);
                    assert(part.offset == (0i16, (-(i + 1) * 2) as i16));
                    assert(part.hp == crate::arith::quot(hp as int, 6) as i32);
                    assert(part == Boss::spec_parts(kind, hp)[i as int]);
                    v.push(part);
                    assert(v@ =~= Boss::spec_parts(kind, hp).subrange(0, i + 1));
                    i = i + 1;
                }
                assert(v@ =~= Boss::spec_parts(kind, hp));
                v
            },
        };
        Boss {
            kind,
            pos: (FORMATION_TOP, W / 2),
            hp,
            max_hp: hp,
            dir: 1,
            parts,
            cooldown: 20,
            minion_timer: 90,
            tick: 0,
        }
    }

    pub open spec fn spec_phase(&self) -> u8 {
        phase_of(self.hp as int, self.max_hp as int)
    }

    /// `1` above two thirds health, `2` down to a third, `3` once enraged.
    #[verifier::when_used_as_spec(spec_phase)]
    pub fn phase(&self) -> (r: u8)
        ensures
            r == self.spec_phase(),
    {
        let h: i64 = if self.hp > 0 { self.hp as i64 } else { 0 };
        let m: i64 = if self.max_hp > 1 { self.max_hp as i64 } else { 1 };
        if 3 * h > 2 * m {
            1
        } else if 3 * h >= m {
            2
        } else {
            3
        }
    }

    pub open spec fn spec_armoured(&self) -> bool {
        self.kind == BossKind::Twin && self.parts@.len() > 0
    }

    /// The twin's core cannot be touched while either turret still stands.
    #[verifier::when_used_as_spec(spec_armoured)]
    pub fn armoured(&self) -> (r: bool)
        ensures
            r == self.spec_armoured(),
    {
        self.kind == BossKind::Twin && !self.parts.is_empty()
    }

    /// Where part `index` sits relative to the anchor.
    pub open spec fn spec_part_offset(&self, index: int, part: BossPart) -> (int, int) {
        match self.kind {
            BossKind::Serpent => {
                let phase = (self.tick / 2 + index * 2) % 8;
                (SERPENT_WAVE[phase] as int, -self.dir * (index + 1) * 2)
            },
            _ => (part.offset.0 as int, part.offset.1 as int),
        }
    }

    /// Where a part sits relative to the anchor. The serpent's body swims, so
    /// its offsets come from the tick rather than the part. A boss carries a
    /// dozen parts at most; the bound on the index, far above that, keeps the
    /// serpent's offset arithmetic inside `i16`.
    pub fn part_offset(&self, index: usize, part: &BossPart) -> (r: (i16, i16))
        requires
            index < 1000,
        ensures
            r.0 == clamp_int(self.spec_part_offset(index as int, *part).0, i16::MIN as int, i16::MAX as int),
            r.1 == clamp_int(self.spec_part_offset(index as int, *part).1, i16::MIN as int, i16::MAX as int),
    {
        match self.kind {
            BossKind::Serpent => {
                let phase = (((self.tick / 2) as u64 + index as u64 * 2) % 8) as usize;
                let k = index as i64 + 1;
                assert(-32768 * 1001 <= self.dir * k <= 32768 * 1001) by (nonlinear_arith)
                    requires
                        -32768 <= self.dir <= 32767,
                        1 <= k <= 1001,
                ;
                let prod: i64 = (self.dir as i64) * k;
                let d = -prod * 2;
                assert(d == -self.dir * (index + 1) * 2) by (nonlinear_arith)
                    requires
                        prod == self.dir * k,
                        k == index + 1,
                        d == -prod * 2,
                ;
                (SERPENT_WAVE[phase], crate::arith::fit16w(d))
            },
            _ => part.offset,
        }
    }

    /// The board cell of part `i`, as `part_cells` reports it.
    pub open spec fn spec_cell(&self, i: int) -> (i16, i16) {
        let off = self.spec_part_offset(i, self.parts@[i]);
        let o0 = clamp_int(off.0, i16::MIN as int, i16::MAX as int);
        let o1 = clamp_int(off.1, i16::MIN as int, i16::MAX as int);
        (
            clamp_int(self.pos.0 + o0, i16::MIN as int, i16::MAX as int) as i16,
            clamp_int(self.pos.1 + o1, i16::MIN as int, i16::MAX as int) as i16,
        )
    }

    /// Every live part's cell on the board, in part order. The bound on the
    /// parts, far above the dozen a boss carries, keeps each index in range
    /// of `part_offset`.
    pub fn part_cells(&self) -> (r: Vec<(i16, i16)>)
        requires
            self.parts@.len() < 1000,
        ensures
            r@.len() == self.parts@.len(),
            forall|i: int| 0 <= i < r@.len() ==> #[trigger] r@[i] == self.spec_cell(i),
    {
        let mut out: Vec<(i16, i16)> = Vec::new();
        let mut i: usize = 0;
        while i < self.parts.len()
            invariant
                i <= self.parts@.len() < 1000,
                out@.len() == i,
                forall|j: int| 0 <= j < i ==> #[trigger] out@[j] == self.spec_cell(j),
            decreases self.parts@.len() - i,
        {
            let off = self.part_offset(i, &self.parts[i]);
            out.push((add16(self.pos.0, off.0), add16(self.pos.1, off.1)));
            i = i + 1;
        }
        out
    }

    pub open spec fn spec_speed(&self) -> i16 {
        let phase = self.spec_phase();
        match self.kind {
            BossKind::AceTie => if phase == 3 { 3 } else { 2 },
            BossKind::Serpent => if phase == 3 { 3 } else { 2 },
            BossKind::Carrier => 1,
            _ => if phase == 3 { 2 } else { 1 },
        }
    }

    /// Columns it sweeps per tick.
    #[verifier::when_used_as_spec(spec_speed)]
    pub fn speed(&self) -> (r: i16)
        ensures
            r == self.spec_speed(),
            1 <= r <= 3,
    {
        let phase = self.phase();
        match self.kind {
            BossKind::AceTie => if phase == 3 { 3 } else { 2 },
            BossKind::Serpent => if phase == 3 { 3 } else { 2 },
            BossKind::Carrier => 1,
            _ => if phase == 3 { 2 } else { 1 },
        }
    }

    pub open spec fn spec_cadence(&self) -> u32 {
        let phase = self.spec_phase();
        if phase == 1 {
            14
        } else if phase == 2 {
            10
        } else {
            6
        }
    }

    /// Ticks between its volleys.
    #[verifier::when_used_as_spec(spec_cadence)]
    pub fn cadence(&self) -> (r: u32)
        ensures
            r == self.spec_cadence(),
    {
        match self.phase() {
            1 => 14,
            2 => 10,
            _ => 6,
        }
    }
}

} // verus!
