//! The capital ships that hold a system: a wall of hull, the emplacements
//! bolted to it, and the order they have to come apart in.

use vstd::prelude::*;

use super::consts::W;
use super::kinds::{CapitalKind, Emplacement};
use crate::arith::{add16, clamp_int, abs_int};

verus! {

/// One emplacement bolted to a capital hull.
#[derive(Clone, Copy, Debug)]
pub struct CapitalPart {
    pub kind: Emplacement,
    /// Offset from the ship's anchor, as `(row, column)`.
    pub offset: (i16, i16),
    pub hp: i32,
    pub max_hp: i32,
    pub cooldown: u32,
    /// Ticks this emplacement is still ion-scrambled for.
    pub ion: u32,
}

/// An emplacement of `kind` thickened by `armour` keeps its hit points
/// within 32 bits.
pub open spec fn armour_fits(kind: Emplacement, armour: i32) -> bool {
    i32::MIN <= armour * 4 <= i32::MAX && i32::MIN <= kind.spec_hp() + armour * 4 <= i32::MAX
}

impl CapitalPart {
    /// A fresh emplacement of `kind` at `offset`, thickened by `armour`.
    pub fn new(kind: Emplacement, offset: (i16, i16), armour: i32) -> (r: CapitalPart)
        requires
            armour_fits(kind, armour),
        ensures
            r == (CapitalPart {
                kind,
                offset,
                hp: (kind.spec_hp() + armour * 4) as i32,
                max_hp: (kind.spec_hp() + armour * 4) as i32,
                cooldown: (kind.spec_hp() as u32 % 17 + 8) as u32,
                ion: 0,
            }),
    {
        let hp = kind.hp() + armour * 4;
        CapitalPart { kind, offset, hp, max_hp: hp, cooldown: kind.hp() as u32 % 17 + 8, ion: 0 }
    }

    pub open spec fn spec_live(&self) -> bool {
        self.ion == 0
    }

    /// A scrambled emplacement does nothing at all until it comes back.
    #[verifier::when_used_as_spec(spec_live)]
    pub fn live(&self) -> (r: bool)
        ensures
            r == self.spec_live(),
    {
        self.ion == 0
    }
}

/// A capital ship holding a system: a wall of hull, its emplacements, and the
/// order they have to come apart in.
#[derive(Debug)]
pub struct Capital {
    pub kind: CapitalKind,
    /// Anchor: the top row of the hull and the column it is centred on.
    pub pos: (i16, i16),
    pub hp: i32,
    pub max_hp: i32,
    pub dir: i16,
    pub parts: Vec<CapitalPart>,
    pub tick: u32,
}

impl Clone for Capital {
    fn clone(&self) -> (r: Self)
        ensures
            r.kind == self.kind,
            r.pos == self.pos,
            r.hp == self.hp,
            r.max_hp == self.max_hp,
            r.dir == self.dir,
            r.parts@ == self.parts@,
            r.tick == self.tick,
    {
        Capital {
            kind: self.kind,
            pos: self.pos,
            hp: self.hp,
            max_hp: self.max_hp,
            dir: self.dir,
            parts: self.parts.clone(),
            tick: self.tick,
        }
    }
}

/// The emplacements a capital of each kind is built with, in order, as
/// `(kind, row, column)` offsets from the anchor.
pub open spec fn layout(kind: CapitalKind) -> Seq<(Emplacement, i16, i16)> {
    match kind {
        CapitalKind::ImperialFrigate => seq![
            (Emplacement::ShieldDome, 1i16, 0i16),
            (Emplacement::Turbolaser, 2i16, -6i16),
            (Emplacement::Turbolaser, 2i16, 6i16),
            (Emplacement::HangarBay, 2i16, 0i16),
            (Emplacement::EngineBank, 0i16, -8i16),
        ],
        CapitalKind::StarDestroyer => seq![
            (Emplacement::CommandTower, 1i16, 0i16),
            (Emplacement::ShieldDome, 1i16, -3i16),
            (Emplacement::ShieldDome, 1i16, 3i16),
            (Emplacement::Turbolaser, 3i16, -9i16),
            (Emplacement::Turbolaser, 3i16, 9i16),
            (Emplacement::Turbolaser, 5i16, -14i16),
            (Emplacement::Turbolaser, 5i16, 14i16),
            (Emplacement::HangarBay, 5i16, -5i16),
            (Emplacement::HangarBay, 5i16, 5i16),
            (Emplacement::TractorBeam, 4i16, 0i16),
            (Emplacement::EngineBank, 0i16, -6i16),
            (Emplacement::EngineBank, 0i16, 6i16),
        ],
        CapitalKind::Interdictor => seq![
            (Emplacement::ShieldDome, 1i16, 0i16),
            (Emplacement::GravityProjector, 2i16, -7i16),
            (Emplacement::GravityProjector, 2i16, 7i16),
            (Emplacement::Turbolaser, 3i16, -4i16),
            (Emplacement::Turbolaser, 3i16, 4i16),
            (Emplacement::HangarBay, 4i16, 0i16),
            (Emplacement::EngineBank, 0i16, 0i16),
        ],
        CapitalKind::SuperDestroyer => seq![
            (Emplacement::CommandTower, 1i16, 0i16),
            (Emplacement::ShieldDome, 1i16, -4i16),
            (Emplacement::ShieldDome, 1i16, 4i16),
            (Emplacement::ShieldDome, 2i16, 0i16),
            (Emplacement::Turbolaser, 4i16, -12i16),
            (Emplacement::Turbolaser, 4i16, -6i16),
            (Emplacement::Turbolaser, 4i16, 6i16),
            (Emplacement::Turbolaser, 4i16, 12i16),
            (Emplacement::Turbolaser, 7i16, -20i16),
            (Emplacement::Turbolaser, 7i16, -10i16),
            (Emplacement::Turbolaser, 7i16, 10i16),
            (Emplacement::Turbolaser, 7i16, 20i16),
            (Emplacement::HangarBay, 8i16, -8i16),
            (Emplacement::HangarBay, 8i16, 0i16),
            (Emplacement::HangarBay, 8i16, 8i16),
            (Emplacement::TractorBeam, 6i16, -4i16),
            (Emplacement::TractorBeam, 6i16, 4i16),
            (Emplacement::EngineBank, 0i16, -8i16),
            (Emplacement::EngineBank, 0i16, 0i16),
            (Emplacement::EngineBank, 0i16, 8i16),
        ],
        CapitalKind::DeathStar => seq![
            (Emplacement::ShieldDome, 1i16, -18i16),
            (Emplacement::ShieldDome, 1i16, 18i16),
            (Emplacement::ShieldDome, 2i16, -8i16),
            (Emplacement::ShieldDome, 2i16, 8i16),
            (Emplacement::Turbolaser, 4i16, -22i16),
            (Emplacement::Turbolaser, 4i16, -13i16),
            (Emplacement::Turbolaser, 4i16, 13i16),
            (Emplacement::Turbolaser, 4i16, 22i16),
            (Emplacement::HangarBay, 6i16, -17i16),
            (Emplacement::HangarBay, 6i16, 17i16),
            (Emplacement::TractorBeam, 6i16, 0i16),
            (Emplacement::ExhaustPort, 7i16, 0i16),
        ],
    }
}

/// The table a capital is built from, as an executable list.
fn layout_of(kind: CapitalKind) -> (r: Vec<(Emplacement, i16, i16)>)
    ensures
        r@ == layout(kind),
{
    match kind {
        CapitalKind::ImperialFrigate => vec![
            (Emplacement::ShieldDome, 1, 0),
            (Emplacement::Turbolaser, 2, -6),
            (Emplacement::Turbolaser, 2, 6),
            (Emplacement::HangarBay, 2, 0),
            (Emplacement::EngineBank, 0, -8),
        ],
        CapitalKind::StarDestroyer => vec![
            (Emplacement::CommandTower, 1, 0),
            (Emplacement::ShieldDome, 1, -3),
            (Emplacement::ShieldDome, 1, 3),
            (Emplacement::Turbolaser, 3, -9),
            (Emplacement::Turbolaser, 3, 9),
            (Emplacement::Turbolaser, 5, -14),
            (Emplacement::Turbolaser, 5, 14),
            (Emplacement::HangarBay, 5, -5),
            (Emplacement::HangarBay, 5, 5),
            (Emplacement::TractorBeam, 4, 0),
            (Emplacement::EngineBank, 0, -6),
            (Emplacement::EngineBank, 0, 6),
        ],
        CapitalKind::Interdictor => vec![
            (Emplacement::ShieldDome, 1, 0),
            (Emplacement::GravityProjector, 2, -7),
            (Emplacement::GravityProjector, 2, 7),
            (Emplacement::Turbolaser, 3, -4),
            (Emplacement::Turbolaser, 3, 4),
            (Emplacement::HangarBay, 4, 0),
            (Emplacement::EngineBank, 0, 0),
        ],
        CapitalKind::SuperDestroyer => vec![
            (Emplacement::CommandTower, 1, 0),
            (Emplacement::ShieldDome, 1, -4),
            (Emplacement::ShieldDome, 1, 4),
            (Emplacement::ShieldDome, 2, 0),
            (Emplacement::Turbolaser, 4, -12),
            (Emplacement::Turbolaser, 4, -6),
            (Emplacement::Turbolaser, 4, 6),
            (Emplacement::Turbolaser, 4, 12),
            (Emplacement::Turbolaser, 7, -20),
            (Emplacement::Turbolaser, 7, -10),
            (Emplacement::Turbolaser, 7, 10),
            (Emplacement::Turbolaser, 7, 20),
            (Emplacement::HangarBay, 8, -8),
            (Emplacement::HangarBay, 8, 0),
            (Emplacement::HangarBay, 8, 8),
            (Emplacement::TractorBeam, 6, -4),
            (Emplacement::TractorBeam, 6, 4),
            (Emplacement::EngineBank, 0, -8),
            (Emplacement::EngineBank, 0, 0),
            (Emplacement::EngineBank, 0, 8),
        ],
        CapitalKind::DeathStar => vec![
            (Emplacement::ShieldDome, 1, -18),
            (Emplacement::ShieldDome, 1, 18),
            (Emplacement::ShieldDome, 2, -8),
            (Emplacement::ShieldDome, 2, 8),
            (Emplacement::Turbolaser, 4, -22),
            (Emplacement::Turbolaser, 4, -13),
            (Emplacement::Turbolaser, 4, 13),
            (Emplacement::Turbolaser, 4, 22),
            (Emplacement::HangarBay, 6, -17),
            (Emplacement::HangarBay, 6, 17),
            (Emplacement::TractorBeam, 6, 0),
            (Emplacement::ExhaustPort, 7, 0),
        ],
    }
}

/// How many emplacements of `kind` in `parts` are still standing.
pub open spec fn count_standing(parts: Seq<CapitalPart>, kind: Emplacement) -> nat
    decreases parts.len(),
{
    if parts.len() == 0 {
        0
    } else {
        count_standing(parts.drop_last(), kind) + if parts.last().kind == kind && parts.last().hp > 0 { 1nat } else { 0nat }
    }
}

impl Capital {
    /// A fresh capital of `kind` anchored at the top centre of the court, its
    /// emplacements thickened by `armour` and its hull by `hull_bonus`.
    pub fn new(kind: CapitalKind, armour: i32, hull_bonus: i32) -> (r: Capital)
        requires
            forall|i: int| 0 <= i < layout(kind).len() ==> armour_fits((#[trigger] layout(kind)[i]).0, armour),
        ensures
            r.kind == kind,
            r.pos == (0i16, (W / 2) as i16),
            r.hp == clamp_int(kind.spec_hull() + hull_bonus, i32::MIN as int, i32::MAX as int),
            r.max_hp == r.hp,
            r.dir == 1,
            r.tick == 0,
            r.parts@.len() == layout(kind).len(),
            forall|i: int| 0 <= i < r.parts@.len() ==> {
                let (k, dr, dc) = #[trigger] layout(kind)[i];
                r.parts@[i] == (CapitalPart {
                    kind: k,
                    offset: (dr, dc),
                    hp: (k.spec_hp() + armour * 4) as i32,
                    max_hp: (k.spec_hp() + armour * 4) as i32,
                    cooldown: (k.spec_hp() as u32 % 17 + 8) as u32,
                    ion: 0,
                })
            },
    {
        let hp = crate::arith::add32(kind.hull(), hull_bonus);
        let table = layout_of(kind);
        let mut parts: Vec<CapitalPart> = Vec::new();
        let mut i: usize = 0;
        while i < table.len()
            invariant
                i <= table@.len(),
                table@ == layout(kind),
                forall|i: int| 0 <= i < layout(kind).len() ==> armour_fits((#[trigger] layout(kind)[i]).0, armour),
                parts@.len() == i,
                forall|j: int| 0 <= j < i ==> {
                    let (k, dr, dc) = #[trigger] layout(kind)[j];
                    parts@[j] == (CapitalPart {
                        kind: k,
                        offset: (dr, dc),
                        hp: (k.spec_hp() + armour * 4) as i32,
                        max_hp: (k.spec_hp() + armour * 4) as i32,
                        cooldown: (k.spec_hp() as u32 % 17 + 8) as u32,
                        ion: 0,
                    })
                },
            decreases table@.len() - i,
        {
            let (k, dr, dc) = table[i];
            parts.push(CapitalPart::new(k, (dr, dc), armour));
            i = i + 1;
        }
        Capital { kind, pos: (0, W / 2), hp, max_hp: hp, dir: 1, parts, tick: 0 }
    }

    pub open spec fn spec_standing(&self, kind: Emplacement) -> nat {
        count_standing(self.parts@, kind)
    }

    /// Emplacements of a kind that are still standing.
    pub fn standing(&self, kind: Emplacement) -> (r: usize)
        ensures
            r == self.spec_standing(kind),
    {
        let mut n: usize = 0;
        let mut i: usize = 0;
        while i < self.parts.len()
            invariant
                i <= self.parts@.len(),
                n == count_standing(self.parts@.subrange(0, i as int), kind),
                n <= i,
            decreases self.parts@.len() - i,
        {
            assert(self.parts@.subrange(0, i + 1).drop_last() =~= self.parts@.subrange(0, i as int));
            if self.parts[i].kind == kind && self.parts[i].hp > 0 {
                n = n + 1;
            }
            i = i + 1;
        }
        assert(self.parts@.subrange(0, i as int) =~= self.parts@);
        n
    }

    pub open spec fn spec_shielded(&self) -> bool {
        exists|i: int| 0 <= i < self.parts@.len() && {
            let p = #[trigger] self.parts@[i];
            p.kind == Emplacement::ShieldDome && p.hp > 0 && p.ion == 0
        }
    }

    /// While a dome is up and unscrambled, nothing reaches the hull.
    #[verifier::when_used_as_spec(spec_shielded)]
    pub fn shielded(&self) -> (r: bool)
        ensures
            r == self.spec_shielded(),
    {
        let mut i: usize = 0;
        while i < self.parts.len()
            invariant
                i <= self.parts@.len(),
                forall|j: int| 0 <= j < i ==> {
                    let p = #[trigger] self.parts@[j];
                    !(p.kind == Emplacement::ShieldDome && p.hp > 0 && p.ion == 0)
                },
            decreases self.parts@.len() - i,
        {
            let p = self.parts[i];
            if p.kind == Emplacement::ShieldDome && p.hp > 0 && p.live() {
                return true;
            }
            i = i + 1;
        }
        false
    }

    /// The absolute cell an emplacement sits in.
    pub fn part_cell(&self, part: &CapitalPart) -> (r: (i16, i16))
        ensures
            r.0 == clamp_int(self.pos.0 + part.offset.0, i16::MIN as int, i16::MAX as int),
            r.1 == clamp_int(self.pos.1 + part.offset.1, i16::MIN as int, i16::MAX as int),
    {
        (add16(self.pos.0, part.offset.0), add16(self.pos.1, part.offset.1))
    }

    pub open spec fn spec_covers(&self, row: i16, col: i16) -> bool {
        let dr = row - self.pos.0;
        0 <= dr < self.kind.spec_depth() && abs_int(col - self.pos.1) <= self.kind.spec_span(dr)
    }

    /// Is this cell hull plating?
    #[verifier::when_used_as_spec(spec_covers)]
    pub fn covers(&self, row: i16, col: i16) -> (r: bool)
        ensures
            r == self.spec_covers(row, col),
    {
        let dr = row as i32 - self.pos.0 as i32;
        if !(0 <= dr && dr < self.kind.depth() as i32) {
            return false;
        }
        crate::arith::dist16(col, self.pos.1) <= self.kind.span(dr as i16) as i32
    }

    pub open spec fn spec_has_tower(&self) -> bool {
        exists|i: int| 0 <= i < self.parts@.len() && #[trigger] self.parts@[i].kind == Emplacement::CommandTower
    }

    /// Whether the hull was built with a command tower at all.
    fn has_tower(&self) -> (r: bool)
        ensures
            r == self.spec_has_tower(),
    {
        let mut i: usize = 0;
        while i < self.parts.len()
            invariant
                i <= self.parts@.len(),
                forall|j: int| 0 <= j < i ==> #[trigger] self.parts@[j].kind != Emplacement::CommandTower,
            decreases self.parts@.len() - i,
        {
            if self.parts[i].kind == Emplacement::CommandTower {
                return true;
            }
            i = i + 1;
        }
        false
    }

    pub open spec fn spec_base_cadence(kind: CapitalKind) -> u32 {
        match kind {
            CapitalKind::ImperialFrigate => 20,
            CapitalKind::StarDestroyer => 16,
            CapitalKind::DeathStar => 12,
            CapitalKind::SuperDestroyer => 10,
            CapitalKind::Interdictor => 18,
        }
    }

    pub open spec fn spec_cadence(&self) -> u32 {
        let tower = self.spec_standing(Emplacement::CommandTower) > 0 || !self.spec_has_tower();
        let base = Capital::spec_base_cadence(self.kind);
        if tower { base } else { (base * 2) as u32 }
    }

    /// Ticks between volleys; losing the tower slows the whole ship down.
    #[verifier::when_used_as_spec(spec_cadence)]
    pub fn cadence(&self) -> (r: u32)
        ensures
            r == self.spec_cadence(),
            1 <= r <= 40,
    {
        let tower = self.standing(Emplacement::CommandTower) > 0 || !self.has_tower();
        let base: u32 = match self.kind {
            CapitalKind::ImperialFrigate => 20,
            CapitalKind::StarDestroyer => 16,
            CapitalKind::DeathStar => 12,
            CapitalKind::SuperDestroyer => 10,
            CapitalKind::Interdictor => 18,
        };
        if tower {
            base
        } else {
            base * 2
        }
    }

    pub open spec fn spec_under_way(&self) -> bool {
        self.spec_standing(Emplacement::EngineBank) > 0
    }

    /// It only holds station while an engine bank is left.
    #[verifier::when_used_as_spec(spec_under_way)]
    pub fn under_way(&self) -> (r: bool)
        ensures
            r == self.spec_under_way(),
    {
        self.standing(Emplacement::EngineBank) > 0
    }
}

} // verus!
