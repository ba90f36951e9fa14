//! The gauges on the court's head-up lines: how much of each bar is lit.

use vstd::prelude::*;

use vstd::string::StrSliceExecFns;
use vstd::string::StringExecFns;

use super::consts::FORCE_MAX;
use super::entities::Wing;
use super::game::Game;
use super::kinds::{Emplacement, Part, Rank, Weapon};
use crate::mpuz::{to_upper, upper};
use crate::text::{decimal, decimal_string};

verus! {

/// How many cells of a `width`-cell bar a value of `have` out of `most`
/// lights: a spent value lights none, and the most counts as at least one.
pub open spec fn bar_fill(have: int, most: int, width: int) -> int {
    (if have > 0 { have } else { 0 }) * width / (if most > 1 { most } else { 1 })
}

/// `x`, but no more than `cap`.
pub open spec fn capped(x: int, cap: int) -> int {
    if x > cap { cap } else { x }
}

/// How many cells of a `width`-cell health bar `hp` out of `max_hp` lights.
pub fn health_fill(hp: i32, max_hp: i32, width: i32) -> (r: usize)
    requires
        0 <= width,
        (if hp > 0 { hp as int } else { 0 }) * width <= i32::MAX,
    ensures
        r == bar_fill(hp as int, max_hp as int, width as int),
{
    let have: i32 = if hp > 0 { hp } else { 0 };
    let most: i32 = if max_hp > 1 { max_hp } else { 1 };
    assert(have * width >= 0) by (nonlinear_arith)
        requires
            have >= 0,
            width >= 0,
    ;
    (have * width / most) as usize
}

/// A health bar is dark when the health is spent, full at full health, and
/// never longer than itself while the health is within its most.
pub proof fn health_bar_bounds(hp: int, max_hp: int, width: int)
    requires
        width >= 0,
    ensures
        hp <= 0 ==> bar_fill(hp, max_hp, width) == 0,
        0 <= hp <= max_hp ==> 0 <= bar_fill(hp, max_hp, width) <= width,
        hp == max_hp && max_hp >= 1 ==> bar_fill(hp, max_hp, width) == width,
{
    let most = if max_hp > 1 { max_hp } else { 1 };
    if 0 <= hp <= max_hp {
        assert(0 <= hp * width / most <= width) by (nonlinear_arith)
            requires
                0 <= hp,
                hp <= most,
                most >= 1,
                width >= 0,
        ;
    }
    if hp == max_hp && max_hp >= 1 {
        assert(hp * width / hp == width) by (nonlinear_arith)
            requires
                hp >= 1,
        ;
    }
}

impl Game {
    /// How many of the ten energy pips are lit.
    pub fn energy_pips(&self) -> (r: usize)
        requires
            self.wf(),
            self.energy * 10 <= u32::MAX,
        ensures
            r == capped(
                self.energy * 10 / (if self.spec_max_energy() > 1 { self.spec_max_energy() as int } else { 1 }),
                10,
            ),
    {
        let most = self.max_energy();
        let most = if most > 1 { most } else { 1 };
        let pips = self.energy * 10 / most;
        if pips > 10 { 10 } else { pips as usize }
    }

    /// How many of the six Force pips are lit.
    pub fn force_pips(&self) -> (r: usize)
        requires
            self.wf(),
        ensures
            r == self.force * 6 / (FORCE_MAX as int),
            r <= 6,
    {
        assert(self.force * 6 <= FORCE_MAX * 6);
        (self.force * 6 / FORCE_MAX) as usize
    }

    /// How many of the ten experience pips are lit.
    pub fn xp_pips(&self) -> (r: usize)
        requires
            self.xp * 10 <= u32::MAX,
        ensures
            r == capped(self.xp * 10 / (if self.xp_next > 1 { self.xp_next as int } else { 1 }), 10),
    {
        let next = if self.xp_next > 1 { self.xp_next } else { 1 };
        let pips = self.xp * 10 / next;
        if pips > 10 { 10 } else { pips as usize }
    }

    /// How much of the boss's 24-cell bar is lit, while a boss is up.
    pub fn boss_fill(&self) -> (r: Option<usize>)
        requires
            self.boss matches Some(b) ==> (if b.hp > 0 { b.hp as int } else { 0 }) * 24 <= i32::MAX,
        ensures
            match self.boss {
                Some(b) => r == Some(bar_fill(b.hp as int, b.max_hp as int, 24) as usize),
                None => r is None,
            },
    {
        match &self.boss {
            Some(b) => Some(health_fill(b.hp, b.max_hp, 24)),
            None => None,
        }
    }

    /// How much of the capital ship's 20-cell bar is lit, while one is up.
    pub fn capital_fill(&self) -> (r: Option<usize>)
        requires
            self.capital matches Some(c) ==> (if c.hp > 0 { c.hp as int } else { 0 }) * 20 <= i32::MAX,
        ensures
            match self.capital {
                Some(c) => r == Some(bar_fill(c.hp as int, c.max_hp as int, 20) as usize),
                None => r is None,
            },
    {
        match &self.capital {
            Some(c) => Some(health_fill(c.hp, c.max_hp, 20)),
            None => None,
        }
    }
}

/// `s` written `n` times over.
pub open spec fn repeated(s: Seq<char>, n: nat) -> Seq<char>
    decreases n,
{
    if n == 0 { Seq::empty() } else { repeated(s, (n - 1) as nat) + s }
}

/// `s` with its ASCII letters in upper case.
pub open spec fn upper_text(s: Seq<char>) -> Seq<char> {
    s.map_values(|c: char| upper(c))
}

/// Where `w` first stands in `owned` from `k` on, or `0` when it is not
/// there.
pub open spec fn position_from(owned: Seq<Weapon>, w: Weapon, k: int) -> int
    decreases owned.len() - k,
{
    if k < 0 || k >= owned.len() {
        0
    } else if owned[k] == w {
        k
    } else {
        position_from(owned, w, k + 1)
    }
}

/// How many wingmen are still flying.
pub open spec fn alive_count(sq: Seq<Wing>) -> nat
    decreases sq.len(),
{
    if sq.len() == 0 { 0 } else { alive_count(sq.drop_last()) + if sq.last().alive { 1nat } else { 0nat } }
}

/// The lit energy pips.
pub open spec fn energy_pips_of(g: Game) -> int {
    capped(g.energy * 10 / (if g.spec_max_energy() > 1 { g.spec_max_energy() as int } else { 1 }), 10)
}

/// The lit experience pips.
pub open spec fn xp_pips_of(g: Game) -> int {
    capped(g.xp * 10 / (if g.xp_next > 1 { g.xp_next as int } else { 1 }), 10)
}

/// The first head-up line: rank, the mission (or the wave), where the fight
/// is (and the boss, when one is up), the score and the chain.
pub open spec fn hud_header_of(g: Game) -> Seq<char> {
    Rank::spec_of_level(g.level).name()@ + " \u{b7} "@ + (match g.mission {
        Some(m) => m.name@,
        None => "wave "@ + decimal(g.wave as nat),
    }) + "  "@ + (match g.boss {
        Some(b) => g.sector.name()@ + " \u{b7} "@ + g.node.terrain.name()@ + " \u{b7} "@ + b.kind.name()@,
        None => g.sector.name()@ + " over "@ + g.planet.name()@ + " \u{b7} "@ + g.objective.spec_label(),
    }) + "  score "@ + decimal(g.score as nat) + "  chain \u{d7}"@ + decimal(g.combo as nat)
}

/// The second head-up line: the gun, its level and slot, missiles, shield
/// pips (spent ones hollow), bombs, lives, and rapid fire while it runs.
pub open spec fn hud_gun_of(g: Game) -> Seq<char> {
    "GUN "@ + g.weapon.name()@ + " L"@ + decimal(g.weapon_level as nat) + " ["@ + decimal(
        (position_from(g.owned@, g.weapon, 0) + 1) as nat,
    ) + "/"@ + decimal(g.owned@.len()) + "]   MSL "@ + decimal(g.missiles as nat) + "   SHIELD "@ + repeated(
        "\u{25ae}"@,
        g.shield as nat,
    ) + repeated("\u{25af}"@, (if g.max_shield > g.shield { g.max_shield - g.shield } else { 0 }) as nat)
        + "   BOMB "@ + repeated("\u{25c6}"@, g.bombs as nat) + "   LIVES "@ + repeated("\u{2665}"@, g.lives as nat) + (if g.rapid
        > 0 {
        "   RAPID"@
    } else {
        Seq::empty()
    })
}

/// The third head-up line: the energy gauge and the hull special (and
/// whether it is ready), the power split, the Force gauge (and the sense
/// while it lasts), and how many wingmen fly.
pub open spec fn hud_energy_of(g: Game) -> Seq<char> {
    let pips = energy_pips_of(g);
    let force = g.force * 6 / (FORCE_MAX as int);
    "ENERGY "@ + repeated("\u{25b0}"@, pips as nat) + repeated("\u{25b1}"@, (10 - pips) as nat) + " "@
        + g.class.special().name()@ + (if g.energy >= g.spec_special_cost() { " READY"@ } else { Seq::empty() })
        + "   PWR L"@ + repeated("\u{25ae}"@, g.power.lasers as nat) + " S"@ + repeated("\u{25ae}"@, g.power.shields as nat)
        + " E"@ + repeated("\u{25ae}"@, g.power.engines as nat) + "   FORCE "@ + repeated("\u{25b0}"@, force as nat)
        + repeated("\u{25b1}"@, (6 - capped(force, 6)) as nat) + (if g.sense > 0 { " SENSE"@ } else { Seq::empty() })
        + "   WING "@ + decimal(alive_count(g.squad@))
}

/// The fourth head-up line: the capital ship's bar and emplacements while
/// one is up, else the boss's bar, phase and parts while one is up, else the
/// pilot's level, experience, salvage and component tiers.
pub open spec fn hud_status_of(g: Game) -> Seq<char> {
    match g.capital {
        Some(c) => {
            let fill = bar_fill(c.hp as int, c.max_hp as int, 20);
            upper_text(c.kind.name()@) + " "@ + repeated("\u{25b0}"@, fill as nat) + repeated("\u{25b1}"@, (20 - fill) as nat)
                + "  domes "@ + decimal(c.spec_standing(Emplacement::ShieldDome)) + "  batteries "@ + decimal(
                c.spec_standing(Emplacement::Turbolaser),
            ) + "  bays "@ + decimal(c.spec_standing(Emplacement::HangarBay)) + "  "@ + (if c.spec_shielded() {
                "SHIELDED"@
            } else if c.spec_standing(Emplacement::ExhaustPort) > 0 {
                "PORT OPEN"@
            } else {
                "HULL EXPOSED"@
            })
        },
        None => match g.boss {
            Some(b) => {
                let fill = bar_fill(b.hp as int, b.max_hp as int, 24);
                upper_text(b.kind.name()@) + " "@ + repeated("\u{25b0}"@, fill as nat) + repeated("\u{25b1}"@, (24 - fill) as nat)
                    + "  phase "@ + decimal(b.spec_phase() as nat) + (if b.parts@.len() == 0 {
                    Seq::empty()
                } else {
                    "  parts "@ + decimal(b.parts@.len())
                })
            },
            None => {
                let bar = xp_pips_of(g);
                "LVL "@ + decimal(g.level as nat) + "  XP "@ + repeated("\u{25b0}"@, bar as nat) + repeated("\u{25b1}"@, (10 - bar) as nat)
                    + "  SALVAGE "@ + decimal(g.credits as nat) + "   E"@ + decimal(g.loadout.spec_tier(Part::Engine) as nat)
                    + " R"@ + decimal(g.loadout.spec_tier(Part::Reactor) as nat) + " P"@ + decimal(
                    g.loadout.spec_tier(Part::Plating) as nat,
                ) + " C"@ + decimal(g.loadout.spec_tier(Part::Cannon) as nat) + " M"@ + decimal(
                    g.loadout.spec_tier(Part::Magazine) as nat,
                )
            },
        },
    }
}

/// Append `s` written `n` times over.
fn push_repeated(out: &mut String, s: &str, n: u64)
    ensures
        final(out)@ == old(out)@ + repeated(s@, n as nat),
{
    let ghost start = out@;
    let mut i: u64 = 0;
    assert(out@ =~= start + repeated(s@, 0));
    while i < n
        invariant
            i <= n,
            out@ == start + repeated(s@, i as nat),
        decreases n - i,
    {
        out.append(s);
        assert(out@ =~= start + repeated(s@, (i + 1) as nat));
        i = i + 1;
    }
}

/// Append `n` in decimal.
fn push_number(out: &mut String, n: u64)
    ensures
        final(out)@ == old(out)@ + decimal(n as nat),
{
    let d = decimal_string(n);
    out.append(d.as_str());
}

/// Append `s` with its ASCII letters in upper case.
fn push_upper(out: &mut String, s: &str)
    ensures
        final(out)@ == old(out)@ + upper_text(s@),
{
    let ghost start = out@;
    let k = s.unicode_len();
    let mut i: usize = 0;
    while i < k
        invariant
            i <= k,
            k == s@.len(),
            out@ == start + upper_text(s@.take(i as int)),
        decreases k - i,
    {
        let c = to_upper(s.get_char(i));
        let t = crate::text::char_text(c);
        out.append(t.as_str());
        assert(upper_text(s@.take(i + 1)) =~= upper_text(s@.take(i as int)).push(c));
        assert(out@ =~= start + upper_text(s@.take(i + 1)));
        i = i + 1;
    }
    assert(s@.take(k as int) =~= s@);
}

impl Game {
    /// The first head-up line.
    pub fn hud_header(&self) -> (r: String)
        ensures
            r@ == hud_header_of(*self),
    {
        let mut s = String::from_str(self.rank().name());
        s.append(" \u{b7} ");
        match &self.mission {
            Some(m) => s.append(m.name),
            None => {
                s.append("wave ");
                push_number(&mut s, self.wave as u64);
            },
        }
        s.append("  ");
        match &self.boss {
            Some(b) => {
                s.append(self.sector.name());
                s.append(" \u{b7} ");
                s.append(self.node.terrain.name());
                s.append(" \u{b7} ");
                s.append(b.kind.name());
            },
            None => {
                s.append(self.sector.name());
                s.append(" over ");
                s.append(self.planet.name());
                s.append(" \u{b7} ");
                let l = self.objective.label();
                s.append(l.as_str());
            },
        }
        s.append("  score ");
        push_number(&mut s, self.score as u64);
        s.append("  chain \u{d7}");
        push_number(&mut s, self.combo as u64);
        assert(s@ =~= hud_header_of(*self));
        s
    }

    /// The second head-up line.
    pub fn hud_gun(&self) -> (r: String)
        ensures
            r@ == hud_gun_of(*self),
    {
        let mut s = String::from_str("GUN ");
        s.append(self.weapon.name());
        s.append(" L");
        push_number(&mut s, self.weapon_level as u64);
        s.append(" [");
        let mut k: usize = 0;
        while k < self.owned.len() && self.owned[k] != self.weapon
            invariant
                k <= self.owned@.len(),
                position_from(self.owned@, self.weapon, 0) == position_from(self.owned@, self.weapon, k as int),
            decreases self.owned@.len() - k,
        {
            k = k + 1;
        }
        let slot: usize = if k < self.owned.len() { k } else { 0 };
        push_number(&mut s, (slot + 1) as u64);
        s.append("/");
        push_number(&mut s, self.owned.len() as u64);
        s.append("]   MSL ");
        push_number(&mut s, self.missiles as u64);
        s.append("   SHIELD ");
        push_repeated(&mut s, "\u{25ae}", self.shield as u64);
        let spent = if self.max_shield > self.shield { self.max_shield - self.shield } else { 0 };
        push_repeated(&mut s, "\u{25af}", spent as u64);
        s.append("   BOMB ");
        push_repeated(&mut s, "\u{25c6}", self.bombs as u64);
        s.append("   LIVES ");
        push_repeated(&mut s, "\u{2665}", self.lives as u64);
        if self.rapid > 0 {
            s.append("   RAPID");
        }
        assert(s@ =~= hud_gun_of(*self));
        s
    }
}

impl Game {
    /// The third head-up line.
    pub fn hud_energy(&self) -> (r: String)
        requires
            self.wf(),
            self.energy * 10 <= u32::MAX,
        ensures
            r@ == hud_energy_of(*self),
    {
        let pips = self.energy_pips();
        let mut s = String::from_str("ENERGY ");
        push_repeated(&mut s, "\u{25b0}", pips as u64);
        push_repeated(&mut s, "\u{25b1}", (10 - pips) as u64);
        s.append(" ");
        s.append(self.class.special().name());
        if self.special_ready() {
            s.append(" READY");
        }
        s.append("   PWR L");
        push_repeated(&mut s, "\u{25ae}", self.power.lasers as u64);
        s.append(" S");
        push_repeated(&mut s, "\u{25ae}", self.power.shields as u64);
        s.append(" E");
        push_repeated(&mut s, "\u{25ae}", self.power.engines as u64);
        s.append("   FORCE ");
        let force = self.force_pips();
        push_repeated(&mut s, "\u{25b0}", force as u64);
        push_repeated(&mut s, "\u{25b1}", (6 - force) as u64);
        if self.sense > 0 {
            s.append(" SENSE");
        }
        s.append("   WING ");
        let mut alive: usize = 0;
        let mut i: usize = 0;
        while i < self.squad.len()
            invariant
                i <= self.squad@.len(),
                alive == alive_count(self.squad@.take(i as int)),
                alive <= i,
            decreases self.squad@.len() - i,
        {
            assert(self.squad@.take(i + 1).drop_last() =~= self.squad@.take(i as int));
            if self.squad[i].alive {
                alive = alive + 1;
            }
            i = i + 1;
        }
        assert(self.squad@.take(i as int) =~= self.squad@);
        push_number(&mut s, alive as u64);
        assert(s@ =~= hud_energy_of(*self));
        s
    }

    /// The fourth head-up line. The bar of whatever is up must not overrun:
    /// its health times the bar's width stays within 32 bits, and what it
    /// lights stays within the bar.
    pub fn hud_status(&self) -> (r: String)
        requires
            self.capital matches Some(c) ==> (if c.hp > 0 { c.hp as int } else { 0 }) * 20 <= i32::MAX
                && bar_fill(c.hp as int, c.max_hp as int, 20) <= 20,
            self.capital is None ==> (self.boss matches Some(b) ==> (if b.hp > 0 { b.hp as int } else { 0 }) * 24 <= i32::MAX
                && bar_fill(b.hp as int, b.max_hp as int, 24) <= 24),
            self.capital is None && self.boss is None ==> self.xp * 10 <= u32::MAX,
        ensures
            r@ == hud_status_of(*self),
    {
        match &self.capital {
            Some(c) => {
                let fill = health_fill(c.hp, c.max_hp, 20);
                let mut s = String::new();
                push_upper(&mut s, c.kind.name());
                s.append(" ");
                push_repeated(&mut s, "\u{25b0}", fill as u64);
                push_repeated(&mut s, "\u{25b1}", (20 - fill) as u64);
                s.append("  domes ");
                push_number(&mut s, c.standing(Emplacement::ShieldDome) as u64);
                s.append("  batteries ");
                push_number(&mut s, c.standing(Emplacement::Turbolaser) as u64);
                s.append("  bays ");
                push_number(&mut s, c.standing(Emplacement::HangarBay) as u64);
                s.append("  ");
                if c.shielded() {
                    s.append("SHIELDED");
                } else if c.standing(Emplacement::ExhaustPort) > 0 {
                    s.append("PORT OPEN");
                } else {
                    s.append("HULL EXPOSED");
                }
                assert(s@ =~= hud_status_of(*self));
                s
            },
            None => match &self.boss {
                Some(b) => {
                    let fill = health_fill(b.hp, b.max_hp, 24);
                    let mut s = String::new();
                    push_upper(&mut s, b.kind.name());
                    s.append(" ");
                    push_repeated(&mut s, "\u{25b0}", fill as u64);
                    push_repeated(&mut s, "\u{25b1}", (24 - fill) as u64);
                    s.append("  phase ");
                    push_number(&mut s, b.phase() as u64);
                    if b.parts.len() > 0 {
                        s.append("  parts ");
                        push_number(&mut s, b.parts.len() as u64);
                    }
                    assert(s@ =~= hud_status_of(*self));
                    s
                },
                None => {
                    let bar = self.xp_pips();
                    let mut s = String::from_str("LVL ");
                    push_number(&mut s, self.level as u64);
                    s.append("  XP ");
                    push_repeated(&mut s, "\u{25b0}", bar as u64);
                    push_repeated(&mut s, "\u{25b1}", (10 - bar) as u64);
                    s.append("  SALVAGE ");
                    push_number(&mut s, self.credits as u64);
                    s.append("   E");
                    push_number(&mut s, self.loadout.tier(Part::Engine) as u64);
                    s.append(" R");
                    push_number(&mut s, self.loadout.tier(Part::Reactor) as u64);
                    s.append(" P");
                    push_number(&mut s, self.loadout.tier(Part::Plating) as u64);
                    s.append(" C");
                    push_number(&mut s, self.loadout.tier(Part::Cannon) as u64);
                    s.append(" M");
                    push_number(&mut s, self.loadout.tier(Part::Magazine) as u64);
                    assert(s@ =~= hud_status_of(*self));
                    s
                },
            },
        }
    }
}

} // verus!
