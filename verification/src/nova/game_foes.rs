//! What the other side does each tick: the formation and its divers, the
//! boss and its patterns, and the capital ship's batteries, bays and beams.

use vstd::prelude::*;

use super::boss::Boss;
use super::capital::Capital;
use super::consts::{FORMATION_TOP, H, HEAL_CADENCE, HEAL_RANGE, MINE_FUSE, SNIPER_CHARGE, W, WEAVE_CHANCE};
use super::entities::{Enemy, Mine, Shot};
use super::game::Game;
use super::game_fire::fielded;
use super::kinds::{BossKind, Emplacement, EnemyKind, EnemyState, ShotKind};
use crate::arith::{lcg_next, add16, clamp16, dist16, mul16, sig_diff, sub16};

verus! {

/// Every shot of `v` can be slowed without wrapping.
pub open spec fn slowable(v: Seq<Shot>) -> bool {
    forall|k: int| 0 <= k < v.len() ==> (#[trigger] v[k]).speed > i16::MIN
}

/// A healer at `h` reaches `pos`: within its range along both axes.
pub open spec fn heals(h: (i16, i16), pos: (i16, i16)) -> bool {
    crate::arith::abs_int(h.0 - pos.0) <= HEAL_RANGE && crate::arith::abs_int(h.1 - pos.1) <= HEAL_RANGE
}

/// How many shots a boss of `kind` throws in `phase` with `n` live parts: a
/// dreadnought four (five in its second phase); a twin one per live turret,
/// and a fan of three once hurt or bare; a carrier a curtain of four (seven
/// once hurt); the ace two; the serpent one from the head and, once hurt,
/// one from every other body segment.
pub open spec fn volley_size(kind: BossKind, phase: int, n: int) -> int {
    match kind {
        BossKind::Dreadnought => if phase == 2 { 5 } else { 4 },
        BossKind::Twin => n + if phase >= 2 || n == 0 { 3int } else { 0int },
        BossKind::Carrier => if phase == 1 { 4 } else { 7 },
        BossKind::AceTie => 2,
        BossKind::Serpent => 1 + if phase >= 2 { (n + 1) / 2 } else { 0int },
    }
}

/// `x` held to the `i16` range.
pub open spec fn c16(x: int) -> i16 {
    crate::arith::clamp_int(x, i16::MIN as int, i16::MAX as int) as i16
}

/// Column `col` kept inside the channel of row `row`.
pub open spec fn in_lane(g: Game, row: i16, col: int) -> i16 {
    crate::arith::clamp_int(col, g.terrain.spec_channel(row).0 as int, g.terrain.spec_channel(row).1 as int) as i16
}

/// The cell a hull holds in formation: its slot, swayed sideways.
pub open spec fn slot(g: Game, e: Enemy) -> (i16, i16) {
    (e.home.0, c16(e.home.1 + g.sway_x))
}

/// The way a weaver turns: on along `dir`, unless the next column would
/// leave the court, when it turns back.
pub open spec fn weave_dir(col: i16, dir: i16) -> i16 {
    let next = c16(col + dir);
    if 1 <= next < W - 1 {
        dir
    } else if dir == i16::MIN {
        i16::MAX
    } else {
        (0 - dir) as i16
    }
}

/// Where `e` makes for this tick in `g`, before the channel: a hull in
/// formation its swayed slot; a diver a row band lower at its kind's speed
/// and a column toward its mark; a weaver a row lower every other tick and a
/// column along its way, kept off the court's walls.
pub open spec fn raw_move(g: Game, e: Enemy) -> (i16, i16) {
    match e.state {
        EnemyState::Formation => slot(g, e),
        EnemyState::Diving { target_x } => (
            c16(e.pos.0 + e.kind.spec_dive_speed()),
            c16(e.pos.1 + crate::arith::sign(target_x - e.pos.1)),
        ),
        EnemyState::Weaving { dir } => (
            if g.tick % 2 == 0 { c16(e.pos.0 + 1) } else { e.pos.0 },
            crate::arith::clamp_int(c16(e.pos.1 + weave_dir(e.pos.1, dir)) as int, 1, W - 2) as i16,
        ),
    }
}

/// That cell kept inside the channel of its row.
pub open spec fn next_spot(g: Game, e: Enemy) -> (i16, i16) {
    let p = raw_move(g, e);
    (p.0, in_lane(g, p.0, p.1 as int))
}

/// `e` runs off the bottom of the court this tick.
pub open spec fn runs_off(g: Game, e: Enemy) -> bool {
    next_spot(g, e).0 >= H
}

/// Where `e` flies this tick in `g`: to its next spot, or, run off the
/// bottom, back round to its slot in formation. A hull in formation may
/// break into a dive at the hull's column or into a weave; a diver keeps
/// diving and a weaver keeps weaving, the way it turned.
pub open spec fn flown(g: Game, e: Enemy, f: Enemy) -> bool {
    &&& f.pos == (if runs_off(g, e) { slot(g, e) } else { next_spot(g, e) })
    &&& runs_off(g, e) ==> f.state is Formation
    &&& !runs_off(g, e) ==> match e.state {
        EnemyState::Formation => f.state is Formation || f.state is Weaving
            || f.state == (EnemyState::Diving { target_x: g.ship.1 }),
        EnemyState::Diving { .. } => f.state == e.state,
        EnemyState::Weaving { dir } => f.state == (EnemyState::Weaving { dir: weave_dir(e.pos.1, dir) }),
    }
}

/// A buzz droid is gone this tick: it ran off the bottom, or flew into the
/// hull.
pub open spec fn spent(g: Game, e: Enemy) -> bool {
    e.kind == EnemyKind::BuzzDroid && (runs_off(g, e) || next_spot(g, e) == g.ship)
}

/// The cells of the repair droids among the first `n` hulls.
pub open spec fn repairers(es: Seq<Enemy>, n: int) -> Seq<(i16, i16)>
    decreases n,
{
    if n <= 0 {
        Seq::empty()
    } else if es[n - 1].kind == EnemyKind::RepairDroid {
        repairers(es, n - 1).push(es[n - 1].pos)
    } else {
        repairers(es, n - 1)
    }
}

/// `f` is `e` a tick on in `g`: the same hull in the same slot, flown as
/// `flown` says, and patched up a point when the repair cadence comes round,
/// it is hurt, it is no repair droid itself, and one of `healers` reaches
/// where it ends up.
pub open spec fn advanced(g: Game, healers: Seq<(i16, i16)>, e: Enemy, f: Enemy) -> bool {
    let patched = g.tick % HEAL_CADENCE == 0 && e.kind != EnemyKind::RepairDroid && e.hp < e.max_hp
        && exists|i: int| 0 <= i < healers.len() && #[trigger] heals(healers[i], f.pos);
    &&& f.kind == e.kind
    &&& f.home == e.home
    &&& f.max_hp == e.max_hp
    &&& f.hp == (if patched { e.hp + 1 } else { e.hp as int })
    &&& flown(g, e, f)
}

/// `news` are `olds` a tick on in `g`, in order: each hull kept and
/// advanced, save a buzz droid that is spent.
pub open spec fn carried(g: Game, healers: Seq<(i16, i16)>, olds: Seq<Enemy>, news: Seq<Enemy>) -> bool
    decreases olds.len(),
{
    if olds.len() == 0 {
        news.len() == 0
    } else if spent(g, olds.last()) {
        carried(g, healers, olds.drop_last(), news)
    } else {
        &&& news.len() > 0
        &&& advanced(g, healers, olds.last(), news.last())
        &&& carried(g, healers, olds.drop_last(), news.drop_last())
    }
}

/// `h` is `g` with the enemy hulls flown a tick: each kept and advanced in
/// order, a hull in formation taking up what it rolls, and the hulls that
/// win their roll to fire throwing their shots and laying their mines as
/// `thrown` and `dropped` say, the shots taking the court as `fielded`
/// says; the generator is left where those draws leave it.
pub open spec fn enemies_advanced(g: Game, h: Game) -> bool {
    &&& h.enemies@.len() <= g.enemies@.len()
    &&& h.status == g.status
    &&& h.ship == g.ship
    &&& h.tick == g.tick
    &&& forall|k: int| 0 <= k < h.enemies@.len() ==> (#[trigger] h.enemies@[k]).kind == EnemyKind::BuzzDroid
        ==> h.enemies@[k].pos != g.ship
    &&& forall|k: int| 0 <= k < h.enemies@.len() ==> exists|j: int| 0 <= j < g.enemies@.len()
        && (#[trigger] g.enemies@[j]).kind == (#[trigger] h.enemies@[k]).kind
        && g.enemies@[j].home == h.enemies@[k].home
    &&& carried(g, repairers(g.enemies@, g.enemies@.len() as int), g.enemies@, h.enemies@)
    &&& formed(g, g.enemies@, h.enemies@)
    &&& h.rng == rng_after(g, g.enemies@)
    &&& recharges(g, g.enemies@, h.enemies@, fire_rolls(g, g.enemies@))
    &&& h.enemy_shots@ == g.enemy_shots@ + volleys(g, g.enemies@, h.enemies@, fire_rolls(g, g.enemies@)).map_values(
        |s: Shot| fielded(g, s),
    )
    &&& h.mines@ == g.mines@ + mines_at(drops(g, g.enemies@, h.enemies@, fire_rolls(g, g.enemies@)))
}

/// What a hull in formation rolls from generator state `rng`, and the state
/// after: a hull of a kind that dives draws once and breaks into a dive at
/// the ship's column when the draw comes up; failing that, an interceptor
/// draws for a weave and, when it comes up, draws again for its way.
pub open spec fn formation_roll(g: Game, e: Enemy, rng: u64) -> (EnemyState, u64) {
    let dive = e.kind.spec_dive_chance();
    let r1 = if dive > 0 { lcg_next(rng) } else { rng };
    if dive > 0 && (r1 >> 33) % g.spec_odds(dive) == 0 {
        (EnemyState::Diving { target_x: g.ship.1 }, r1)
    } else if e.kind == EnemyKind::TieInterceptor {
        let r2 = lcg_next(r1);
        if (r2 >> 33) % g.spec_odds(WEAVE_CHANCE) == 0 {
            let r3 = lcg_next(r2);
            (EnemyState::Weaving { dir: if (r3 >> 33) & 1 == 0 { 1i16 } else { -1i16 } }, r3)
        } else {
            (EnemyState::Formation, r2)
        }
    } else {
        (EnemyState::Formation, r1)
    }
}

/// The generator's state after `e` is steered from `rng`: only a hull in
/// formation draws.
pub open spec fn steer_rng(g: Game, e: Enemy, rng: u64) -> u64 {
    if e.state is Formation { formation_roll(g, e, rng).1 } else { rng }
}

/// A hull at rest of a kind that fires rolls to fire.
pub open spec fn rolls_to_fire(e: Enemy) -> bool {
    e.charge == 0 && e.kind.spec_fire_chance() > 0
}

/// The generator's state once the hulls `olds` have flown and fired in turn.
pub open spec fn rng_after(g: Game, olds: Seq<Enemy>) -> u64
    decreases olds.len(),
{
    if olds.len() == 0 {
        g.rng
    } else {
        let r1 = steer_rng(g, olds.last(), rng_after(g, olds.drop_last()));
        if !spent(g, olds.last()) && rolls_to_fire(olds.last()) { lcg_next(r1) } else { r1 }
    }
}

/// Whether each kept hull of `olds` won its roll to fire, in order: the
/// draw after its steering comes up against its kind's odds.
pub open spec fn fire_rolls(g: Game, olds: Seq<Enemy>) -> Seq<bool>
    decreases olds.len(),
{
    if olds.len() == 0 {
        Seq::empty()
    } else if spent(g, olds.last()) {
        fire_rolls(g, olds.drop_last())
    } else {
        let e = olds.last();
        let r1 = steer_rng(g, e, rng_after(g, olds.drop_last()));
        fire_rolls(g, olds.drop_last()).push(
            rolls_to_fire(e) && (lcg_next(r1) >> 33) % g.spec_odds(e.kind.spec_fire_chance()) == 0,
        )
    }
}

/// Each kept hull that held formation and stays on the court takes up what
/// it rolled.
pub open spec fn formed(g: Game, olds: Seq<Enemy>, news: Seq<Enemy>) -> bool
    decreases olds.len(),
{
    if olds.len() == 0 {
        true
    } else if spent(g, olds.last()) {
        formed(g, olds.drop_last(), news)
    } else {
        let e = olds.last();
        &&& (e.state is Formation && !runs_off(g, e) ==> news.last().state
            == formation_roll(g, e, rng_after(g, olds.drop_last())).0)
        &&& formed(g, olds.drop_last(), news.drop_last())
    }
}

/// An enemy bolt from `pos`, drifting `drift` a row, `speed` rows a tick.
pub open spec fn enemy_bolt(pos: (i16, i16), drift: i16, speed: i16) -> Shot {
    Shot { speed, kind: ShotKind::Enemy, ..Shot::spec_bolt(pos, drift, 1) }
}

/// Where an enemy at `pos` lets its shots go: the cell below it.
pub open spec fn muzzle(pos: (i16, i16)) -> (i16, i16) {
    (c16(pos.0 + 1), pos.1)
}

/// What a hull of `kind` at `pos`, its telegraph at `charge`, throws at the
/// ship at `ship` this tick, `fired` saying whether it won its roll: a
/// winding sniper spends its telegraph and lets go a heavy round as it runs
/// out; otherwise a hull that fires throws what its kind throws (a turret
/// one round led at the ship, a bomber a three-way spread, a fighter screen
/// a pair a column apart, the others one straight round), save a sniper,
/// which winds up, and a miner, which lays a mine.
pub open spec fn thrown(kind: EnemyKind, pos: (i16, i16), charge: u32, ship: (i16, i16), fired: bool) -> Seq<Shot> {
    let m = muzzle(pos);
    if charge > 0 {
        if charge == 1 {
            seq![Shot { damage: 2, ..enemy_bolt(m, crate::arith::sign(ship.1 - pos.1) as i16, 2) }]
        } else {
            Seq::empty()
        }
    } else if !fired || kind.spec_fire_chance() == 0 {
        Seq::empty()
    } else {
        match kind {
            EnemyKind::GunPlatform => seq![enemy_bolt(m, crate::arith::sign(ship.1 - pos.1) as i16, 1)],
            EnemyKind::TieBomber => seq![enemy_bolt(m, -1i16, 1), enemy_bolt(m, 0, 1), enemy_bolt(m, 1, 1)],
            EnemyKind::TieAdvanced => seq![enemy_bolt(m, -1i16, 1), enemy_bolt(m, 1, 1)],
            EnemyKind::TieDefender | EnemyKind::MineLayer => Seq::empty(),
            _ => seq![enemy_bolt(m, 0, 1)],
        }
    }
}

/// Where such a hull lays a mine this tick: a miner that fires lays one
/// under it.
pub open spec fn dropped(kind: EnemyKind, pos: (i16, i16), charge: u32, fired: bool) -> Seq<(i16, i16)> {
    if charge == 0 && fired && kind.spec_fire_chance() > 0 && kind == EnemyKind::MineLayer {
        seq![muzzle(pos)]
    } else {
        Seq::empty()
    }
}

/// The hull's telegraph after this tick: a winding one runs down a tick, a
/// sniper that fires winds up in full, and the rest stay at rest.
pub open spec fn recharged(kind: EnemyKind, charge: u32, fired: bool) -> u32 {
    if charge > 0 {
        (charge - 1) as u32
    } else if fired && kind.spec_fire_chance() > 0 && kind == EnemyKind::TieDefender {
        SNIPER_CHARGE
    } else {
        0
    }
}

/// The shots the hulls `olds` throw as they become `news`, in order, each
/// kept hull `k` firing when `fires[k]` holds.
pub open spec fn volleys(g: Game, olds: Seq<Enemy>, news: Seq<Enemy>, fires: Seq<bool>) -> Seq<Shot>
    decreases olds.len(),
{
    if olds.len() == 0 {
        Seq::empty()
    } else if spent(g, olds.last()) {
        volleys(g, olds.drop_last(), news, fires)
    } else {
        volleys(g, olds.drop_last(), news.drop_last(), fires.drop_last())
            + thrown(news.last().kind, news.last().pos, olds.last().charge, g.ship, fires.last())
    }
}

/// The cells where those hulls lay mines, in order.
pub open spec fn drops(g: Game, olds: Seq<Enemy>, news: Seq<Enemy>, fires: Seq<bool>) -> Seq<(i16, i16)>
    decreases olds.len(),
{
    if olds.len() == 0 {
        Seq::empty()
    } else if spent(g, olds.last()) {
        drops(g, olds.drop_last(), news, fires)
    } else {
        drops(g, olds.drop_last(), news.drop_last(), fires.drop_last())
            + dropped(news.last().kind, news.last().pos, olds.last().charge, fires.last())
    }
}

/// Each kept hull's telegraph is its old one run on as `recharged` says.
pub open spec fn recharges(g: Game, olds: Seq<Enemy>, news: Seq<Enemy>, fires: Seq<bool>) -> bool
    decreases olds.len(),
{
    if olds.len() == 0 {
        fires.len() == 0
    } else if spent(g, olds.last()) {
        recharges(g, olds.drop_last(), news, fires)
    } else {
        &&& fires.len() > 0
        &&& news.last().charge == recharged(olds.last().kind, olds.last().charge, fires.last())
        &&& recharges(g, olds.drop_last(), news.drop_last(), fires.drop_last())
    }
}

/// The mines laid at `cells`, in order: those on the court, each with a
/// full fuse.
pub open spec fn mines_at(cells: Seq<(i16, i16)>) -> Seq<Mine>
    decreases cells.len(),
{
    if cells.len() == 0 {
        Seq::empty()
    } else if cells.last().0 < H {
        mines_at(cells.drop_last()).push(Mine { pos: cells.last(), fuse: MINE_FUSE })
    } else {
        mines_at(cells.drop_last())
    }
}

/// `h` is `g` with the boss flown a tick.
pub open spec fn boss_advanced(g: Game, h: Game) -> bool {
    &&& h.boss is Some <==> g.boss is Some
    &&& h.status == g.status
    &&& h.ship == g.ship
    &&& h.tick == g.tick
    &&& h.lives == g.lives
    &&& g.boss is None ==> h == g
    &&& g.boss matches Some(b) ==> (h.boss matches Some(nb) && {
        &&& nb.kind == b.kind && nb.hp == b.hp && nb.max_hp == b.max_hp && nb.parts == b.parts
        &&& nb.tick == (if b.tick == u32::MAX { 0 } else { b.tick + 1 })
        &&& b.cooldown > 0 ==> nb.cooldown == b.cooldown - 1
    })
}

/// `h` is `g` with the capital ship worked a tick.
pub open spec fn capital_advanced(g: Game, h: Game) -> bool {
    &&& h.capital is Some <==> g.capital is Some
    &&& h.status == g.status
    &&& h.ship.0 == g.ship.0
    &&& h.tick == g.tick
    &&& h.lives == g.lives
    &&& g.capital is None ==> h == g
    &&& g.capital matches Some(c) ==> (h.capital matches Some(nc) && {
        &&& nc.kind == c.kind && nc.hp == c.hp && nc.max_hp == c.max_hp && nc.pos.0 == c.pos.0
        &&& nc.tick == (if c.tick == u32::MAX { 0 } else { c.tick + 1 })
        &&& nc.parts@.len() == c.parts@.len()
        &&& forall|i: int| 0 <= i < c.parts@.len() ==> {
            let (p, q) = (#[trigger] c.parts@[i], nc.parts@[i]);
            q.kind == p.kind && q.hp == p.hp && q.offset == p.offset
                && q.ion == (if p.ion > 0 { p.ion - 1 } else { 0 })
        }
    })
}

impl Game {
    /// Whether a healer stands within reach of `pos`.
    fn near_healer(healers: &Vec<(i16, i16)>, pos: (i16, i16)) -> (r: bool)
        ensures
            r == exists|i: int| 0 <= i < healers@.len() && #[trigger] heals(healers@[i], pos),
    {
        let mut i: usize = 0;
        while i < healers.len()
            invariant
                i <= healers@.len(),
                forall|j: int| 0 <= j < i ==> !#[trigger] heals(healers@[j], pos),
            decreases healers@.len() - i,
        {
            let h = healers[i];
            if dist16(h.0, pos.0) <= HEAL_RANGE as i32 && dist16(h.1, pos.1) <= HEAL_RANGE as i32 {
                assert(heals(healers@[i as int], pos));
                return true;
            }
            i = i + 1;
        }
        false
    }

    /// Move one enemy a tick along its state: hold formation (and maybe peel
    /// off), dive, or weave; keep it in the channel; and bring a diver that
    /// runs off the bottom back round to its slot. The flag is set for a
    /// kamikaze that ran off the bottom and is gone.
    #[verifier::rlimit(60)]
    fn steer_enemy(&mut self, e: Enemy, ship: (i16, i16), sway: i16, tick: u32) -> (r: (Enemy, bool))
        requires
            old(self).wf(),
        ensures
            *final(self) == (Game { rng: final(self).rng, ..*old(self) }),
            r.0.kind == e.kind && r.0.home == e.home && r.0.hp == e.hp && r.0.max_hp == e.max_hp && r.0.charge == e.charge,
            r.1 ==> e.kind == EnemyKind::BuzzDroid,
            !r.1 ==> r.0.pos.0 < H || (r.0.pos.0 == e.home.0 && r.0.state == EnemyState::Formation),
            e.state is Formation ==> r.0.pos.0 == e.home.0,
            e.state is Diving && !r.1 ==> r.0.state == e.state || r.0.state == EnemyState::Formation,
            sway == old(self).sway_x && ship == old(self).ship && tick == old(self).tick ==> {
                &&& r.1 == (e.kind == EnemyKind::BuzzDroid && runs_off(*old(self), e))
                &&& !r.1 ==> flown(*old(self), e, r.0)
                &&& e.state is Formation && !runs_off(*old(self), e) ==> r.0.state == formation_roll(*old(self), e, old(self).rng).0
            },
            final(self).rng == steer_rng(*old(self), e, old(self).rng),
    {
        let mut e = e;
        match e.state {
            EnemyState::Formation => {
                e.pos = (e.home.0, add16(e.home.1, sway));
                let dive = e.kind.dive_chance();
                if dive > 0 && self.rand() % self.odds(dive) == 0 {
                    e.state = EnemyState::Diving { target_x: ship.1 };
                } else if e.kind == EnemyKind::TieInterceptor && self.rand() % self.odds(WEAVE_CHANCE) == 0 {
                    let dir: i16 = if self.rand() & 1 == 0 { 1 } else { -1 };
                    e.state = EnemyState::Weaving { dir };
                }
            },
            EnemyState::Diving { target_x } => {
                e.pos.0 = add16(e.pos.0, e.kind.dive_speed());
                e.pos.1 = add16(e.pos.1, sig_diff(target_x, e.pos.1));
            },
            EnemyState::Weaving { dir } => {
                if tick % 2 == 0 {
                    e.pos.0 = add16(e.pos.0, 1);
                }
                let next = add16(e.pos.1, dir);
                let dir = if 1 <= next && next < W - 1 { dir } else if dir == i16::MIN { i16::MAX } else { -dir };
                e.pos.1 = clamp16(add16(e.pos.1, dir), 1, W - 2);
                e.state = EnemyState::Weaving { dir };
            },
        }
        let (left, right) = self.terrain.channel(e.pos.0);
        e.pos.1 = clamp16(e.pos.1, left, right);
        if e.pos.0 >= H {
            if e.kind == EnemyKind::BuzzDroid {
                return (e, true);
            }
            e.pos = (e.home.0, add16(e.home.1, sway));
            e.state = EnemyState::Formation;
        }
        (e, false)
    }

    /// Let one enemy shoot: a sniper spends its telegraph first, and the rest
    /// roll their odds and throw what their kind throws.
    fn enemy_shoot(&mut self, e: &mut Enemy, ship: (i16, i16), spawned: &mut Vec<Shot>, mined: &mut Vec<(i16, i16)>) -> (fired: bool)
        requires
            slowable(old(spawned)@),
        ensures
            slowable(final(spawned)@),
            *final(self) == (Game { rng: final(self).rng, ..*old(self) }),
            *final(e) == (Enemy { charge: final(e).charge, ..*old(e) }),
            final(spawned)@ == old(spawned)@ + thrown(old(e).kind, old(e).pos, old(e).charge, ship, fired),
            final(mined)@ == old(mined)@ + dropped(old(e).kind, old(e).pos, old(e).charge, fired),
            final(e).charge == recharged(old(e).kind, old(e).charge, fired),
            old(e).charge == 0 ==> fired == (old(e).kind.spec_fire_chance() > 0
                && (lcg_next(old(self).rng) >> 33) % old(self).spec_odds(old(e).kind.spec_fire_chance()) == 0),
            old(e).charge > 0 ==> !fired,
            final(self).rng == (if rolls_to_fire(*old(e)) { lcg_next(old(self).rng) } else { old(self).rng }),
    {
        let ghost s0 = spawned@;
        let ghost m0 = mined@;
        if e.charge > 0 {
            e.charge = e.charge - 1;
            if e.charge == 0 {
                let drift = sig_diff(ship.1, e.pos.1);
                // A sniper round is heavy enough to cost two pips.
                spawned.push(Shot::enemy((add16(e.pos.0, 1), e.pos.1), drift, 2).heavy());
                assert(spawned@ =~= s0 + thrown(old(e).kind, old(e).pos, old(e).charge, ship, false));
            } else {
                assert(spawned@ =~= s0 + thrown(old(e).kind, old(e).pos, old(e).charge, ship, false));
            }
            assert(mined@ =~= m0 + dropped(old(e).kind, old(e).pos, old(e).charge, false));
            return false;
        }
        let fire = e.kind.fire_chance();
        let fired = fire > 0 && self.rand() % self.odds(fire) == 0;
        if fired {
            let muzzle = (add16(e.pos.0, 1), e.pos.1);
            match e.kind {
                // Turrets lead the ship, bombers throw a three-way spread,
                // snipers wind up first and miners leave a mine behind.
                EnemyKind::GunPlatform => {
                    spawned.push(Shot::enemy(muzzle, sig_diff(ship.1, e.pos.1), 1));
                },
                EnemyKind::TieBomber => {
                    spawned.push(Shot::enemy(muzzle, -1, 1));
                    spawned.push(Shot::enemy(muzzle, 0, 1));
                    spawned.push(Shot::enemy(muzzle, 1, 1));
                },
                // A fighter screen fires in pairs, a column apart.
                EnemyKind::TieAdvanced => {
                    spawned.push(Shot::enemy(muzzle, -1, 1));
                    spawned.push(Shot::enemy(muzzle, 1, 1));
                },
                EnemyKind::TieDefender => e.charge = SNIPER_CHARGE,
                EnemyKind::MineLayer => mined.push(muzzle),
                _ => spawned.push(Shot::enemy(muzzle, 0, 1)),
            }
        }
        assert(spawned@ =~= s0 + thrown(old(e).kind, old(e).pos, old(e).charge, ship, fired));
        assert(mined@ =~= m0 + dropped(old(e).kind, old(e).pos, old(e).charge, fired));
        fired
    }

    /// Advance every enemy: hold formation, dive, or weave; shoot, telegraph or
    /// lay a mine on the way; ram the ship if it is in the way. A diver that
    /// runs off the bottom comes back round to its slot, but a kamikaze that
    /// misses is gone for good. Healers patch up whoever flies near them.
    #[verifier::rlimit(100)]
    pub fn advance_enemies(&mut self)
        requires
            old(self).wf(),
        ensures
            final(self).wf(),
            enemies_advanced(*old(self), *final(self)),
    {
        let ship = self.ship;
        let sway = self.sway_x;
        let tick = self.tick;
        let healing = tick % HEAL_CADENCE == 0;
        let mut healers: Vec<(i16, i16)> = Vec::new();
        let mut h: usize = 0;
        while h < self.enemies.len()
            invariant
                h <= self.enemies@.len(),
                healers@ == repairers(self.enemies@, h as int),
            decreases self.enemies@.len() - h,
        {
            if self.enemies[h].kind == EnemyKind::RepairDroid {
                healers.push(self.enemies[h].pos);
            }
            h = h + 1;
        }
        let mut spawned: Vec<Shot> = Vec::new();
        let mut mined: Vec<(i16, i16)> = Vec::new();
        let mut kept: Vec<Enemy> = Vec::new();
        let mut rammed = false;
        let mut flock: Vec<Enemy> = Vec::new();
        std::mem::swap(&mut flock, &mut self.enemies);
        let ghost before = *self;
        let ghost mut fires: Seq<bool> = Seq::empty();
        let mut i: usize = 0;
        assert(flock@.subrange(0, 0) =~= Seq::<Enemy>::empty());
        while i < flock.len()
            invariant
                i <= flock@.len(),
                kept@.len() <= i,
                flock@ == old(self).enemies@,
                ship == old(self).ship,
                forall|k: int| 0 <= k < kept@.len() ==> (#[trigger] kept@[k]).kind == EnemyKind::BuzzDroid ==> kept@[k].pos != ship,
                forall|k: int| 0 <= k < kept@.len() ==> exists|j: int| 0 <= j < i
                    && (#[trigger] flock@[j]).kind == (#[trigger] kept@[k]).kind && flock@[j].home == kept@[k].home,
                carried(*old(self), healers@, flock@.subrange(0, i as int), kept@),
                tick == old(self).tick,
                healers@ == repairers(old(self).enemies@, old(self).enemies@.len() as int),
                healing == (old(self).tick % HEAL_CADENCE == 0),
                sway == old(self).sway_x,
                before == (Game { enemies: before.enemies, ..*old(self) }),
                *self == (Game { rng: self.rng, ..before }),
                before.wf(),
                slowable(spawned@),
                fires.len() == kept@.len(),
                spawned@ == volleys(*old(self), flock@.subrange(0, i as int), kept@, fires),
                mined@ == drops(*old(self), flock@.subrange(0, i as int), kept@, fires),
                recharges(*old(self), flock@.subrange(0, i as int), kept@, fires),
                self.rng == rng_after(*old(self), flock@.subrange(0, i as int)),
                fires == fire_rolls(*old(self), flock@.subrange(0, i as int)),
                formed(*old(self), flock@.subrange(0, i as int), kept@),
            decreases flock@.len() - i,
        {
            let e = flock[i];
            let ghost j0 = i as int;
            i = i + 1;
            let ghost pre = *self;
            let (mut e, mut gone) = self.steer_enemy(e, ship, sway, tick);
            let ghost steered = e;
            proof {
                assert(formation_roll(pre, flock@[j0], pre.rng) == formation_roll(*old(self), flock@[j0], pre.rng));
                assert(self.rng == steer_rng(*old(self), flock@[j0], rng_after(*old(self), flock@.subrange(0, j0))));
                assert(pre.terrain == old(self).terrain && pre.sway_x == old(self).sway_x && pre.ship == old(self).ship);
                assert(pre.tick == old(self).tick);
                assert(runs_off(pre, flock@[j0]) == runs_off(*old(self), flock@[j0]));
                assert(next_spot(pre, flock@[j0]) == next_spot(*old(self), flock@[j0]));
                if !gone {
                    assert(flown(pre, flock@[j0], steered));
                    assert(flown(*old(self), flock@[j0], steered));
                }
            }
            if !gone && e.pos.0 == ship.0 && e.pos.1 == ship.1 {
                rammed = true;
                if e.kind == EnemyKind::BuzzDroid {
                    gone = true;
                }
            }
            let ghost olds = flock@.subrange(0, i as int);
            proof {
                assert(olds.drop_last() =~= flock@.subrange(0, j0));
                assert(olds.last() == flock@[j0]);
                assert(gone == spent(*old(self), flock@[j0]));
            }
            if !gone {
                if healing && e.kind != EnemyKind::RepairDroid && e.hp < e.max_hp {
                    if Self::near_healer(&healers, e.pos) {
                        e.hp = e.hp + 1;
                    }
                }
                let ghost shooter = e;
                let ghost s_pre = spawned@;
                let ghost m_pre = mined@;
                let ghost pre_shot = *self;
                let fired = self.enemy_shoot(&mut e, ship, &mut spawned, &mut mined);
                proof {
                    assert(pre_shot.spec_odds(shooter.kind.spec_fire_chance()) == old(self).spec_odds(shooter.kind.spec_fire_chance()));
                    assert(rolls_to_fire(shooter) == rolls_to_fire(flock@[j0]));
                }
                let ghost before_kept = kept@;
                let ghost before_fires = fires;
                kept.push(e);
                proof {
                    fires = fires.push(fired);
                    assert(kept@.drop_last() =~= before_kept);
                    assert(fires.drop_last() =~= before_fires);
                    assert(shooter.charge == flock@[j0].charge);
                    assert(!spent(*old(self), olds.last()));
                    assert(spawned@ == volleys(*old(self), olds, kept@, fires));
                    assert(mined@ == drops(*old(self), olds, kept@, fires));
                    assert(recharges(*old(self), olds, kept@, fires));
                    assert(self.rng == rng_after(*old(self), olds));
                    assert(fires == fire_rolls(*old(self), olds));
                    assert(formed(*old(self), olds, kept@));
                    assert(flock@[j0].kind == kept@[kept@.len() - 1].kind);
                    assert forall|k: int| 0 <= k < kept@.len() implies exists|j: int| 0 <= j < i
                        && (#[trigger] flock@[j]).kind == (#[trigger] kept@[k]).kind && flock@[j].home == kept@[k].home by {
                        if k < before_kept.len() {
                            assert(kept@[k] == before_kept[k]);
                        }
                    }
                    let f = kept@[kept@.len() - 1];
                    let o = flock@[j0];
                    assert(f.kind == o.kind);
                    assert(f.home == o.home);
                    assert(f.max_hp == o.max_hp);
                    assert(f.pos == steered.pos && f.state == steered.state);
                    assert(flown(*old(self), o, f));
                    assert(f.hp == (if old(self).tick % HEAL_CADENCE == 0 && o.kind != EnemyKind::RepairDroid && o.hp < o.max_hp
                        && exists|i: int| 0 <= i < healers@.len() && #[trigger] heals(healers@[i], f.pos) { o.hp + 1 } else { o.hp as int }));
                    assert(advanced(*old(self), healers@, flock@[j0], kept@[kept@.len() - 1]));
                    assert(kept@.drop_last() =~= before_kept);
                }
            }
        }
        assert(flock@.subrange(0, flock@.len() as int) =~= flock@);
        self.enemies = kept;
        let ghost pre_launch = *self;
        self.launch_volley(&spawned);
        assert(spawned@.map_values(|s: Shot| fielded(pre_launch, s)) =~= spawned@.map_values(|s: Shot| fielded(*old(self), s)));
        let ghost mid = *self;
        let mut k: usize = 0;
        assert(mined@.subrange(0, 0) =~= Seq::<(i16, i16)>::empty());
        while k < mined.len()
            invariant
                k <= mined@.len(),
                *self == (Game { mines: self.mines, ..mid }),
                self.mines@ == mid.mines@ + mines_at(mined@.subrange(0, k as int)),
            decreases mined@.len() - k,
        {
            let pos = mined[k];
            let ghost pre = self.mines@;
            if pos.0 < H {
                self.mines.push(Mine { pos, fuse: MINE_FUSE });
            }
            k = k + 1;
            assert(mined@.subrange(0, k as int).drop_last() =~= mined@.subrange(0, k - 1));
            assert(mined@.subrange(0, k as int).last() == pos);
            assert(self.mines@ =~= mid.mines@ + mines_at(mined@.subrange(0, k as int)));
        }
        assert(mined@.subrange(0, mined@.len() as int) =~= mined@);
        assert(recharges(*old(self), old(self).enemies@, self.enemies@, fires));
        if rammed {
            self.damage_ship(1);
        }
    }

    /// Put a hull of `kind`, diving at the ship's column, on the court at
    /// each of `homes`.
    fn scramble(&mut self, kind: EnemyKind, homes: &Vec<(i16, i16)>)
        requires
            old(self).wf(),
        ensures
            *final(self) == (Game { enemies: final(self).enemies, ..*old(self) }),
            final(self).enemies@.len() == old(self).enemies@.len() + homes@.len(),
    {
        let target_x = self.ship.1;
        let mut k: usize = 0;
        while k < homes.len()
            invariant
                k <= homes@.len(),
                old(self).wf(),
                target_x == old(self).ship.1,
                *self == (Game { enemies: self.enemies, ..*old(self) }),
                self.enemies@.len() == old(self).enemies@.len() + k,
            decreases homes@.len() - k,
        {
            let mut hull = self.hatch(kind, homes[k]);
            hull.state = EnemyState::Diving { target_x };
            self.enemies.push(hull);
            k = k + 1;
        }
    }

    /// The boss's volley for this kind and phase, fired from `row` with the
    /// live parts at `cells` (a dozen at most; the bound keeps the count of
    /// shots inside `usize` arithmetic).
    fn boss_volley(boss: &Boss, cells: &Vec<(i16, i16)>, row: i16, ship_col: i16) -> (v: Vec<Shot>)
        requires
            cells@.len() < 1000,
        ensures
            slowable(v@),
            v@.len() == volley_size(boss.kind, boss.spec_phase() as int, cells@.len() as int),
            forall|k: int| 0 <= k < v@.len() ==> (#[trigger] v@[k]).kind == ShotKind::Enemy,
    {
        let aim = sig_diff(ship_col, boss.pos.1);
        let phase = boss.phase();
        let x = boss.pos.1;
        let mut volley: Vec<Shot> = Vec::new();
        match boss.kind {
            BossKind::Dreadnought => {
                if phase == 1 {
                    volley.push(Shot::enemy((row, add16(x, -6)), aim, 1));
                    volley.push(Shot::enemy((row, add16(x, -2)), aim, 1));
                    volley.push(Shot::enemy((row, add16(x, 2)), aim, 1));
                    volley.push(Shot::enemy((row, add16(x, 6)), aim, 1));
                } else if phase == 2 {
                    volley.push(Shot::enemy((row, x), -2, 1));
                    volley.push(Shot::enemy((row, x), -1, 1));
                    volley.push(Shot::enemy((row, x), 0, 1));
                    volley.push(Shot::enemy((row, x), 1, 1));
                    volley.push(Shot::enemy((row, x), 2, 1));
                } else {
                    volley.push(Shot::enemy((row, W / 6), 0, 2).heavy());
                    volley.push(Shot::enemy((row, W / 2), 0, 2).heavy());
                    volley.push(Shot::enemy((row, 5 * W / 6), 0, 2).heavy());
                    volley.push(Shot::enemy((row, x), aim, 2).heavy());
                }
            },
            BossKind::Twin => {
                // Every live turret throws an aimed shot; once the core is
                // exposed it adds a fan of its own.
                let mut k: usize = 0;
                while k < cells.len()
                    invariant
                        k <= cells@.len(),
                        slowable(volley@),
                        volley@.len() == k,
                        forall|j: int| 0 <= j < volley@.len() ==> (#[trigger] volley@[j]).kind == ShotKind::Enemy,
                    decreases cells@.len() - k,
                {
                    let (r, c) = cells[k];
                    volley.push(Shot::enemy((add16(r, 1), c), sig_diff(ship_col, c), 1));
                    k = k + 1;
                }
                if phase >= 2 || cells.len() == 0 {
                    volley.push(Shot::enemy((row, x), -2, 1));
                    volley.push(Shot::enemy((row, x), 0, 1));
                    volley.push(Shot::enemy((row, x), 2, 1));
                }
            },
            BossKind::Carrier => {
                // A curtain of shots across the hull, denser as it burns.
                let step: i16 = if phase == 1 { 4 } else { 2 };
                let mut dx: i16 = -6;
                while dx <= 6
                    invariant
                        -6 <= dx <= 6 + step,
                        step == (if phase == 1 { 4i16 } else { 2i16 }),
                        (dx + 6) % (step as int) == 0,
                        volley@.len() == (dx + 6) / (step as int),
                        slowable(volley@),
                        forall|j: int| 0 <= j < volley@.len() ==> (#[trigger] volley@[j]).kind == ShotKind::Enemy,
                    decreases 10 - dx,
                {
                    volley.push(Shot::enemy((row, add16(x, dx)), 0, 1));
                    dx = dx + step;
                }
            },
            BossKind::AceTie => {
                // He leads the hull and jinks away from where it was.
                let speed: i16 = if phase == 3 { 2 } else { 1 };
                volley.push(Shot::enemy((row, x), aim, speed));
                volley.push(Shot::enemy((row, x), aim * 2, speed));
            },
            BossKind::Serpent => {
                // The head spits at the ship; the body drools once enraged.
                let head = Shot::enemy((row, x), aim, if phase == 3 { 2 } else { 1 });
                volley.push(if phase == 3 { head.heavy() } else { head });
                if phase >= 2 {
                    let mut k: usize = 0;
                    while k < cells.len()
                        invariant
                            k <= cells@.len() + 1,
                            k % 2 == 0,
                            cells@.len() < 1000,
                            slowable(volley@),
                            volley@.len() == 1 + k / 2,
                            forall|j: int| 0 <= j < volley@.len() ==> (#[trigger] volley@[j]).kind == ShotKind::Enemy,
                        decreases cells@.len() + 1 - k,
                    {
                        let (r, c) = cells[k];
                        volley.push(Shot::enemy((add16(r, 1), c), 0, 1));
                        k = k + 2;
                    }
                }
            },
        }
        volley
    }

    /// Sweep the boss across the top of the court and run its pattern for its
    /// kind and phase; carriers launch from their bays, and the other hulls
    /// scramble escorts once they are hurt.
    pub fn advance_boss(&mut self)
        requires
            old(self).wf(),
        ensures
            final(self).wf(),
            boss_advanced(*old(self), *final(self)),
    {
        let mut boss = match self.boss.take() {
            Some(b) => b,
            None => {
                return;
            },
        };
        boss.tick = boss.tick.wrapping_add(1);
        let ship = self.ship;
        let margin = boss.kind.core_half() + 1;
        let next = add16(boss.pos.1, mul16(boss.dir, boss.speed()));
        if margin <= next && next < W - margin {
            boss.pos.1 = next;
        } else {
            boss.dir = if boss.dir == i16::MIN { i16::MAX } else { -boss.dir };
        }
        // The carrier also creeps down the court and back up as it launches.
        if boss.kind == BossKind::Carrier && boss.tick % 24 == 0 {
            boss.pos.0 = FORMATION_TOP + (boss.tick / 24 % 3) as i16;
        }
        let cells = boss.part_cells();
        if boss.cooldown > 0 {
            boss.cooldown = boss.cooldown - 1;
        } else {
            boss.cooldown = boss.cadence();
            let row = add16(add16(boss.pos.0, boss.kind.core_depth()), 1);
            let volley = Self::boss_volley(&boss, &cells, row, ship.1);
            self.launch_volley(&volley);
        }
        let launching = match boss.kind {
            BossKind::Carrier => boss.parts.len() > 0,
            BossKind::Serpent => false,
            _ => boss.phase() >= 2,
        };
        if launching {
            if boss.minion_timer > 0 {
                boss.minion_timer = boss.minion_timer - 1;
            } else {
                boss.minion_timer = if boss.kind == BossKind::Carrier { 40 } else { 80 };
                let bays: Vec<(i16, i16)> = if boss.kind == BossKind::Carrier {
                    cells
                } else {
                    let b = add16(boss.pos.0, 3);
                    vec![(b, sub16(boss.pos.1, 6)), (b, add16(boss.pos.1, 6))]
                };
                let mut homes: Vec<(i16, i16)> = Vec::new();
                let mut k: usize = 0;
                while k < bays.len()
                    invariant
                        k <= bays@.len(),
                    decreases bays@.len() - k,
                {
                    let (r, c) = bays[k];
                    homes.push((clamp16(r, 0, H - 2), clamp16(c, 1, W - 2)));
                    k = k + 1;
                }
                self.scramble(EnemyKind::BuzzDroid, &homes);
            }
        }
        self.boss = Some(boss);
    }

    /// Work the capital ship: hold station while its engines hold, run the
    /// batteries, launch fighters out of the bays, and drag the hull in on
    /// the tractor beams and gravity projectors.
    pub fn advance_capital(&mut self)
        requires
            old(self).wf(),
        ensures
            final(self).wf(),
            capital_advanced(*old(self), *final(self)),
    {
        let mut cap = match self.capital.take() {
            Some(c) => c,
            None => {
                return;
            },
        };
        cap.tick = cap.tick.wrapping_add(1);
        let ghost p0 = cap.parts@;
        let ghost c0 = cap;
        let n = cap.parts.len();
        let mut i: usize = 0;
        while i < n
            invariant
                cap == (Capital { parts: cap.parts, ..c0 }),
                i <= n,
                n == cap.parts@.len(),
                p0.len() == n,
                forall|j: int| i <= j < n ==> #[trigger] cap.parts@[j] == p0[j],
                forall|j: int| 0 <= j < i ==> {
                    let (p, q) = (#[trigger] p0[j], cap.parts@[j]);
                    q.kind == p.kind && q.hp == p.hp && q.offset == p.offset
                        && q.ion == (if p.ion > 0 { p.ion - 1 } else { 0 })
                },
            decreases n - i,
        {
            let mut part = cap.parts[i];
            part.ion = part.ion.saturating_sub(1);
            cap.parts.set(i, part);
            i = i + 1;
        }
        // It creeps across the top of the court while its engines hold.
        if cap.under_way() && cap.tick % 6 == 0 {
            let span = cap.kind.span(cap.kind.depth() - 1);
            let next = add16(cap.pos.1, cap.dir);
            if span + 1 <= next && next < W - span - 1 {
                cap.pos.1 = next;
            } else {
                cap.dir = if cap.dir == i16::MIN { i16::MAX } else { -cap.dir };
            }
        }
        let ship = self.ship;
        let cadence = cap.cadence();
        let mut volley: Vec<Shot> = Vec::new();
        let mut launches: Vec<(i16, i16)> = Vec::new();
        let mut pull: i16 = 0;
        let ghost p1 = cap.parts@;
        let ghost c1 = cap;
        let mut i: usize = 0;
        while i < n
            invariant
                cap == (Capital { parts: cap.parts, ..c1 }),
                i <= n,
                n == cap.parts@.len(),
                1 <= cadence <= 40,
                slowable(volley@),
                p1.len() == n,
                forall|j: int| 0 <= j < n ==> {
                    let (p, q) = (#[trigger] p1[j], cap.parts@[j]);
                    q.kind == p.kind && q.hp == p.hp && q.offset == p.offset && q.ion == p.ion
                },
            decreases n - i,
        {
            let mut part = cap.parts[i];
            if part.hp > 0 && part.live() {
                let row = add16(cap.pos.0, part.offset.0);
                let col = add16(cap.pos.1, part.offset.1);
                match part.kind {
                    Emplacement::Turbolaser => {
                        if part.cooldown > 0 {
                            part.cooldown = part.cooldown - 1;
                        } else {
                            part.cooldown = cadence;
                            // Heavy batteries lead the hull and hit for two pips.
                            let aim = sig_diff(ship.1, col);
                            volley.push(Shot::enemy((add16(row, 1), col), aim, 1).heavy());
                            volley.push(Shot::enemy((add16(row, 1), col), 0, 2).heavy());
                        }
                    },
                    Emplacement::HangarBay => {
                        if part.cooldown > 0 {
                            part.cooldown = part.cooldown - 1;
                        } else {
                            part.cooldown = cadence * 4;
                            launches.push((add16(row, 1), col));
                        }
                    },
                    Emplacement::TractorBeam => {
                        if cap.tick % 3 == 0 {
                            pull = add16(pull, sig_diff(col, ship.1));
                        }
                    },
                    Emplacement::GravityProjector => {
                        if cap.tick % 2 == 0 {
                            pull = add16(pull, mul16(sig_diff(col, ship.1), 2));
                        }
                    },
                    _ => {},
                }
                cap.parts.set(i, part);
            }
            i = i + 1;
        }
        self.launch_volley(&volley);
        let ghost before = *self;
        let mut k: usize = 0;
        while k < launches.len()
            invariant
                k <= launches@.len(),
                before.wf(),
                *self == (Game { enemies: self.enemies, ..before }),
            decreases launches@.len() - k,
        {
            let (row, col) = launches[k];
            let home_row = if row <= H - 2 { row } else { H - 2 };
            let homes = vec![
                (home_row, clamp16(add16(col, -2), 1, W - 2)),
                (home_row, clamp16(add16(col, 2), 1, W - 2)),
            ];
            self.scramble(EnemyKind::TieAdvanced, &homes);
            k = k + 1;
        }
        if pull != 0 {
            let (left, right) = self.terrain.channel(self.ship.0);
            self.ship.1 = clamp16(add16(self.ship.1, pull), left, right);
        }
        self.capital = Some(cap);
    }
}

} // verus!
