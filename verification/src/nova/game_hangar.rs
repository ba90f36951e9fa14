//! The hangar: its stock and what a sale does, the guns in the racks, and
//! the squad's hulls with the one being flown.

use vstd::prelude::*;

use super::consts::{HULL_NAMES, MAX_DRONES, MAX_SQUAD, MAX_TIER, MAX_WEAPON_LEVEL, MISSILE_PACK, RAPID_TICKS, SHOP_KEYS};
use super::entities::{ShopLine, Wing};
use super::game::Game;
use super::kinds::{Module, Part, ShipClass, ShopEntry, Status, Stock, Weapon};
use crate::arith::{clamp_int, sat_u32};
use crate::text::{decimal, decimal_string};

verus! {

/// One line of stock as the rules see it: what is sold, its price, and
/// whether it can be bought right now.
pub type Item = (ShopEntry, u32, bool);

/// A base price after the campaign's markup, held at `u32::MAX`.
pub open spec fn shop_price(g: Game, base: u32) -> u32 {
    clamp_int(g.spec_priced(base), 0, u32::MAX as int) as u32
}

/// The next tier of a component: dearer with every tier, and off the list
/// once it is maxed out.
pub open spec fn part_item(g: Game, p: Part) -> Item {
    let tier = g.loadout.spec_tier(p);
    let price = shop_price(g, (300 + 250 * tier) as u32);
    (ShopEntry::Component(p), price, tier < MAX_TIER && g.credits >= price)
}

/// The modules of `ms` not fitted yet, in order, each at its price.
pub open spec fn module_items(g: Game, ms: Seq<Module>) -> Seq<Item>
    decreases ms.len(),
{
    if ms.len() == 0 {
        Seq::empty()
    } else {
        let rest = module_items(g, ms.drop_last());
        let m = ms.last();
        if g.loadout.spec_has(m) {
            rest
        } else {
            let price = shop_price(g, m.spec_price());
            rest.push((ShopEntry::Fitting(m), price, g.credits >= price))
        }
    }
}

/// Whether a consumable would do anything for the squad right now.
pub open spec fn stock_usable(g: Game, s: Stock) -> bool {
    match s {
        Stock::Repair => g.shield < g.max_shield,
        Stock::GunLevel => g.weapon_level < MAX_WEAPON_LEVEL,
        Stock::Drone => g.drones@.len() < MAX_DRONES,
        Stock::Hull => g.squad@.len() < MAX_SQUAD,
        Stock::Rescue => exists|i: int| 0 <= i < g.squad@.len() && !(#[trigger] g.squad@[i]).alive,
        _ => true,
    }
}

/// A consumable at its price, buyable when it is of use and affordable.
pub open spec fn stock_item(g: Game, s: Stock) -> Item {
    let price = shop_price(g, s.spec_price());
    (ShopEntry::Consumable(s), price, stock_usable(g, s) && g.credits >= price)
}

/// The hangar's stock, in the order it is listed and keyed: the five
/// components, the modules not yet fitted, then the consumables.
pub open spec fn shop(g: Game) -> Seq<Item> {
    Part::ALL@.map_values(|p: Part| part_item(g, p)) + module_items(g, Module::ALL@)
        + Stock::ALL@.map_values(|s: Stock| stock_item(g, s))
}

/// The label a line carries in the hangar.
pub open spec fn shop_label(g: Game, entry: ShopEntry) -> Seq<char> {
    match entry {
        ShopEntry::Component(p) => {
            let tier = g.loadout.spec_tier(p);
            if tier >= MAX_TIER {
                p.spec_name()@ + " (tier "@ + decimal(tier as nat) + ", maxed)"@
            } else {
                p.spec_name()@ + " tier "@ + decimal(tier as nat) + " → "@ + decimal((tier + 1) as nat)
            }
        },
        ShopEntry::Fitting(m) => m.spec_name()@,
        ShopEntry::Consumable(s) => {
            if s == Stock::GunSwap {
                "swap gun ("@ + decimal(g.owned@.len()) + " in the racks)"@
            } else {
                s.spec_name()@
            }
        },
    }
}

/// The one-line description a line carries.
pub open spec fn shop_detail(entry: ShopEntry) -> &'static str {
    match entry {
        ShopEntry::Component(p) => p.spec_detail(),
        ShopEntry::Fitting(m) => m.spec_detail(),
        ShopEntry::Consumable(s) => s.spec_detail(),
    }
}

/// Line `k` of the hangar shows `item` under the `k`th key.
pub open spec fn line_is(g: Game, line: ShopLine, k: int, item: Item) -> bool {
    &&& line.key == SHOP_KEYS[k]
    &&& line.entry == item.0
    &&& line.price == item.1
    &&& line.available == item.2
    &&& line.label@ == shop_label(g, item.0)
    &&& line.detail == shop_detail(item.0)
}

/// Where `key` first stands among the first `n` hangar keys, or `-1`.
pub open spec fn key_slot(key: char, n: nat) -> int
    decreases n,
{
    if n == 0 {
        -1
    } else {
        let f = key_slot(key, (n - 1) as nat);
        if f >= 0 {
            f
        } else if n <= 20 && SHOP_KEYS[n - 1] == key {
            n - 1
        } else {
            -1
        }
    }
}

/// What a consumable does to the squad once it is paid for.
pub open spec fn bought_stock(old: Game, new: Game, s: Stock) -> bool {
    match s {
        Stock::Repair => new.shield == old.max_shield,
        Stock::GunLevel => new.weapon_level == (if old.weapon_level < MAX_WEAPON_LEVEL { old.weapon_level + 1 } else { MAX_WEAPON_LEVEL as int }),
        Stock::GunSwap => old.owned@.len() > 0 ==> new.weapon == rack_step(old.owned@, old.weapon, 1),
        Stock::Drone => new.drones@.len() == old.drones@.len() + 1,
        Stock::Bomb => new.bombs == sat_u32(old.bombs + 1),
        Stock::Rapid => new.rapid == RAPID_TICKS,
        Stock::Life => new.lives == sat_u32(old.lives + 1),
        Stock::Missiles => new.missiles == sat_u32(old.missiles + MISSILE_PACK),
        Stock::Rescue => forall|i: int| 0 <= i < new.squad@.len() ==> (#[trigger] new.squad@[i]).alive,
        Stock::Hull => new.squad@.len() == old.squad@.len() + 1,
    }
}

proof fn module_items_len(g: Game, ms: Seq<Module>)
    ensures
        module_items(g, ms).len() <= ms.len(),
    decreases ms.len(),
{
    if ms.len() > 0 {
        module_items_len(g, ms.drop_last());
    }
}

impl Game {
    /// Build the label a line carries in the hangar.
    fn label_for(&self, entry: ShopEntry) -> (r: String)
        requires
            self.wf(),
        ensures
            r@ == shop_label(*self, entry),
    {
        match entry {
            ShopEntry::Component(p) => {
                let tier = self.loadout.tier(p);
                assert(self.loadout.tiers[p.index()] <= MAX_TIER);
                let mut s = String::from_str(p.name());
                if tier >= MAX_TIER {
                    s.append(" (tier ");
                    let t = decimal_string(tier as u64);
                    s.append(t.as_str());
                    s.append(", maxed)");
                } else {
                    s.append(" tier ");
                    let t = decimal_string(tier as u64);
                    s.append(t.as_str());
                    s.append(" → ");
                    let n = decimal_string(tier as u64 + 1);
                    s.append(n.as_str());
                }
                s
            },
            ShopEntry::Fitting(m) => String::from_str(m.name()),
            ShopEntry::Consumable(s) => {
                if s == Stock::GunSwap {
                    let mut l = String::from_str("swap gun (");
                    let n = decimal_string(self.owned.len() as u64);
                    l.append(n.as_str());
                    l.append(" in the racks)");
                    l
                } else {
                    String::from_str(s.name())
                }
            },
        }
    }

    /// Whether a consumable would do anything for the squad right now.
    fn usable(&self, s: Stock) -> (r: bool)
        ensures
            r == stock_usable(*self, s),
    {
        match s {
            Stock::Repair => self.shield < self.max_shield,
            Stock::GunLevel => self.weapon_level < MAX_WEAPON_LEVEL,
            Stock::Drone => self.drones.len() < MAX_DRONES,
            Stock::Hull => self.squad.len() < MAX_SQUAD,
            Stock::Rescue => {
                let mut any = false;
                let mut i: usize = 0;
                while i < self.squad.len()
                    invariant
                        i <= self.squad@.len(),
                        any == (exists|j: int| 0 <= j < i && !(#[trigger] self.squad@[j]).alive),
                    decreases self.squad@.len() - i,
                {
                    if !self.squad[i].alive {
                        any = true;
                    }
                    i = i + 1;
                }
                any
            },
            _ => true,
        }
    }

    /// The hangar's stock, in the order it is listed and keyed: component
    /// tiers, the modules not fitted yet, then the consumables.
    pub fn shop_lines(&self) -> (r: Vec<ShopLine>)
        requires
            self.wf(),
        ensures
            r@.len() == shop(*self).len(),
            r@.len() <= 20,
            forall|k: int| 0 <= k < r@.len() ==> line_is(*self, #[trigger] r@[k], k, shop(*self)[k]),
    {
        let g = Ghost(*self);
        let parts = Part::ALL;
        let mut lines: Vec<ShopLine> = Vec::new();
        let mut i: usize = 0;
        while i < 5
            invariant
                i <= 5,
                parts == Part::ALL,
                g@ == *self,
                self.wf(),
                lines@.len() == i,
                forall|k: int| 0 <= k < i ==> line_is(g@, #[trigger] lines@[k], k, part_item(g@, Part::ALL[k])),
            decreases 5 - i,
        {
            let part = parts[i];
            let tier = self.loadout.tier(part);
            assert(self.loadout.tiers[part.index()] <= MAX_TIER);
            let price = self.priced(part.price(tier));
            let available = tier < MAX_TIER && self.credits >= price;
            let label = self.label_for(ShopEntry::Component(part));
            lines.push(ShopLine {
                key: SHOP_KEYS[i],
                entry: ShopEntry::Component(part),
                label,
                detail: part.detail(),
                price,
                available,
            });
            i = i + 1;
        }
        let modules = Module::ALL;
        let mut j: usize = 0;
        while j < 5
            invariant
                j <= 5,
                modules == Module::ALL,
                g@ == *self,
                self.wf(),
                lines@.len() == 5 + module_items(g@, Module::ALL@.take(j as int)).len(),
                lines@.len() <= 5 + j,
                forall|k: int| 0 <= k < 5 ==> line_is(g@, #[trigger] lines@[k], k, part_item(g@, Part::ALL[k])),
                forall|k: int| 5 <= k < lines@.len() ==> line_is(g@, #[trigger] lines@[k], k, module_items(g@, Module::ALL@.take(j as int))[k - 5]),
            decreases 5 - j,
        {
            let module = modules[j];
            assert(Module::ALL@.take(j + 1).drop_last() =~= Module::ALL@.take(j as int));
            assert(Module::ALL@.take(j + 1).last() == module);
            if !self.loadout.has(module) {
                let price = self.priced(module.price());
                let label = self.label_for(ShopEntry::Fitting(module));
                let k = lines.len();
                lines.push(ShopLine {
                    key: SHOP_KEYS[k],
                    entry: ShopEntry::Fitting(module),
                    label,
                    detail: module.detail(),
                    price,
                    available: self.credits >= price,
                });
            }
            j = j + 1;
        }
        assert(Module::ALL@.take(5) =~= Module::ALL@);
        let stocks = Stock::ALL;
        let ghost m = module_items(g@, Module::ALL@).len();
        proof {
            module_items_len(g@, Module::ALL@);
        }
        let mut s: usize = 0;
        while s < 10
            invariant
                s <= 10,
                stocks == Stock::ALL,
                g@ == *self,
                self.wf(),
                m == module_items(g@, Module::ALL@).len(),
                m <= 5,
                lines@.len() == 5 + m + s,
                forall|k: int| 0 <= k < 5 ==> line_is(g@, #[trigger] lines@[k], k, part_item(g@, Part::ALL[k])),
                forall|k: int| 5 <= k < 5 + m ==> line_is(g@, #[trigger] lines@[k], k, module_items(g@, Module::ALL@)[k - 5]),
                forall|k: int| 5 + m <= k < lines@.len() ==> line_is(g@, #[trigger] lines@[k], k, stock_item(g@, Stock::ALL[k - 5 - m])),
            decreases 10 - s,
        {
            let stock = stocks[s];
            let price = self.priced(stock.price());
            let usable = self.usable(stock);
            let label = self.label_for(ShopEntry::Consumable(stock));
            let k = lines.len();
            lines.push(ShopLine {
                key: SHOP_KEYS[k],
                entry: ShopEntry::Consumable(stock),
                label,
                detail: stock.detail(),
                price,
                available: usable && self.credits >= price,
            });
            s = s + 1;
        }
        assert forall|k: int| 0 <= k < lines@.len() implies line_is(g@, #[trigger] lines@[k], k, shop(g@)[k]) by {
            let parts_seq = Part::ALL@.map_values(|p: Part| part_item(g@, p));
            let mods = module_items(g@, Module::ALL@);
            let stock_seq = Stock::ALL@.map_values(|s: Stock| stock_item(g@, s));
            assert(shop(g@) == parts_seq + mods + stock_seq);
            if k < 5 {
                assert(shop(g@)[k] == parts_seq[k]);
            } else if k < 5 + m {
                assert(shop(g@)[k] == mods[k - 5]);
            } else {
                assert(shop(g@)[k] == stock_seq[k - 5 - m]);
            }
        }
        lines
    }
}

/// Turning the racks `d` places and then `d` places back fits the gun that
/// was fitted again, when the racks hold it once.
pub proof fn racks_turn_back(owned: Seq<Weapon>, w: Weapon, d: i32)
    requires
        owned.contains(w),
        forall|i: int, j: int| 0 <= i < j < owned.len() ==> owned[i] != owned[j],
        d > i32::MIN,
    ensures
        rack_step(owned, rack_step(owned, w, d), (0 - d) as i32) == w,
{
    let n = owned.len() as int;
    let i0 = choose|i: int| 0 <= i < owned.len() && owned[i] == w;
    assert(forall|j: int| 0 <= j < i0 ==> owned[j] != w);
    let at = first_slot(owned, w);
    assert(owned[at] == w);
    assert(at == i0);
    crate::arith::back_round(at, d as int, n);
    let m = (at + d) % n;
    let v = owned[m];
    assert(owned.contains(v));
    assert(forall|j: int| 0 <= j < m ==> owned[j] != v);
    let at2 = first_slot(owned, v);
    assert(owned[at2] == v);
    assert(at2 == m);
}

/// `h` is `g` with the gun `delta` places along the racks fitted; nothing
/// changes with empty racks.
pub open spec fn racks_turned(g: Game, delta: i32, h: Game) -> bool {
    &&& g.owned@.len() == 0 ==> h == g
    &&& g.owned@.len() > 0 ==> h.weapon == rack_step(g.owned@, g.weapon, delta)
    &&& h == (Game { weapon: h.weapon, ..g })
}

/// `h` is `g` with the gun in rack `index` fitted, when there is one.
pub open spec fn gun_picked(g: Game, index: usize, h: Game) -> bool {
    &&& index < g.owned@.len() ==> h.weapon == g.owned@[index as int]
    &&& index >= g.owned@.len() ==> h == g
    &&& h == (Game { weapon: h.weapon, ..g })
}

/// The gun `delta` places along the racks from the one fitted (or from the
/// first, when the fitted gun is not in them), wrapping round.
pub open spec fn rack_step(owned: Seq<Weapon>, weapon: Weapon, delta: i32) -> Weapon {
    let at: int = if owned.contains(weapon) { first_slot(owned, weapon) } else { 0 };
    owned[(at + delta) % (owned.len() as int)]
}

/// The first slot of the racks holding `weapon`.
pub open spec fn first_slot(owned: Seq<Weapon>, weapon: Weapon) -> int {
    choose|i: int| 0 <= i < owned.len() && owned[i] == weapon && forall|j: int| 0 <= j < i ==> owned[j] != weapon
}

/// The first hull class the squad does not fly yet, or the X-wing when it
/// flies them all.
pub open spec fn unflown(squad: Seq<Wing>) -> ShipClass {
    if !is_flown(squad, ShipClass::AWing) {
        ShipClass::AWing
    } else if !is_flown(squad, ShipClass::XWing) {
        ShipClass::XWing
    } else if !is_flown(squad, ShipClass::YWing) {
        ShipClass::YWing
    } else if !is_flown(squad, ShipClass::BWing) {
        ShipClass::BWing
    } else if !is_flown(squad, ShipClass::Freighter) {
        ShipClass::Freighter
    } else {
        ShipClass::XWing
    }
}

/// Some hull in the squad is of class `c`.
pub open spec fn is_flown(squad: Seq<Wing>, c: ShipClass) -> bool {
    exists|i: int| 0 <= i < squad.len() && (#[trigger] squad[i]).class == c
}

/// `h` is `g` with the pilot climbed into hull `index` of the squad: the
/// hull flown until now is stored with its build, and the new one's gun,
/// loadout and plating are taken up.
pub open spec fn switched(g: Game, index: usize, h: Game) -> bool {
    let w = g.squad@[index as int];
    &&& h.active == index
    &&& h.class == w.class
    &&& h.weapon == w.weapon
    &&& h.weapon_level == w.weapon_level
    &&& h.loadout.tiers == w.loadout.tiers
    &&& h.loadout.modules@ == w.loadout.modules@
    &&& h.bonus_plating == 0
    &&& h.shield == (if w.shield <= h.max_shield { w.shield } else { h.max_shield })
    &&& h.squad@[g.active as int].weapon == g.weapon
    &&& h.squad@[g.active as int].class == g.class
    &&& h.squad@[g.active as int].weapon_level == g.weapon_level
    &&& h.squad@[g.active as int].loadout.tiers == g.loadout.tiers
    &&& h.squad@[g.active as int].loadout.modules@ == g.loadout.modules@
    &&& h.squad@[g.active as int].shield == g.shield
    &&& h.squad@[g.active as int].alive == g.squad@[g.active as int].alive
    &&& forall|i: int| 0 <= i < h.squad@.len() && i != g.active
        ==> #[trigger] h.squad@[i] == g.squad@[i]
}

/// Climbing into another hull and back again gives the first hull its gun,
/// its level, its loadout and its class back as they were.
pub proof fn switching_back_restores(g: Game, index: usize, h: Game, k: Game)
    requires
        g.wf(),
        h.wf(),
        switched(g, index, h),
        switched(h, g.active, k),
    ensures
        k.weapon == g.weapon,
        k.weapon_level == g.weapon_level,
        k.loadout.tiers == g.loadout.tiers,
        k.loadout.modules@ == g.loadout.modules@,
        k.class == g.class,
        k.active == g.active,
{
}

impl Game {
    /// Step through the racks `delta` guns at a time.
    pub fn cycle_weapon(&mut self, delta: i32)
        ensures
            racks_turned(*old(self), delta, *final(self)),
    {
        let n = self.owned.len();
        if n == 0 {
            return;
        }
        let mut at: usize = 0;
        let mut found = false;
        let mut i: usize = 0;
        while i < n
            invariant
                n == self.owned@.len(),
                i <= n,
                !found ==> at == 0 && forall|j: int| 0 <= j < i ==> self.owned@[j] != self.weapon,
                found ==> at < n && self.owned@[at as int] == self.weapon
                    && forall|j: int| 0 <= j < at ==> self.owned@[j] != self.weapon,
            decreases n - i,
        {
            if !found && self.owned[i] == self.weapon {
                at = i;
                found = true;
            }
            i = i + 1;
        }
        proof {
            if found {
                assert(self.owned@.contains(self.weapon));
                let f = first_slot(self.owned@, self.weapon);
                assert(0 <= f < self.owned@.len() && self.owned@[f] == self.weapon
                    && forall|j: int| 0 <= j < f ==> self.owned@[j] != self.weapon);
                assert(f == at);
            } else {
                assert(!self.owned@.contains(self.weapon));
            }
        }
        let m: i128 = n as i128;
        let x: i128 = at as i128 + delta as i128;
        let next: usize = if x >= 0 {
            (x as u128 % m as u128) as usize
        } else {
            let y: u128 = (-x) as u128 % m as u128;
            if y == 0 { 0 } else { (m as u128 - y) as usize }
        };
        proof {
            let xi: int = x as int;
            let mi: int = m as int;
            if xi < 0 {
                let nx: int = -xi;
                let q: int = nx / mi;
                let y: int = nx % mi;
                vstd::arithmetic::div_mod::lemma_fundamental_div_mod(nx, mi);
                vstd::arithmetic::div_mod::lemma_mod_pos_bound(nx, mi);
                if y == 0 {
                    assert(xi == (-q) * mi + 0) by (nonlinear_arith)
                        requires nx == mi * q + y, y == 0, xi == -nx;
                    vstd::arithmetic::div_mod::lemma_fundamental_div_mod_converse(xi, mi, -q, 0);
                } else {
                    assert(xi == (-q - 1) * mi + (mi - y)) by (nonlinear_arith)
                        requires nx == mi * q + y, xi == -nx;
                    vstd::arithmetic::div_mod::lemma_fundamental_div_mod_converse(xi, mi, -q - 1, mi - y);
                }
            } else {
                vstd::arithmetic::div_mod::lemma_mod_pos_bound(xi, mi);
            }
        }
        self.weapon = self.owned[next];
    }

    /// Swap to a gun already in the racks, by its slot on the HUD.
    pub fn select_weapon(&mut self, index: usize) -> (r: bool)
        ensures
            r == (index < old(self).owned@.len()),
            gun_picked(*old(self), index, *final(self)),
    {
        if index >= self.owned.len() {
            return false;
        }
        self.weapon = self.owned[index];
        true
    }

    /// Take on a hull the squad does not fly yet; refused once the squad is
    /// full.
    pub fn commission_hull(&mut self) -> (r: bool)
        requires
            old(self).wf(),
        ensures
            final(self).wf(),
            r == (old(self).squad@.len() < MAX_SQUAD),
            !r ==> *final(self) == *old(self),
            r ==> final(self).squad@ == old(self).squad@.push(final(self).squad@.last())
                && final(self).squad@.last().class == unflown(old(self).squad@)
                && final(self).squad@.last().name == HULL_NAMES[old(self).squad@.len() as int]
                && final(self).squad@.last().alive,
            *final(self) == (Game { squad: final(self).squad, ..*old(self) }),
    {
        if self.squad.len() >= MAX_SQUAD {
            return false;
        }
        let classes = ShipClass::ALL;
        let mut pick: usize = 0;
        let mut found = false;
        while pick < 5 && !found
            invariant
                pick <= 5,
                classes == ShipClass::ALL,
                forall|k: int| 0 <= k < pick ==> is_flown(self.squad@, #[trigger] classes[k]),
                found ==> pick < 5 && !is_flown(self.squad@, classes[pick as int]),
            decreases 10 - 2 * pick - (if found { 1int } else { 0int }),
        {
            let c = classes[pick];
            let mut flown = false;
            let mut i: usize = 0;
            while i < self.squad.len()
                invariant
                    i <= self.squad@.len(),
                    flown == exists|j: int| 0 <= j < i && (#[trigger] self.squad@[j]).class == c,
                    pick < 5,
                    c == classes[pick as int],
                decreases self.squad@.len() - i,
            {
                if self.squad[i].class == c {
                    flown = true;
                }
                i = i + 1;
            }
            assert(flown == is_flown(self.squad@, c));
            if !flown {
                found = true;
            } else {
                pick = pick + 1;
            }
        }
        let class = if found { classes[pick] } else { ShipClass::XWing };
        proof {
            let sq = self.squad@;
            assert(classes[0] == ShipClass::AWing && classes[1] == ShipClass::XWing && classes[2] == ShipClass::YWing
                && classes[3] == ShipClass::BWing && classes[4] == ShipClass::Freighter);
            if pick > 0 { assert(is_flown(sq, classes[0])); }
            if pick > 1 { assert(is_flown(sq, classes[1])); }
            if pick > 2 { assert(is_flown(sq, classes[2])); }
            if pick > 3 { assert(is_flown(sq, classes[3])); }
            if pick > 4 { assert(is_flown(sq, classes[4])); }
            if found {
                assert(!is_flown(sq, classes[pick as int]));
                assert(pick < 5);
            } else {
                assert(pick == 5);
            }
        }
        assert(class == unflown(self.squad@));
        let name = HULL_NAMES[self.squad.len()];
        self.squad.push(Wing::new(name, class));
        true
    }

    /// Store the hull being flown back into the squad roster.
    pub fn stow_active(&mut self)
        requires
            old(self).wf(),
        ensures
            final(self).wf(),
            final(self).squad@.len() == old(self).squad@.len(),
            forall|i: int| 0 <= i < final(self).squad@.len() && i != old(self).active
                ==> #[trigger] final(self).squad@[i] == old(self).squad@[i],
            ({
                let w = final(self).squad@[old(self).active as int];
                let o = old(self).squad@[old(self).active as int];
                &&& w.weapon == old(self).weapon
                &&& w.weapon_level == old(self).weapon_level
                &&& w.shield == old(self).shield
                &&& w.max_shield == old(self).max_shield
                &&& w.loadout.tiers == old(self).loadout.tiers
                &&& w.loadout.modules@ == old(self).loadout.modules@
                &&& w.class == old(self).class
                &&& w.name == o.name
                &&& w.alive == o.alive
            }),
            *final(self) == (Game { squad: final(self).squad, ..*old(self) }),
    {
        let loadout = self.loadout.clone();
        let ghost prev = self.squad@;
        let mut wing = self.squad.remove(self.active);
        wing.weapon = self.weapon;
        wing.weapon_level = self.weapon_level;
        wing.shield = self.shield;
        wing.max_shield = self.max_shield;
        wing.loadout = loadout;
        wing.class = self.class;
        self.squad.insert(self.active, wing);
        assert(self.squad@ =~= prev.update(self.active as int, wing));
    }

    /// Climb into another hull in the squad: only in the hangar, only into a
    /// different one, and only into one that is still flying. The hull left
    /// behind keeps its build.
    pub fn switch_active(&mut self, index: usize) -> (r: bool)
        requires
            old(self).wf(),
        ensures
            final(self).wf(),
            r == (old(self).status == Status::Hangar && index < old(self).squad@.len() && index != old(self).active
                && old(self).squad@[index as int].alive),
            !r ==> *final(self) == *old(self),
            r ==> switched(*old(self), index, *final(self)),
            final(self).status == old(self).status,
            final(self).squad@.len() == old(self).squad@.len(),
    {
        if self.status != Status::Hangar || index >= self.squad.len() || index == self.active {
            return false;
        }
        if !self.squad[index].alive {
            return false;
        }
        self.stow_active();
        let wing = self.squad[index].clone();
        assert(wing.weapon_level == old(self).squad@[index as int].weapon_level);
        assert(old(self).squad@[index as int].sound());
        self.active = index;
        self.class = wing.class;
        self.loadout = wing.loadout;
        self.weapon = wing.weapon;
        self.weapon_level = wing.weapon_level;
        self.bonus_plating = 0;
        self.recompute_shield();
        self.shield = if wing.shield <= self.max_shield { wing.shield } else { self.max_shield };
        true
    }
}

/// What a listed line promises when it is available.
pub open spec fn item_sound(g: Game, item: Item) -> bool {
    &&& item.2 ==> g.credits >= item.1
    &&& (item.2 ==> (item.0 matches ShopEntry::Component(p) ==> g.loadout.spec_tier(p) < MAX_TIER))
    &&& (item.2 ==> (item.0 matches ShopEntry::Consumable(s) ==> stock_usable(g, s)))
    &&& (item.0 matches ShopEntry::Fitting(m) ==> !g.loadout.spec_has(m))
}

proof fn module_items_sound(g: Game, ms: Seq<Module>)
    ensures
        forall|k: int| 0 <= k < module_items(g, ms).len() ==> item_sound(g, #[trigger] module_items(g, ms)[k]),
    decreases ms.len(),
{
    if ms.len() > 0 {
        module_items_sound(g, ms.drop_last());
        let rest = module_items(g, ms.drop_last());
        let all = module_items(g, ms);
        assert forall|k: int| 0 <= k < all.len() implies item_sound(g, #[trigger] all[k]) by {
            if k < rest.len() {
                assert(all[k] == rest[k]);
            }
        }
    }
}

proof fn shop_sound(g: Game)
    ensures
        forall|k: int| 0 <= k < shop(g).len() ==> item_sound(g, #[trigger] shop(g)[k]),
{
    let parts_seq = Part::ALL@.map_values(|p: Part| part_item(g, p));
    let mods = module_items(g, Module::ALL@);
    let stock_seq = Stock::ALL@.map_values(|s: Stock| stock_item(g, s));
    module_items_sound(g, Module::ALL@);
    assert forall|k: int| 0 <= k < shop(g).len() implies item_sound(g, #[trigger] shop(g)[k]) by {
        if k < 5 {
            assert(shop(g)[k] == parts_seq[k]);
        } else if k < 5 + mods.len() {
            assert(shop(g)[k] == mods[k - 5]);
        } else {
            assert(shop(g)[k] == stock_seq[k - 5 - mods.len()]);
        }
    }
}

/// `h` is `g` with the squad climbed into the next flying hull when `r`.
pub open spec fn cycled(g: Game, r: bool, h: Game) -> bool {
    &&& !r ==> h == g
    &&& r ==> g.status == Status::Hangar && h.active != g.active
            && g.squad@[h.active as int].alive
    &&& h.status == g.status
    &&& r == (g.status == Status::Hangar && exists|j: int| 0 <= j < g.squad@.len() && j != g.active
            && (#[trigger] g.squad@[j]).alive)
}

impl Game {
    /// Climb into the next hull along the roster that is still flying; only
    /// in the hangar.
    pub fn cycle_active(&mut self) -> (r: bool)
        requires
            old(self).wf(),
        ensures
            final(self).wf(),
            cycled(*old(self), r, *final(self)),
    {
        let count = self.squad.len();
        let mut step: usize = 1;
        while step <= count
            invariant
                1 <= step <= count + 1,
                count == old(self).squad@.len(),
                *self == *old(self),
                old(self).wf(),
                forall|t: int| 1 <= t < step ==> {
                    let j = #[trigger] ((old(self).active + t) % (count as int));
                    !(old(self).status == Status::Hangar && j != old(self).active && old(self).squad@[j].alive)
                },
            decreases count + 1 - step,
        {
            let next = (self.active + step) % count;
            if self.switch_active(next) {
                return true;
            }
            step = step + 1;
        }
        proof {
            let a = old(self).active as int;
            let n = count as int;
            assert forall|j: int| 0 <= j < n && j != a implies !(old(self).status == Status::Hangar
                && #[trigger] old(self).squad@[j].alive) by {
                let t: int = if j > a { j - a } else { j + n - a };
                if j > a {
                    vstd::arithmetic::div_mod::lemma_small_mod(j as nat, n as nat);
                } else {
                    vstd::arithmetic::div_mod::lemma_mod_add_multiples_vanish(j, n);
                    vstd::arithmetic::div_mod::lemma_small_mod(j as nat, n as nat);
                }
                assert((a + t) % n == j);
            }
        }
        false
    }
}

proof fn key_slot_stable(key: char, a: nat, b: nat)
    requires
        a <= b,
        key_slot(key, a) >= 0,
    ensures
        key_slot(key, b) == key_slot(key, a),
    decreases b,
{
    if b > a {
        key_slot_stable(key, a, (b - 1) as nat);
    }
}

/// `h` is `g` after the hangar line under `key` is bought, `r` saying
/// whether it was.
pub open spec fn bought(g: Game, key: char, r: bool, h: Game) -> bool {
    &&& h.status == g.status
    &&& ({
            let items = shop(g);
            let k = key_slot(key, items.len());
            &&& r == (g.status == Status::Hangar && k >= 0 && items[k].2)
            &&& !r ==> h == g
            &&& r ==> h.credits == g.credits - items[k].1
            &&& r ==> match items[k].0 {
                ShopEntry::Component(p) => {
                    &&& h.loadout.tiers@ == g.loadout.tiers@.update(
                        p.index(),
                        (g.loadout.tiers[p.index()] + 1) as u32,
                    )
                    &&& h.loadout.modules == g.loadout.modules
                },
                ShopEntry::Fitting(m) => h.loadout.modules@ == g.loadout.modules@.push(m),
                ShopEntry::Consumable(s) => bought_stock(g, h, s),
            }
        })
}

impl Game {
    /// Buy the hangar line under `key`: only in the hangar, only a line that
    /// is listed, and only one that is available. The price comes off the
    /// salvage and the line does what it sells.
    pub fn buy(&mut self, key: char) -> (r: bool)
        requires
            old(self).wf(),
        ensures
            final(self).wf(),
            bought(*old(self), key, r, *final(self)),
    {
        if self.status != Status::Hangar {
            return false;
        }
        let lines = self.shop_lines();
        let ghost items = shop(*self);
        let mut i: usize = 0;
        let mut found = false;
        while i < lines.len() && !found
            invariant
                i <= lines@.len(),
                lines@.len() == items.len(),
                lines@.len() <= 20,
                items == shop(*old(self)),
                forall|k: int| 0 <= k < lines@.len() ==> line_is(*old(self), #[trigger] lines@[k], k, items[k]),
                !found ==> key_slot(key, i as nat) == -1,
                found ==> i < lines@.len() && key_slot(key, (i + 1) as nat) == i,
            decreases 2 * (lines@.len() - i) + (if found { 0int } else { 1int }),
        {
            assert(line_is(*old(self), lines@[i as int], i as int, items[i as int]));
            if lines[i].key == key {
                found = true;
            } else {
                i = i + 1;
            }
        }
        if !found {
            return false;
        }
        proof {
            key_slot_stable(key, (i + 1) as nat, items.len());
            assert(line_is(*old(self), lines@[i as int], i as int, items[i as int]));
            shop_sound(*old(self));
            assert(item_sound(*old(self), items[i as int]));
        }
        let entry = lines[i].entry;
        let price = lines[i].price;
        if !lines[i].available {
            return false;
        }
        self.credits = self.credits - price;
        match entry {
            ShopEntry::Component(part) => {
                assert(self.loadout.tiers[part.index()] < MAX_TIER);
                self.loadout.upgrade(part);
                if part == Part::Plating {
                    self.recompute_shield();
                    self.shield = self.shield + 1;
                }
                if part == Part::Reactor {
                    self.energy = self.max_energy();
                }
            },
            ShopEntry::Fitting(module) => self.loadout.modules.push(module),
            ShopEntry::Consumable(stock) => match stock {
                Stock::Repair => self.shield = self.max_shield,
                Stock::GunLevel => {
                    self.weapon_level = if self.weapon_level < MAX_WEAPON_LEVEL { self.weapon_level + 1 } else { MAX_WEAPON_LEVEL };
                },
                Stock::GunSwap => self.cycle_weapon(1),
                Stock::Drone => {
                    let mut left = false;
                    let mut d: usize = 0;
                    while d < self.drones.len()
                        invariant
                            d <= self.drones@.len(),
                        decreases self.drones@.len() - d,
                    {
                        if self.drones[d] == -1 {
                            left = true;
                        }
                        d = d + 1;
                    }
                    let side: i16 = if left { 1 } else { -1 };
                    self.drones.push(side);
                },
                Stock::Bomb => self.bombs = self.bombs.saturating_add(1),
                Stock::Rapid => self.rapid = RAPID_TICKS,
                Stock::Life => self.lives = self.lives.saturating_add(1),
                Stock::Missiles => self.missiles = self.missiles.saturating_add(MISSILE_PACK),
                Stock::Rescue => self.rescue_wings(),
                Stock::Hull => {
                    self.commission_hull();
                },
            },
        }
        true
    }
}

} // verus!
