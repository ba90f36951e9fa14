//! Between fights: the galaxy chart and the lanes flown across it, and the
//! campaign's missions flown in order.

use vstd::prelude::*;

use super::campaign::Mission;
use super::consts::MISSILE_PACK;
use super::game::Game;
use super::kinds::{Difficulty, Galaxy, NodeBonus, NodeKind, Region, ShipClass, Status};
use super::starmap::{map_steered, spot, MapNode, StarMap};
use crate::arith::sat_u32;

verus! {

/// `h` is `g` after flying the lane under the chart cursor, `r` saying
/// whether a lane ran there.
pub open spec fn jumped(g: Game, r: bool, h: Game) -> bool {
    &&& r == (g.status == Status::Chart && g.map.spec_lanes_here().contains(g.map.cursor))
    &&& !r ==> h == g
    &&& r ==> h.map.at == g.map.cursor
    &&& r ==> h.drone_stun == 0
    &&& r ==> h.node == (MapNode {
            cleared: h.node.cleared,
            ..h.map.nodes@[h.map.at as int]
        })
    &&& r ==> h.node == (MapNode { explored: true, ..g.map.nodes@[g.map.cursor as int] })
    &&& r && h.node.kind.spec_fights() ==> h.node == h.map.nodes@[h.map.at as int]
    &&& r && h.node.kind.spec_fights() ==> h.map.cursor == h.map.first_reach()
    &&& r && h.node.kind == NodeKind::Depot ==> {
            &&& h.status == Status::Hangar
            &&& h.shield == h.max_shield
            &&& h.wave == g.wave
            &&& h.bombs == sat_u32(g.bombs + 1)
            &&& h.missiles == sat_u32(g.missiles + MISSILE_PACK / 2)
            &&& h.squad@.len() == g.squad@.len()
            &&& forall|i: int| 0 <= i < h.squad@.len() ==>
                #[trigger] h.squad@[i] == g.squad@[i].rescued()
            &&& h.map.nodes@[h.map.at as int].cleared
        }
    &&& r && h.node.kind == NodeKind::Derelict ==> {
            &&& h.status == Status::Hangar
            &&& h.credits == sat_u32(g.credits + 250 + 90 * g.wave)
            &&& h.wave == g.wave
        }
    &&& r && h.node.kind.spec_fights() ==> {
            &&& h.status == Status::Playing
            &&& h.wave == g.wave + 1
            &&& h.enemies@.len() > 0
        }
}

/// `h` is `g` launched into campaign mission `index`, or stood down past
/// the last one.
pub open spec fn mission_flown(g: Game, index: usize, h: Game) -> bool {
    &&& h.class == g.class
    &&& h.difficulty == g.difficulty
    &&& h.galaxy == g.galaxy
    &&& index >= Mission::spec_campaign().len() ==> {
            &&& h.mission is None
            &&& h.status == Status::Hangar
        }
    &&& index < Mission::spec_campaign().len() ==> {
            &&& h.campaign_at == index
            &&& h.mission == Some(Mission::spec_campaign()[index as int])
            &&& h.objective == Mission::spec_campaign()[index as int].objective
            &&& h.wave == index + 1
            &&& h.status == Status::Playing
            &&& h.sector == Mission::spec_campaign()[index as int].sector
            &&& h.terrain.kind == Mission::spec_campaign()[index as int].terrain
            &&& (Mission::spec_campaign()[index as int].capital is Some ==> h.capital is Some)
            &&& (Mission::spec_campaign()[index as int].capital is None
                && Mission::spec_campaign()[index as int].boss is Some ==> h.boss is Some)
        }
}

/// `h` is `g` with the chart opened from the hangar.
pub open spec fn chart_opened(g: Game, h: Game) -> bool {
    &&& (g.status == Status::Hangar || g.status == Status::Chart)
            ==> h.status == Status::Chart
    &&& !(g.status == Status::Hangar || g.status == Status::Chart)
            ==> h.status == g.status
    &&& h == (Game { status: h.status, ..g })
}

/// `h` is `g` flying the first campaign mission in hull `class` at
/// `difficulty`.
pub open spec fn campaign_started(g: Game, class: ShipClass, difficulty: Difficulty, h: Game) -> bool {
    &&& h.class == class
    &&& h.difficulty == difficulty
    &&& h.galaxy == Galaxy::Orion
    &&& h.campaign_at == 0
    &&& h.mission == Some(Mission::spec_campaign()[0])
    &&& h.wave == 1
    &&& h.status == Status::Playing
}

/// `h` is `g` with the chart cursor steered the way `dc` and `dr` ask, while
/// the chart is open.
pub open spec fn chart_steered(g: Game, dc: i32, dr: i32, h: Game) -> bool {
    &&& g.status != Status::Chart ==> h == g
    &&& h.map.cursor == g.map.cursor
            || g.map.spec_lanes_here().contains(h.map.cursor)
    &&& h.map.at == g.map.at
    &&& h.map.nodes == g.map.nodes
    &&& h == (Game { map: h.map, ..g })
    &&& g.status == Status::Chart ==> map_steered(g.map, dc, dr, h.map)
}

/// `h` is `g` with the chart cursor walked `delta` places through the
/// systems one lane out, while the chart is open.
pub open spec fn chart_cursor_moved(g: Game, delta: i32, h: Game) -> bool {
    &&& g.status != Status::Chart ==> h == g
    &&& g.status == Status::Chart && g.map.spec_lanes_here().len() > 0
            ==> g.map.spec_lanes_here().contains(h.map.cursor)
    &&& g.status == Status::Chart ==> {
            let r = g.map.reach_order();
            &&& r.len() > 0 ==> h.map.cursor == r[(spot(r, g.map.cursor, 0) + delta) % (r.len() as int)]
            &&& h.map == (StarMap { cursor: h.map.cursor, ..g.map })
        }
    &&& h.map.at == g.map.at
    &&& h.map.nodes == g.map.nodes
    &&& h == (Game { map: h.map, ..g })
}

impl Game {
    /// Open the galaxy chart from the hangar; from anywhere else it stays
    /// shut.
    pub fn open_chart(&mut self)
        ensures
            chart_opened(*old(self), *final(self)),
    {
        if self.status == Status::Hangar || self.status == Status::Chart {
            self.status = Status::Chart;
        }
    }

    /// Move the chart cursor through the systems one lane out; only while the
    /// chart is open.
    pub fn move_cursor(&mut self, delta: i32)
        requires
            old(self).wf(),
        ensures
            final(self).wf(),
            chart_cursor_moved(*old(self), delta, *final(self)),
    {
        if self.status == Status::Chart {
            self.map.move_cursor(delta);
        }
    }

    /// Point the chart cursor at whichever system lies that way; only while
    /// the chart is open.
    pub fn steer_chart(&mut self, dc: i32, dr: i32)
        requires
            old(self).wf(),
        ensures
            final(self).wf(),
            chart_steered(*old(self), dc, dr, *final(self)),
    {
        if self.status == Status::Chart {
            self.map.steer(dc, dr);
        }
    }

    /// Put every downed hull back in the air with full shields.
    pub fn rescue_wings(&mut self)
        requires
            old(self).wf(),
        ensures
            final(self).wf(),
            final(self).squad@.len() == old(self).squad@.len(),
            forall|i: int| 0 <= i < final(self).squad@.len() ==>
                #[trigger] final(self).squad@[i] == old(self).squad@[i].rescued(),
            *final(self) == (Game { squad: final(self).squad, ..*old(self) }),
    {
        let ghost before = *self;
        let mut i: usize = 0;
        while i < self.squad.len()
            invariant
                i <= self.squad@.len(),
                self.squad@.len() == before.squad@.len(),
                *self == (Game { squad: self.squad, ..before }),
                before == *old(self),
                forall|j: int| 0 <= j < i ==> #[trigger] self.squad@[j] == before.squad@[j].rescued(),
                forall|j: int| i <= j < self.squad@.len() ==> #[trigger] self.squad@[j] == before.squad@[j],
            decreases self.squad@.len() - i,
        {
            let ghost prev = self.squad@;
            let mut wing = self.squad.remove(i);
            wing.alive = true;
            wing.shield = wing.max_shield;
            self.squad.insert(i, wing);
            assert(self.squad@ =~= prev.update(i as int, wing));
            i = i + 1;
        }
    }

    /// Fly the lane to the system under the cursor. A fight starts the next
    /// wave; a depot or a derelict is worked over and parks the squad in the
    /// hangar again. Nothing happens unless the chart is open and a lane runs
    /// to the cursor.
    pub fn jump(&mut self) -> (r: bool)
        requires
            old(self).wf(),
            old(self).wave < 50_000_000,
        ensures
            final(self).wf(),
            jumped(*old(self), r, *final(self)),
    {
        if self.status != Status::Chart {
            return false;
        }
        let jumped = self.map.jump();
        let node = match jumped {
            Some(node) => node,
            None => {
                return false;
            },
        };
        self.node = node;
        self.drone_stun = 0;
        match node.kind {
            NodeKind::Depot => {
                // A yard: shields filled, a bomb loaded, the wing back in the
                // air and the launcher topped up, all of it free.
                self.shield = self.max_shield;
                self.bombs = self.bombs.saturating_add(1);
                self.missiles = self.missiles.saturating_add(MISSILE_PACK / 2);
                self.energy = self.max_energy();
                self.rescue_wings();
                self.map.clear_here();
                self.status = Status::Hangar;
                self.say("Docking at the outpost. Get her patched up.");
            },
            NodeKind::Derelict => {
                // A hulk worth stripping: salvage, and whatever gun is aboard.
                let haul: u64 = 250 + 90 * self.wave as u64;
                let credits: u64 = self.credits as u64 + haul;
                self.credits = if credits <= u32::MAX as u64 { credits as u32 } else { u32::MAX };
                if let NodeBonus::Armoury(weapon) = node.bonus {
                    self.stock_gun(weapon);
                } else {
                    self.bombs = self.bombs.saturating_add(1);
                }
                self.map.clear_here();
                self.status = Status::Hangar;
            },
            _ => {
                self.wave = self.wave + 1;
                self.shield = self.max_shield;
                self.energy = self.max_energy();
                self.status = Status::Playing;
                self.spawn_wave();
            },
        }
        true
    }

    /// Leave the hangar for the chart, then fly the first lane out of here
    /// that leads to a fight. Kept as one call for the places that just want
    /// the next fight.
    pub fn launch_next_wave(&mut self)
        requires
            old(self).wf(),
            old(self).wave < 50_000_000,
        ensures
            final(self).wf(),
            (old(self).status == Status::Hangar || old(self).status == Status::Chart) && (exists|k: int|
                0 <= k < old(self).map.spec_lanes_here().len()
                && old(self).map.nodes@[(#[trigger] old(self).map.spec_lanes_here()[k]) as int].kind.spec_fights())
                ==> (exists|k: int| 0 <= k < old(self).map.spec_lanes_here().len()
                    && final(self).map.at == #[trigger] old(self).map.spec_lanes_here()[k]
                    && old(self).map.nodes@[final(self).map.at as int].kind.spec_fights()),
    {
        self.open_chart();
        let lanes = self.map.reachable();
        let ghost here = self.map.spec_lanes_here();
        proof {
            broadcast use vstd::seq_lib::group_to_multiset_ensures;
            assert forall|k: int| 0 <= k < here.len() implies #[trigger] lanes@.contains(here[k]) by {
                assert(here.to_multiset().count(here[k]) > 0);
                assert(lanes@.to_multiset().count(here[k]) > 0);
            }
        }
        let mut i: usize = 0;
        let mut next: Option<usize> = None;
        while i < lanes.len()
            invariant_except_break
                next is None,
            invariant
                i <= lanes@.len(),
                self.map.wf(),
                forall|k: int| 0 <= k < lanes@.len() ==> #[trigger] lanes@[k] < self.map.nodes@.len(),
                next matches Some(n) ==> n < self.map.nodes@.len(),
                forall|k: int| 0 <= k < i ==> !self.map.nodes@[(#[trigger] lanes@[k]) as int].kind.spec_fights(),
            ensures
                next matches Some(n) ==> lanes@.contains(n) && self.map.nodes@[n as int].kind.spec_fights(),
                next is None ==> forall|k: int| 0 <= k < lanes@.len() ==> !self.map.nodes@[(#[trigger] lanes@[k]) as int].kind.spec_fights(),
            decreases lanes@.len() - i,
        {
            let n = lanes[i];
            if self.map.nodes[n].kind.fights() {
                next = Some(n);
                assert(lanes@[i as int] == n);
                break;
            }
            i = i + 1;
        }
        proof {
            broadcast use vstd::seq_lib::group_to_multiset_ensures;
            if next is None {
                assert forall|k: int| 0 <= k < here.len() implies !self.map.nodes@[(#[trigger] here[k]) as int].kind.spec_fights() by {
                    assert(lanes@.contains(here[k]));
                    let j = choose|j: int| 0 <= j < lanes@.len() && lanes@[j] == here[k];
                    assert(!self.map.nodes@[lanes@[j] as int].kind.spec_fights());
                }
            }
            if let Some(n) = next {
                assert(lanes@.to_multiset().count(n) > 0);
                assert(here.to_multiset().count(n) > 0);
                assert(here.contains(n));
            }
        }
        if let Some(n) = next {
            self.map.cursor = n;
        }
        let ghost mid = *self;
        self.jump();
        proof {
            if let Some(n) = next {
                if old(self).status == Status::Hangar || old(self).status == Status::Chart {
                    assert(mid.status == Status::Chart);
                    assert(mid.map.spec_lanes_here() == here);
                    assert(self.map.at == n);
                    let k = choose|k: int| 0 <= k < here.len() && here[k] == n;
                    assert(here[k] == self.map.at);
                }
            }
        }
    }

    /// Set up the campaign mission at `index` and launch straight into it;
    /// past the last mission the war is over and the squad stands down.
    pub fn fly_mission(&mut self, index: usize)
        requires
            old(self).wf(),
        ensures
            final(self).wf(),
            mission_flown(*old(self), index, *final(self)),
    {
        let campaign = Mission::campaign();
        if index >= campaign.len() {
            // The war is over; the ceremony is the reward.
            self.mission = None;
            self.status = Status::Hangar;
            self.say("That is the last of them. Stand down — you have earned it.");
            return;
        }
        let mission = campaign[index];
        assert(mission.objective is Escort ==> mission.objective->needed <= 100);
        assert(mission.objective is Walkers ==> mission.objective->count <= 100);
        self.campaign_at = index;
        self.mission = Some(mission);
        self.objective = mission.objective;
        self.wave = index as u32 + 1;
        let kind = if mission.capital.is_some() {
            NodeKind::Capital
        } else if mission.boss.is_some() {
            NodeKind::Boss
        } else {
            NodeKind::Battle
        };
        self.node = MapNode {
            pos: (index, 0),
            region: Region::of_column(index, campaign.len()),
            kind,
            sector: mission.sector,
            terrain: mission.terrain,
            bonus: NodeBonus::Refit,
            cleared: false,
            explored: true,
        };
        self.status = Status::Playing;
        self.spawn_wave();
        self.say(mission.briefing);
    }

    /// Fly the campaign instead of the open galaxy: the missions from the war,
    /// in the order they were fought, starting with the first.
    pub fn start_campaign(&mut self, class: ShipClass, difficulty: Difficulty)
        requires
            old(self).wf(),
        ensures
            final(self).wf(),
            campaign_started(*old(self), class, difficulty, *final(self)),
    {
        self.start(class, difficulty, Galaxy::Orion);
        self.campaign_at = 0;
        self.fly_mission(0);
    }
}

} // verus!
