//! The campaign: the missions flown in order, and the labels the chart and
//! the briefing put on screen.

use vstd::prelude::*;

use super::kinds::{BossKind, CapitalKind, NodeBonus, Objective, Sector, TerrainKind};
use super::starmap::MapNode;
use crate::text::{decimal, decimal_string};

verus! {

/// One mission in the campaign: where it is fought, what is waiting, and what
/// counts as flying it properly.
#[derive(Clone, Copy, PartialEq, Eq, Debug)]
pub struct Mission {
    pub name: &'static str,
    pub briefing: &'static str,
    pub sector: Sector,
    pub terrain: TerrainKind,
    pub objective: Objective,
    pub capital: Option<CapitalKind>,
    pub boss: Option<BossKind>,
}

impl Mission {
    /// The campaign, flown in this order.
    pub open spec fn spec_campaign() -> Seq<Mission> {
        seq![
        Mission {
            name: "Tatooine Patrol",
            briefing: "A patrol out of the twin suns. Warm the cannons up on it.",
            sector: Sector::SolarCorona,
            terrain: TerrainKind::Open,
            objective: Objective::Destroy,
            capital: None,
            boss: None,
        },
        Mission {
            name: "The Kessel Run",
            briefing: "Twelve parsecs of nebula with the Maw pulling at you. Fly it.",
            sector: Sector::Nebula,
            terrain: TerrainKind::Tunnel,
            objective: Objective::Survive { ticks: 900 },
            capital: None,
            boss: None,
        },
        Mission {
            name: "Blockade Run",
            briefing: "A Star Destroyer is sitting on the lane. Punch a hole in it.",
            sector: Sector::OpenSpace,
            terrain: TerrainKind::Open,
            objective: Objective::Destroy,
            capital: Some(CapitalKind::StarDestroyer),
            boss: None,
        },
        Mission {
            name: "Battle of Yavin",
            briefing: "The station's shields are down to the trench. Use the Force.",
            sector: Sector::OpenSpace,
            terrain: TerrainKind::Trench,
            objective: Objective::CoreRun,
            capital: Some(CapitalKind::DeathStar),
            boss: None,
        },
        Mission {
            name: "Battle of Hoth",
            briefing: "Walkers on the north ridge. The cannons will not cut it — use the cables.",
            sector: Sector::AsteroidBelt,
            terrain: TerrainKind::Open,
            objective: Objective::Walkers { count: 3 },
            capital: None,
            boss: None,
        },
        Mission {
            name: "Evacuation of Hoth",
            briefing: "Transports are lifting off. Keep them alive until they jump.",
            sector: Sector::AsteroidBelt,
            terrain: TerrainKind::Open,
            objective: Objective::Escort { needed: 3 },
            capital: Some(CapitalKind::StarDestroyer),
            boss: None,
        },
        Mission {
            name: "Cloud City",
            briefing: "An ace is waiting in the gas streams. He knows you are coming.",
            sector: Sector::CometTrail,
            terrain: TerrainKind::Gates,
            objective: Objective::Destroy,
            capital: None,
            boss: Some(BossKind::AceTie),
        },
        Mission {
            name: "Battle of Endor",
            briefing: "The command ship first, then straight into the second station.",
            sector: Sector::DebrisRing,
            terrain: TerrainKind::Trench,
            objective: Objective::CoreRun,
            capital: Some(CapitalKind::DeathStar),
            boss: None,
        }
        ]
    }

    /// The campaign, flown in this order.
    pub fn campaign() -> (r: [Mission; 8])
        ensures
            r@ == Mission::spec_campaign(),
    {
        [
        Mission {
            name: "Tatooine Patrol",
            briefing: "A patrol out of the twin suns. Warm the cannons up on it.",
            sector: Sector::SolarCorona,
            terrain: TerrainKind::Open,
            objective: Objective::Destroy,
            capital: None,
            boss: None,
        },
        Mission {
            name: "The Kessel Run",
            briefing: "Twelve parsecs of nebula with the Maw pulling at you. Fly it.",
            sector: Sector::Nebula,
            terrain: TerrainKind::Tunnel,
            objective: Objective::Survive { ticks: 900 },
            capital: None,
            boss: None,
        },
        Mission {
            name: "Blockade Run",
            briefing: "A Star Destroyer is sitting on the lane. Punch a hole in it.",
            sector: Sector::OpenSpace,
            terrain: TerrainKind::Open,
            objective: Objective::Destroy,
            capital: Some(CapitalKind::StarDestroyer),
            boss: None,
        },
        Mission {
            name: "Battle of Yavin",
            briefing: "The station's shields are down to the trench. Use the Force.",
            sector: Sector::OpenSpace,
            terrain: TerrainKind::Trench,
            objective: Objective::CoreRun,
            capital: Some(CapitalKind::DeathStar),
            boss: None,
        },
        Mission {
            name: "Battle of Hoth",
            briefing: "Walkers on the north ridge. The cannons will not cut it — use the cables.",
            sector: Sector::AsteroidBelt,
            terrain: TerrainKind::Open,
            objective: Objective::Walkers { count: 3 },
            capital: None,
            boss: None,
        },
        Mission {
            name: "Evacuation of Hoth",
            briefing: "Transports are lifting off. Keep them alive until they jump.",
            sector: Sector::AsteroidBelt,
            terrain: TerrainKind::Open,
            objective: Objective::Escort { needed: 3 },
            capital: Some(CapitalKind::StarDestroyer),
            boss: None,
        },
        Mission {
            name: "Cloud City",
            briefing: "An ace is waiting in the gas streams. He knows you are coming.",
            sector: Sector::CometTrail,
            terrain: TerrainKind::Gates,
            objective: Objective::Destroy,
            capital: None,
            boss: Some(BossKind::AceTie),
        },
        Mission {
            name: "Battle of Endor",
            briefing: "The command ship first, then straight into the second station.",
            sector: Sector::DebrisRing,
            terrain: TerrainKind::Trench,
            objective: Objective::CoreRun,
            capital: Some(CapitalKind::DeathStar),
            boss: None,
        }
        ]
    }
}

impl NodeBonus {
    /// What the chart says a node pays out.
    pub open spec fn spec_label(self) -> Seq<char> {
        match self {
            NodeBonus::Cache(credits) => "salvage cache ("@ + decimal(credits as nat) + ")"@,
            NodeBonus::Armoury(w) => "armoury ("@ + w.spec_name()@ + ")"@,
            NodeBonus::Refit => "refit (shields + bomb)"@,
            NodeBonus::Danger => "danger (armoured, double salvage)"@,
        }
    }

    /// What the chart says a node pays out.
    pub fn label(self) -> (r: String)
        ensures
            r@ == self.spec_label(),
    {
        match self {
            NodeBonus::Cache(credits) => {
                let mut s = String::from_str("salvage cache (");
                let n = decimal_string(credits as u64);
                s.append(n.as_str());
                s.append(")");
                s
            },
            NodeBonus::Armoury(w) => {
                let mut s = String::from_str("armoury (");
                s.append(w.name());
                s.append(")");
                s
            },
            NodeBonus::Refit => String::from_str("refit (shields + bomb)"),
            NodeBonus::Danger => String::from_str("danger (armoured, double salvage)"),
        }
    }
}

impl MapNode {
    /// The chart's one-line description of a system.
    pub open spec fn spec_label(&self) -> Seq<char> {
        self.kind.spec_name()@ + " · "@ + self.region.spec_name()@ + " · "@ + self.sector.spec_name()@ + " · "@
            + self.terrain.spec_name()@ + " — "@ + self.bonus.spec_label()
    }

    /// The chart's one-line description of a system.
    pub fn label(&self) -> (r: String)
        ensures
            r@ == self.spec_label(),
    {
        let mut s = String::from_str(self.kind.name());
        s.append(" · ");
        s.append(self.region.name());
        s.append(" · ");
        s.append(self.sector.name());
        s.append(" · ");
        s.append(self.terrain.name());
        s.append(" — ");
        let b = self.bonus.label();
        s.append(b.as_str());
        s
    }
}

impl Objective {
    /// The briefing's line for what the mission asks.
    pub open spec fn spec_label(self) -> Seq<char> {
        match self {
            Objective::Destroy => "clear the system"@,
            Objective::Escort { needed } => "get "@ + decimal(needed as nat) + " transports through"@,
            Objective::Survive { ticks } => "hold out for "@ + decimal((ticks / 14) as nat) + "s"@,
            Objective::Walkers { count } => "bring down "@ + decimal(count as nat) + " walkers"@,
            Objective::CoreRun => "one shot down the shaft"@,
        }
    }

    /// The briefing's line for what the mission asks.
    pub fn label(self) -> (r: String)
        ensures
            r@ == self.spec_label(),
    {
        match self {
            Objective::Destroy => String::from_str("clear the system"),
            Objective::Escort { needed } => {
                let mut s = String::from_str("get ");
                let n = decimal_string(needed as u64);
                s.append(n.as_str());
                s.append(" transports through");
                s
            },
            Objective::Survive { ticks } => {
                let mut s = String::from_str("hold out for ");
                let n = decimal_string((ticks / 14) as u64);
                s.append(n.as_str());
                s.append("s");
                s
            },
            Objective::Walkers { count } => {
                let mut s = String::from_str("bring down ");
                let n = decimal_string(count as u64);
                s.append(n.as_str());
                s.append(" walkers");
                s
            },
            Objective::CoreRun => String::from_str("one shot down the shaft"),
        }
    }
}

} // verus!
