//! Ability archetypes: who an ability targets, what it costs, and what it requires.

use vstd::prelude::*;
use crate::text::{to_lowercase, lowered, str_eq};

verus! {

/// Target type for abilities.
#[derive(Debug, Clone, Copy, PartialEq, Eq, Default)]
pub enum AbilityTarget {
    /// Targets self only
    #[default]
    SelfTarget,
    /// Targets a friendly entity
    Friendly,
    /// Targets an enemy entity
    Enemy,
    /// Targets any entity
    Any,
    /// Area of effect
    Area,
}

/// The target a lowercase name stands for; unknown names mean the user itself.
pub open spec fn target_of(l: Seq<char>) -> AbilityTarget {
    if l == "self"@ || l == "self_target"@ {
        AbilityTarget::SelfTarget
    } else if l == "friendly"@ || l == "ally"@ {
        AbilityTarget::Friendly
    } else if l == "enemy"@ || l == "hostile"@ {
        AbilityTarget::Enemy
    } else if l == "any"@ {
        AbilityTarget::Any
    } else if l == "area"@ || l == "aoe"@ {
        AbilityTarget::Area
    } else {
        AbilityTarget::SelfTarget
    }
}

impl AbilityTarget {
    /// Parse a target name, ignoring case.
    pub fn from_str(s: &str) -> (r: Self)
        ensures
            r == target_of(lowered(s@)),
    {
        let l = to_lowercase(s);
        let t = l.as_str();
        if str_eq(t, "self") || str_eq(t, "self_target") {
            AbilityTarget::SelfTarget
        } else if str_eq(t, "friendly") || str_eq(t, "ally") {
            AbilityTarget::Friendly
        } else if str_eq(t, "enemy") || str_eq(t, "hostile") {
            AbilityTarget::Enemy
        } else if str_eq(t, "any") {
            AbilityTarget::Any
        } else if str_eq(t, "area") || str_eq(t, "aoe") {
            AbilityTarget::Area
        } else {
            AbilityTarget::SelfTarget
        }
    }
}

/// Resource cost for using an ability.
#[derive(Debug, Clone, Copy, Default)]
pub struct AbilityCost {
    /// Energy cost
    pub energy: i32,
    /// Fuel cost
    pub fuel: i32,
    /// Ammunition cost
    pub ammunition: i32,
    /// Credits cost
    pub credits: i64,
    /// Shield cost (percentage)
    pub shields: i32,
}

impl AbilityCost {
    /// The cost a definition declares: each amount given, cut to the field's width, and 0 for
    /// each left out.
    pub fn from_amounts(energy: Option<i64>, fuel: Option<i64>, ammunition: Option<i64>, credits: Option<i64>, shields: Option<i64>) -> (r: Self)
        ensures
            r.energy == match energy { Some(v) => v as i32, None => 0i32 },
            r.fuel == match fuel { Some(v) => v as i32, None => 0i32 },
            r.ammunition == match ammunition { Some(v) => v as i32, None => 0i32 },
            r.credits == match credits { Some(v) => v, None => 0i64 },
            r.shields == match shields { Some(v) => v as i32, None => 0i32 },
    {
        AbilityCost {
            energy: match energy { Some(v) => v as i32, None => 0 },
            fuel: match fuel { Some(v) => v as i32, None => 0 },
            ammunition: match ammunition { Some(v) => v as i32, None => 0 },
            credits: match credits { Some(v) => v, None => 0 },
            shields: match shields { Some(v) => v as i32, None => 0 },
        }
    }

    /// Whether the ability costs nothing.
    pub fn is_free(&self) -> (r: bool)
        ensures
            r == (self.energy == 0 && self.fuel == 0 && self.ammunition == 0 && self.credits == 0 && self.shields == 0),
    {
        self.energy == 0 && self.fuel == 0 && self.ammunition == 0 && self.credits == 0 && self.shields == 0
    }
}

/// Requirements for using an ability.
#[derive(Debug, Clone, Default)]
pub struct AbilityRequirements {
    /// Minimum tier required
    pub min_tier: Option<i32>,
    /// Required ship classes
    pub ship_classes: Vec<String>,
    /// Required upgrades installed
    pub required_upgrades: Vec<String>,
    /// Must be out of combat
    pub out_of_combat_only: bool,
    /// Must be in combat
    pub in_combat_only: bool,
    /// Minimum fame required
    pub min_fame: Option<i32>,
    /// Minimum reputation required
    pub min_reputation: Option<i32>,
}

impl AbilityRequirements {
    /// The requirements a definition declares: the minimums given, cut to 32 bits, the
    /// lists as given, and flags that default to false.
    pub fn from_values(
        min_tier: Option<i64>,
        ship_classes: Vec<String>,
        required_upgrades: Vec<String>,
        out_of_combat_only: Option<bool>,
        in_combat_only: Option<bool>,
        min_fame: Option<i64>,
        min_reputation: Option<i64>,
    ) -> (r: Self)
        ensures
            r.min_tier == match min_tier { Some(v) => Some(v as i32), None => None },
            r.ship_classes == ship_classes,
            r.required_upgrades == required_upgrades,
            r.out_of_combat_only == (out_of_combat_only == Some(true)),
            r.in_combat_only == (in_combat_only == Some(true)),
            r.min_fame == match min_fame { Some(v) => Some(v as i32), None => None },
            r.min_reputation == match min_reputation { Some(v) => Some(v as i32), None => None },
    {
        AbilityRequirements {
            min_tier: match min_tier { Some(v) => Some(v as i32), None => None },
            ship_classes,
            required_upgrades,
            out_of_combat_only: match out_of_combat_only { Some(b) => b, None => false },
            in_combat_only: match in_combat_only { Some(b) => b, None => false },
            min_fame: match min_fame { Some(v) => Some(v as i32), None => None },
            min_reputation: match min_reputation { Some(v) => Some(v as i32), None => None },
        }
    }
}

/// An effect applied by an ability: the effect and its parameters (`P`).
#[derive(Debug, Clone)]
pub struct AbilityEffect<P> {
    /// Effect archetype ID
    pub effect_id: String,
    /// Parameters for the effect
    pub params: P,
}

impl<P: Default> AbilityEffect<P> {
    /// The effect a definition declares: it needs an effect id; the parameters default to
    /// empty ones.
    pub fn from_values(effect_id: Option<String>, params: Option<P>) -> (r: Option<Self>)
        ensures
            effect_id is None <==> r is None,
            r matches Some(e) ==> e.effect_id == effect_id->0 && (params matches Some(p) ==> e.params == p),
    {
        let effect_id = match effect_id {
            Some(i) => i,
            None => { return None; },
        };
        let params = match params {
            Some(p) => p,
            None => P::default(),
        };
        Some(AbilityEffect { effect_id, params })
    }
}

/// An ability archetype as a definition script declares it. `P` is the type of its effects'
/// parameters.
#[derive(Debug, Clone)]
pub struct AbilityArchetype<P> {
    /// Unique identifier
    pub id: String,
    /// Display name
    pub name: String,
    /// Description
    pub description: Option<String>,
    /// Cooldown in turns
    pub cooldown: u32,
    /// Resource cost
    pub cost: AbilityCost,
    /// Target type
    pub target: AbilityTarget,
    /// Effects to apply
    pub effects: Vec<AbilityEffect<P>>,
    /// Requirements to use
    pub requirements: AbilityRequirements,
    /// Icon
    pub icon: Option<String>,
    /// Tier
    pub tier: i32,
    /// Whether the ability is passive
    pub is_passive: bool,
}

/// A cost of nothing.
pub open spec fn free_cost(c: AbilityCost) -> bool {
    c.energy == 0 && c.fuel == 0 && c.ammunition == 0 && c.credits == 0 && c.shields == 0
}

/// No requirements.
pub open spec fn no_requirements(r: AbilityRequirements) -> bool {
    &&& r.min_tier is None
    &&& r.ship_classes@.len() == 0
    &&& r.required_upgrades@.len() == 0
    &&& !r.out_of_combat_only
    &&& !r.in_combat_only
    &&& r.min_fame is None
    &&& r.min_reputation is None
}

impl<P> Default for AbilityArchetype<P> {
    fn default() -> (r: Self)
        ensures
            r.id@.len() == 0,
            r.name@.len() == 0,
            r.description is None,
            r.cooldown == 0,
            free_cost(r.cost),
            r.target == AbilityTarget::SelfTarget,
            r.effects@.len() == 0,
            no_requirements(r.requirements),
            r.icon is None,
            r.tier == 1,
            !r.is_passive,
    {
        AbilityArchetype {
            id: String::new(),
            name: String::new(),
            description: None,
            cooldown: 0,
            cost: AbilityCost { energy: 0, fuel: 0, ammunition: 0, credits: 0, shields: 0 },
            target: AbilityTarget::SelfTarget,
            effects: Vec::new(),
            requirements: AbilityRequirements {
                min_tier: None,
                ship_classes: Vec::new(),
                required_upgrades: Vec::new(),
                out_of_combat_only: false,
                in_combat_only: false,
                min_fame: None,
                min_reputation: None,
            },
            icon: None,
            tier: 1,
            is_passive: false,
        }
    }
}

impl<P> AbilityArchetype<P> {
    /// The archetype a definition declares with these values: it needs an id; the name
    /// defaults to the id, the cooldown to 0 (cut to 32 bits, then read as unsigned), the
    /// target to the user itself (read from its name), the tier to 1 (cut to 32 bits), and
    /// the passive flag to false.
    pub fn from_values(
        id: Option<String>,
        name: Option<String>,
        description: Option<String>,
        cooldown: Option<i64>,
        cost: AbilityCost,
        target_name: Option<&str>,
        effects: Vec<AbilityEffect<P>>,
        requirements: AbilityRequirements,
        icon: Option<String>,
        tier: Option<i64>,
        is_passive: Option<bool>,
    ) -> (r: Option<Self>)
        ensures
            id is None <==> r is None,
            r matches Some(a) ==> {
                &&& a.id == id->0
                &&& a.name@ == match name { Some(n) => n@, None => id->0@ }
                &&& a.description == description
                &&& a.cooldown == match cooldown { Some(c) => (c as i32) as u32, None => 0u32 }
                &&& a.cost == cost
                &&& a.target == match target_name { Some(t) => target_of(lowered(t@)), None => AbilityTarget::SelfTarget }
                &&& a.effects == effects
                &&& a.requirements == requirements
                &&& a.icon == icon
                &&& a.tier == match tier { Some(t) => t as i32, None => 1i32 }
                &&& a.is_passive == (is_passive == Some(true))
            },
    {
        let id = match id {
            Some(i) => i,
            None => { return None; },
        };
        let name = match name {
            Some(n) => n,
            None => id.clone(),
        };
        let target = match target_name {
            Some(t) => AbilityTarget::from_str(t),
            None => AbilityTarget::SelfTarget,
        };
        let cooldown: u32 = match cooldown {
            Some(c) => (c as i32) as u32,
            None => 0,
        };
        let tier: i32 = match tier {
            Some(t) => t as i32,
            None => 1,
        };
        let is_passive = match is_passive {
            Some(b) => b,
            None => false,
        };
        Some(AbilityArchetype { id, name, description, cooldown, cost, target, effects, requirements, icon, tier, is_passive })
    }

    /// Whether the ability applies any effect.
    pub fn has_effects(&self) -> (r: bool)
        ensures
            r == (self.effects@.len() > 0),
    {
        self.effects.len() > 0
    }

    /// Whether the ability has a cooldown.
    pub fn has_cooldown(&self) -> (r: bool)
        ensures
            r == (self.cooldown > 0),
    {
        self.cooldown > 0
    }
}

} // verus!
