//! Effect archetypes: how an effect applies, stacks and triggers.

use vstd::prelude::*;
use crate::text::{to_lowercase, lowered, str_eq};

verus! {

/// Effect type determines how the effect is applied.
#[derive(Debug, Clone, Copy, PartialEq, Eq, Default)]
pub enum EffectType {
    /// Applied once immediately
    #[default]
    Instant,
    /// Lasts for a number of turns
    Duration,
    /// Triggers on specific events
    Trigger,
}

/// The effect type a lowercase name stands for; unknown names mean instant.
pub open spec fn effect_type_of(l: Seq<char>) -> EffectType {
    if l == "duration"@ {
        EffectType::Duration
    } else if l == "trigger"@ {
        EffectType::Trigger
    } else {
        EffectType::Instant
    }
}

impl EffectType {
    /// Parse an effect type, ignoring case; unknown names mean instant.
    pub fn from_str(s: &str) -> (r: Self)
        ensures
            r == effect_type_of(lowered(s@)),
    {
        let l = to_lowercase(s);
        let t = l.as_str();
        if str_eq(t, "duration") {
            EffectType::Duration
        } else if str_eq(t, "trigger") {
            EffectType::Trigger
        } else {
            EffectType::Instant
        }
    }
}

/// How multiple instances of the same effect stack.
#[derive(Debug, Clone, Copy, PartialEq, Eq, Default)]
pub enum StackingBehavior {
    /// Replace existing effect (refresh duration)
    #[default]
    Refresh,
    /// Stack independently
    Stack,
    /// Ignore if already present
    Ignore,
}

/// The stacking behavior a lowercase name stands for; unknown names mean refresh.
pub open spec fn stacking_of(l: Seq<char>) -> StackingBehavior {
    if l == "stack"@ {
        StackingBehavior::Stack
    } else if l == "ignore"@ {
        StackingBehavior::Ignore
    } else {
        StackingBehavior::Refresh
    }
}

impl StackingBehavior {
    /// Parse a stacking behavior, ignoring case; unknown names mean refresh.
    pub fn from_str(s: &str) -> (r: Self)
        ensures
            r == stacking_of(lowered(s@)),
    {
        let l = to_lowercase(s);
        let t = l.as_str();
        if str_eq(t, "stack") {
            StackingBehavior::Stack
        } else if str_eq(t, "ignore") {
            StackingBehavior::Ignore
        } else {
            StackingBehavior::Refresh
        }
    }
}

/// Trigger conditions for trigger-type effects.
#[derive(Debug, Clone, Copy, PartialEq, Eq)]
pub enum EffectTrigger {
    /// When the owner attacks
    OnAttack,
    /// When the owner is hit
    OnHit,
    /// When the owner takes damage
    OnDamage,
    /// When the owner kills a target
    OnKill,
    /// Each combat tick
    OnTick,
}

/// The trigger a lowercase name stands for, if any.
pub open spec fn trigger_of(l: Seq<char>) -> Option<EffectTrigger> {
    if l == "on_attack"@ {
        Some(EffectTrigger::OnAttack)
    } else if l == "on_hit"@ {
        Some(EffectTrigger::OnHit)
    } else if l == "on_damage"@ {
        Some(EffectTrigger::OnDamage)
    } else if l == "on_kill"@ {
        Some(EffectTrigger::OnKill)
    } else if l == "on_tick"@ {
        Some(EffectTrigger::OnTick)
    } else {
        None
    }
}

impl EffectTrigger {
    /// Parse a trigger name, ignoring case.
    pub fn from_str(s: &str) -> (r: Option<Self>)
        ensures
            r == trigger_of(lowered(s@)),
    {
        let l = to_lowercase(s);
        let t = l.as_str();
        if str_eq(t, "on_attack") {
            Some(EffectTrigger::OnAttack)
        } else if str_eq(t, "on_hit") {
            Some(EffectTrigger::OnHit)
        } else if str_eq(t, "on_damage") {
            Some(EffectTrigger::OnDamage)
        } else if str_eq(t, "on_kill") {
            Some(EffectTrigger::OnKill)
        } else if str_eq(t, "on_tick") {
            Some(EffectTrigger::OnTick)
        } else {
            None
        }
    }
}

/// An effect archetype as a definition script declares it. `P` is the type of its
/// parameters.
#[derive(Debug, Clone)]
pub struct EffectArchetype<P> {
    /// Unique identifier
    pub id: String,
    /// Display name
    pub name: String,
    /// Description
    pub description: Option<String>,
    /// How the effect is applied
    pub effect_type: EffectType,
    /// Handler that implements the effect
    pub handler: String,
    /// Parameters for the handler
    pub params: P,
    /// How instances stack
    pub stacking: StackingBehavior,
    /// Trigger for trigger-type effects
    pub trigger: Option<EffectTrigger>,
}

impl<P: Default> Default for EffectArchetype<P> {
    fn default() -> (r: Self)
        ensures
            r.id@.len() == 0,
            r.name@.len() == 0,
            r.description is None,
            r.effect_type == EffectType::Instant,
            r.handler@.len() == 0,
            r.stacking == StackingBehavior::Refresh,
            r.trigger is None,
    {
        EffectArchetype {
            id: String::new(),
            name: String::new(),
            description: None,
            effect_type: EffectType::Instant,
            handler: String::new(),
            params: P::default(),
            stacking: StackingBehavior::Refresh,
            trigger: None,
        }
    }
}

impl<P: Default> EffectArchetype<P> {
    /// The archetype a definition declares with these values: it needs an id; the name
    /// defaults to the id, the type to instant, the handler to none, the parameters to empty
    /// ones, the stacking to refresh; type, stacking and trigger are read from their names.
    pub fn from_values(
        id: Option<String>,
        name: Option<String>,
        description: Option<String>,
        kind_name: Option<&str>,
        handler: Option<String>,
        params: Option<P>,
        stacking_name: Option<&str>,
        trigger_name: Option<&str>,
    ) -> (r: Option<Self>)
        ensures
            id is None <==> r is None,
            r matches Some(a) ==> {
                &&& a.id == id->0
                &&& a.name@ == match name { Some(n) => n@, None => id->0@ }
                &&& a.description == description
                &&& a.effect_type == match kind_name { Some(t) => effect_type_of(lowered(t@)), None => EffectType::Instant }
                &&& a.handler@ == match handler { Some(h) => h@, None => Seq::empty() }
                &&& (params matches Some(p) ==> a.params == p)
                &&& a.stacking == match stacking_name { Some(t) => stacking_of(lowered(t@)), None => StackingBehavior::Refresh }
                &&& a.trigger == match trigger_name { Some(t) => trigger_of(lowered(t@)), None => None }
            },
    {
        let id = match id {
            Some(i) => i,
            None => { return None; },
        };
        let name = match name {
            Some(n) => n,
            None => id.clone(),
        };
        let effect_type = match kind_name {
            Some(t) => EffectType::from_str(t),
            None => EffectType::Instant,
        };
        let handler = match handler {
            Some(h) => h,
            None => String::new(),
        };
        let params = match params {
            Some(p) => p,
            None => P::default(),
        };
        let stacking = match stacking_name {
            Some(t) => StackingBehavior::from_str(t),
            None => StackingBehavior::Refresh,
        };
        let trigger = match trigger_name {
            Some(t) => EffectTrigger::from_str(t),
            None => None,
        };
        Some(EffectArchetype { id, name, description, effect_type, handler, params, stacking, trigger })
    }
}

} // verus!
