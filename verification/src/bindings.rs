//! What the script-facing functions do: reading action requirements that scripts declare,
//! subscribing scripts to events, and the ticks a yield asks for.

use vstd::prelude::*;
use crate::actions::registry::ActionRequirement;
use crate::events::{EventFilter, EventRegistry, EventSubscription, GameEventType, owned_ids, parse_event_type, event_type_for_key, type_entries};
use crate::coroutines::scheduler::without;
use crate::ids::{id_text, id_text_of};
use crate::context::{ExecutionSlot, current_script_path, current_owner_entity, current_sector};
use crate::text::{owned, str_eq, to_lowercase, lowered};

verus! {

/// Name for the identifier `uuid::Uuid::parse_str` reads from a text, as its 128-bit value,
/// or `None` when the text is not an identifier.
pub uninterp spec fn parsed_id(text: Seq<char>) -> Option<u128>;

/// Calls `uuid::Uuid::parse_str` and takes the identifier's 128-bit value. Its result is named
/// `parsed_id` of the text.
#[verifier::external_body]
pub(crate) fn parse_id(text: &str) -> (r: Option<u128>)
    ensures
        r == parsed_id(text@),
{
    match uuid::Uuid::parse_str(text) {
        Ok(id) => Some(id.as_u128()),
        Err(_) => None,
    }
}

/// A requirement as a script writes it.
#[derive(Debug)]
pub enum RequirementValue {
    /// A name, such as "authenticated" or "must_be_docked"
    Text(String),
    /// A map; the strings of its `ship_status` array, if it has one
    Table(Option<Vec<String>>),
    /// Anything else
    Other,
}

/// The requirement a script's name stands for, after lowercasing: a known name, or else a
/// custom validator under the name as written.
pub open spec fn named_requirement(lower: Seq<char>, written: String) -> ActionRequirement {
    if lower == "authenticated"@ {
        ActionRequirement::Authenticated
    } else if lower == "must_be_docked"@ || lower == "docked"@ {
        ActionRequirement::MustBeDocked
    } else if lower == "must_be_undocked"@ || lower == "undocked"@ {
        ActionRequirement::MustBeUndocked
    } else if lower == "not_in_combat"@ {
        ActionRequirement::NotInCombat
    } else if lower == "same_sector"@ {
        ActionRequirement::SameSector
    } else {
        ActionRequirement::Custom(written)
    }
}

/// Read a requirement a script declares: a name (see `named_requirement`), or a map whose
/// `ship_status` array holds at least one status; anything else is no requirement.
pub fn parse_requirement(value: RequirementValue) -> (r: Option<ActionRequirement>)
    ensures
        match value {
            RequirementValue::Text(s) => r == Some(named_requirement(lowered(s@), s)),
            RequirementValue::Table(Some(list)) => if list@.len() > 0 {
                r == Some(ActionRequirement::ShipStatus(list))
            } else {
                r is None
            },
            _ => r is None,
        },
{
    match value {
        RequirementValue::Text(s) => {
            let lower = to_lowercase(s.as_str());
            let l = lower.as_str();
            if str_eq(l, "authenticated") {
                Some(ActionRequirement::Authenticated)
            } else if str_eq(l, "must_be_docked") || str_eq(l, "docked") {
                Some(ActionRequirement::MustBeDocked)
            } else if str_eq(l, "must_be_undocked") || str_eq(l, "undocked") {
                Some(ActionRequirement::MustBeUndocked)
            } else if str_eq(l, "not_in_combat") {
                Some(ActionRequirement::NotInCombat)
            } else if str_eq(l, "same_sector") {
                Some(ActionRequirement::SameSector)
            } else {
                Some(ActionRequirement::Custom(s))
            }
        },
        RequirementValue::Table(Some(list)) => {
            if list.len() > 0 { Some(ActionRequirement::ShipStatus(list)) } else { None }
        },
        _ => None,
    }
}

/// The script that calls: its path, the entity it belongs to, and its sector.
#[derive(Debug, Clone)]
pub struct ScriptContext {
    pub script_path: String,
    pub owner_entity_id: Option<u128>,
    pub sector_id: Option<u128>,
}

impl ScriptContext {
    /// A context with no script path, entity or sector.
    pub fn empty() -> (r: Self)
        ensures
            r.script_path@.len() == 0,
            r.owner_entity_id is None,
            r.sector_id is None,
    {
        ScriptContext { script_path: String::new(), owner_entity_id: None, sector_id: None }
    }
}

/// The calling script as the running script's context gives it: its path (empty when no
/// script runs), its entity and its sector.
pub fn get_context(slot: &ExecutionSlot) -> (r: ScriptContext)
    ensures
        match slot@ {
            Some(c) => r.script_path@ == c.script_path@ && r.owner_entity_id == c.owner_entity_id
                && r.sector_id == c.sector_id,
            None => r.script_path@.len() == 0 && r.owner_entity_id is None && r.sector_id is None,
        },
{
    let script_path = match current_script_path(slot) {
        Some(p) => p,
        None => String::new(),
    };
    ScriptContext {
        script_path,
        owner_entity_id: current_owner_entity(slot),
        sector_id: current_sector(slot),
    }
}

/// The filter a script names by its kind and value: a sector, actor or target by the
/// identifier the value holds, or a custom filter under the value; `None` for an unknown kind
/// or a value that is not an identifier.
pub open spec fn filter_named(lower_kind: Seq<char>, value: String) -> Option<EventFilter> {
    if lower_kind == "sector"@ || lower_kind == "sector_id"@ {
        match parsed_id(value@) { Some(id) => Some(EventFilter::SectorId(id)), None => None }
    } else if lower_kind == "actor"@ || lower_kind == "actor_id"@ {
        match parsed_id(value@) { Some(id) => Some(EventFilter::ActorId(id)), None => None }
    } else if lower_kind == "target"@ || lower_kind == "target_id"@ {
        match parsed_id(value@) { Some(id) => Some(EventFilter::TargetId(id)), None => None }
    } else if lower_kind == "custom"@ {
        Some(EventFilter::Custom(value))
    } else {
        None
    }
}

/// The filter a script names (see `filter_named`).
pub fn event_filter_for(filter_type: &str, filter_value: String) -> (r: Option<EventFilter>)
    ensures
        r == filter_named(lowered(filter_type@), filter_value),
{
    let lower = to_lowercase(filter_type);
    let l = lower.as_str();
    if str_eq(l, "sector") || str_eq(l, "sector_id") {
        match parse_id(filter_value.as_str()) { Some(id) => Some(EventFilter::SectorId(id)), None => None }
    } else if str_eq(l, "actor") || str_eq(l, "actor_id") {
        match parse_id(filter_value.as_str()) { Some(id) => Some(EventFilter::ActorId(id)), None => None }
    } else if str_eq(l, "target") || str_eq(l, "target_id") {
        match parse_id(filter_value.as_str()) { Some(id) => Some(EventFilter::TargetId(id)), None => None }
    } else if str_eq(l, "custom") {
        Some(EventFilter::Custom(filter_value))
    } else {
        None
    }
}

/// `sub` is the subscription a script makes for `types` with `handler_fn`: under the
/// script's path, owned by its entity and limited to its sector when it has them, with the
/// given filter.
pub open spec fn script_subscription(sub: EventSubscription, ctx: ScriptContext, handler_fn: Seq<char>, types: Seq<GameEventType>, filter: Option<EventFilter>) -> bool {
    &&& sub.script_path@ == ctx.script_path@
    &&& sub.handler_function@ == handler_fn
    &&& sub.event_types@ == types
    &&& sub.filter == filter
    &&& sub.priority == 0
    &&& sub.enabled
    &&& sub.owner_entity_id == ctx.owner_entity_id
    &&& sub.sector_id == ctx.sector_id
}

/// Subscribe the calling script (see `script_subscription`) and return the subscription's
/// identifier as text.
fn subscribe_with(registry: &mut EventRegistry, ctx: &ScriptContext, handler_fn: &str, types: Vec<GameEventType>, filter: Option<EventFilter>) -> (r: String)
    requires
        old(registry).inv(),
    ensures
        final(registry).inv(),
        exists|sub: EventSubscription| script_subscription(sub, *ctx, handler_fn@, types@, filter)
            && r@ == id_text_of(sub.id)
            && #[trigger] final(registry).subscriptions() == old(registry).subscriptions().insert(sub.id, sub)
            && final(registry).type_index() == old(registry).type_index() + type_entries(sub.event_types@, sub.id),
{
    let mut sub = EventSubscription::new(ctx.script_path.as_str(), handler_fn, types);
    if let Some(e) = ctx.owner_entity_id {
        sub = sub.with_owner(e);
    }
    if let Some(s) = ctx.sector_id {
        sub = sub.with_sector(s);
    }
    sub.filter = filter;
    let ghost s = sub;
    let id = registry.subscribe(sub);
    let r = id_text(id);
    assert(script_subscription(s, *ctx, handler_fn@, types@, filter) && r@ == id_text_of(s.id));
    r
}

/// Subscribe the calling script to an event type named by `event_type` (see
/// `parse_event_type`); returns the subscription's identifier as text, or an empty text when
/// the type is unknown (and nothing changes).
pub fn subscribe_event(registry: &mut EventRegistry, ctx: &ScriptContext, event_type: &str, handler_fn: &str) -> (r: String)
    requires
        old(registry).inv(),
    ensures
        final(registry).inv(),
        event_type_for_key(without(lowered(event_type@), '_')) is None ==> r@.len() == 0 && *final(registry) == *old(registry),
        event_type_for_key(without(lowered(event_type@), '_')) matches Some(t) ==> exists|sub: EventSubscription|
            script_subscription(sub, *ctx, handler_fn@, seq![t], None) && r@ == id_text_of(sub.id)
            && #[trigger] final(registry).subscriptions() == old(registry).subscriptions().insert(sub.id, sub),
{
    match parse_event_type(event_type) {
        Some(t) => {
            let mut types: Vec<GameEventType> = Vec::new();
            types.push(t);
            subscribe_with(registry, ctx, handler_fn, types, None)
        },
        None => String::new(),
    }
}

/// Subscribe the calling script to a filtered event type (see `subscribe_event` and
/// `event_filter_for`); an unknown filter kind subscribes without a filter.
pub fn subscribe_event_filtered(
    registry: &mut EventRegistry,
    ctx: &ScriptContext,
    event_type: &str,
    handler_fn: &str,
    filter_type: &str,
    filter_value: String,
) -> (r: String)
    requires
        old(registry).inv(),
    ensures
        final(registry).inv(),
        event_type_for_key(without(lowered(event_type@), '_')) is None ==> r@.len() == 0 && *final(registry) == *old(registry),
        event_type_for_key(without(lowered(event_type@), '_')) matches Some(t) ==> exists|sub: EventSubscription|
            script_subscription(sub, *ctx, handler_fn@, seq![t], filter_named(lowered(filter_type@), filter_value))
            && r@ == id_text_of(sub.id)
            && #[trigger] final(registry).subscriptions() == old(registry).subscriptions().insert(sub.id, sub),
{
    match parse_event_type(event_type) {
        Some(t) => {
            let filter = event_filter_for(filter_type, filter_value);
            let mut types: Vec<GameEventType> = Vec::new();
            types.push(t);
            subscribe_with(registry, ctx, handler_fn, types, filter)
        },
        None => String::new(),
    }
}

/// The event types named among `names`, in order, the unknown names left out.
pub open spec fn named_types(names: Seq<Seq<char>>) -> Seq<GameEventType>
    decreases names.len(),
{
    if names.len() == 0 {
        Seq::empty()
    } else {
        let r = named_types(names.drop_last());
        match event_type_for_key(without(lowered(names.last()), '_')) {
            Some(t) => r.push(t),
            None => r,
        }
    }
}

/// Subscribe the calling script to the event types named in `event_types` (unknown names
/// left out); an empty text, with nothing changed, when none is known.
pub fn subscribe_events(registry: &mut EventRegistry, ctx: &ScriptContext, event_types: &Vec<String>, handler_fn: &str) -> (r: String)
    requires
        old(registry).inv(),
    ensures
        final(registry).inv(),
        named_types(event_types@.map_values(|s: String| s@)).len() == 0 ==> r@.len() == 0 && *final(registry) == *old(registry),
        named_types(event_types@.map_values(|s: String| s@)).len() > 0 ==> exists|sub: EventSubscription|
            script_subscription(sub, *ctx, handler_fn@, named_types(event_types@.map_values(|s: String| s@)), None)
            && r@ == id_text_of(sub.id)
            && #[trigger] final(registry).subscriptions() == old(registry).subscriptions().insert(sub.id, sub),
{
    let ghost texts = event_types@.map_values(|s: String| s@);
    let mut types: Vec<GameEventType> = Vec::new();
    let mut i: usize = 0;
    while i < event_types.len()
        invariant
            texts == event_types@.map_values(|s: String| s@),
            i <= event_types@.len(),
            types@ == named_types(texts.take(i as int)),
        decreases event_types@.len() - i,
    {
        proof {
            assert(texts.take(i as int + 1).drop_last() =~= texts.take(i as int));
            assert(texts.take(i as int + 1).last() == event_types@[i as int]@);
        }
        match parse_event_type(event_types[i].as_str()) {
            Some(t) => { types.push(t); },
            None => {},
        }
        i = i + 1;
    }
    proof { assert(texts.take(texts.len() as int) =~= texts); }
    if types.len() == 0 {
        return String::new();
    }
    subscribe_with(registry, ctx, handler_fn, types, None)
}

/// Unsubscribe by the identifier's text; false when the text is not an identifier or no
/// subscription has it.
pub fn unsubscribe_event(registry: &mut EventRegistry, subscription_id: &str) -> (r: bool)
    requires
        old(registry).inv(),
    ensures
        final(registry).inv(),
        parsed_id(subscription_id@) is None ==> !r && *final(registry) == *old(registry),
        parsed_id(subscription_id@) matches Some(id) ==> r == old(registry).subscriptions().contains_key(id)
            && final(registry).subscriptions() == old(registry).subscriptions().remove(id),
{
    match parse_id(subscription_id) {
        Some(id) => registry.unsubscribe(id),
        None => false,
    }
}

/// Unsubscribe everything registered under the calling script's entity; returns how many
/// registrations it had (0, with nothing changed, for a script without an entity).
pub fn unsubscribe_all(registry: &mut EventRegistry, ctx: &ScriptContext) -> (r: u64)
    requires
        old(registry).inv(),
    ensures
        final(registry).inv(),
        ctx.owner_entity_id is None ==> r == 0 && *final(registry) == *old(registry),
        ctx.owner_entity_id matches Some(e) ==> r == owned_ids(old(registry).owner_index(), e).len()
            && forall|k: u128| #[trigger] final(registry).subscriptions().contains_key(k) <==>
                (old(registry).subscriptions().contains_key(k) && !owned_ids(old(registry).owner_index(), e).contains(k)),
{
    match ctx.owner_entity_id {
        Some(e) => {
            let count = registry.count_for_entity(e);
            registry.unsubscribe_for_entity(e);
            count as u64
        },
        None => 0,
    }
}

/// Enable or disable a subscription by the identifier's text; false only when the text is
/// not an identifier.
pub fn set_subscription_enabled(registry: &mut EventRegistry, subscription_id: &str, enabled: bool) -> (r: bool)
    requires
        old(registry).inv(),
    ensures
        final(registry).inv(),
        r == parsed_id(subscription_id@) is Some,
        parsed_id(subscription_id@) matches Some(id) ==> (old(registry).subscriptions().contains_key(id) ==>
            final(registry).subscriptions() == old(registry).subscriptions().insert(id,
                EventSubscription { enabled, ..old(registry).subscriptions()[id] })),
        parsed_id(subscription_id@) matches Some(id) ==> (!old(registry).subscriptions().contains_key(id) ==>
            final(registry).subscriptions() == old(registry).subscriptions()),
        parsed_id(subscription_id@) is None ==> *final(registry) == *old(registry),
{
    match parse_id(subscription_id) {
        Some(id) => {
            registry.set_enabled(id, enabled);
            true
        },
        None => false,
    }
}

/// Whether a text names an event type.
pub fn is_valid_event_type(event_type: &str) -> (r: bool)
    ensures
        r == event_type_for_key(without(lowered(event_type@), '_')) is Some,
{
    parse_event_type(event_type).is_some()
}

/// How many registrations the calling script's entity has (0 without an entity).
pub fn get_subscription_count(registry: &EventRegistry, ctx: &ScriptContext) -> (r: u64)
    ensures
        ctx.owner_entity_id is None ==> r == 0,
        ctx.owner_entity_id matches Some(e) ==> r == owned_ids(registry.owner_index(), e).len(),
{
    match ctx.owner_entity_id {
        Some(e) => registry.count_for_entity(e) as u64,
        None => 0,
    }
}

/// The ticks a script asks to wait: negative counts are 0.
pub fn ticks_from_script(ticks: i64) -> (r: u64)
    ensures
        ticks < 0 ==> r == 0,
        ticks >= 0 ==> r == ticks,
{
    if ticks < 0 { 0 } else { ticks as u64 }
}

} // verus!
