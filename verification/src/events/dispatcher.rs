//! Dispatching events to the scripts that subscribed to them: which subscriptions take an
//! event, in which order, with which permissions and context, and what the dispatch reports.

use vstd::prelude::*;
use crate::context::ScriptExecutionContext;
use crate::events::{EventRegistry, EventSubscription, GameEventType, filter_passes, handler_ids, sorted_by_priority, same_subscription};
use crate::ids::{id_text, id_text_of};
use crate::state::{AccessPermissions, npc_permissions, trusted_permissions};
use crate::text::{owned, append_str};

verus! {

/// What the dispatcher needs to know of an event.
#[derive(Debug, Clone, Copy)]
pub struct EventInfo {
    /// The kind of event
    pub event_type: GameEventType,
    /// Sector where it happened
    pub sector_id: u128,
    /// Entity that caused it, if any
    pub actor_id: Option<u128>,
    /// Entity it targets, if any
    pub target_id: Option<u128>,
}

/// Whether `sub` takes `event`: it is enabled, its sector (if it has one) is the event's, and
/// its filter (if it has one) passes the event.
pub open spec fn takes_event(sub: EventSubscription, event: EventInfo) -> bool {
    &&& sub.enabled
    &&& (sub.sector_id matches Some(s) ==> event.sector_id == s)
    &&& (sub.filter matches Some(f) ==> filter_passes(f, event.sector_id, event.actor_id, event.target_id))
}

/// Whether the subscription takes the event.
pub fn accepts(sub: &EventSubscription, event: &EventInfo) -> (r: bool)
    ensures
        r == takes_event(*sub, *event),
{
    if !sub.enabled {
        return false;
    }
    if let Some(s) = sub.sector_id {
        if event.sector_id != s {
            return false;
        }
    }
    match &sub.filter {
        Some(f) => f.matches(event.sector_id, event.actor_id, event.target_id),
        None => true,
    }
}

/// What calling a subscription's handler needs.
pub struct HandlerCall {
    /// The subscription
    pub subscription_id: u128,
    /// Script to call into
    pub script_path: String,
    /// Function to call
    pub handler_function: String,
    /// Permissions for the call
    pub permissions: AccessPermissions,
    /// Execution context for the call
    pub context: ScriptExecutionContext,
    /// The entries of the context map handed to the handler, as (key, text) pairs
    pub context_entries: Vec<(String, String)>,
}

/// The context map entries for a handler: its entity and sector when it has them, then its
/// subscription.
pub open spec fn context_entries_for(sub: EventSubscription) -> Seq<(Seq<char>, Seq<char>)> {
    let owner: Seq<(Seq<char>, Seq<char>)> = match sub.owner_entity_id {
        Some(e) => seq![("entity_id"@, id_text_of(e))],
        None => Seq::empty(),
    };
    let sector: Seq<(Seq<char>, Seq<char>)> = match sub.sector_id {
        Some(s) => seq![("sector_id"@, id_text_of(s))],
        None => Seq::empty(),
    };
    owner + sector + seq![("subscription_id"@, id_text_of(sub.id))]
}

/// `call` is what calling `sub`'s handler needs: its script and function, NPC permissions
/// when it has both an owner and a sector, trusted ones otherwise, a context with its script,
/// owner and sector, and its context map entries.
pub open spec fn call_for(call: HandlerCall, sub: EventSubscription) -> bool {
    &&& call.subscription_id == sub.id
    &&& call.script_path@ == sub.script_path@
    &&& call.handler_function@ == sub.handler_function@
    &&& match (sub.owner_entity_id, sub.sector_id) {
        (Some(e), Some(s)) => npc_permissions(call.permissions, e, s),
        _ => trusted_permissions(call.permissions),
    }
    &&& call.context.script_path@ == sub.script_path@
    &&& call.context.owner_entity_id == sub.owner_entity_id
    &&& call.context.sector_id == sub.sector_id
    &&& call.context.tick == 0
    &&& call.context_entries@.map_values(|e: (String, String)| (e.0@, e.1@)) == context_entries_for(sub)
}

/// What calling the handler of `sub` needs.
pub fn handler_call(sub: &EventSubscription) -> (r: HandlerCall)
    ensures
        call_for(r, *sub),
{
    let permissions = match (sub.owner_entity_id, sub.sector_id) {
        (Some(e), Some(s)) => AccessPermissions::npc_behavior(e, s),
        _ => AccessPermissions::trusted(),
    };
    let mut context = ScriptExecutionContext::new().with_script_path(sub.script_path.as_str());
    if let Some(e) = sub.owner_entity_id {
        context = context.with_owner_entity(e);
    }
    if let Some(s) = sub.sector_id {
        context = context.with_sector(s);
    }
    let mut entries: Vec<(String, String)> = Vec::new();
    if let Some(e) = sub.owner_entity_id {
        entries.push((owned("entity_id"), id_text(e)));
    }
    if let Some(s) = sub.sector_id {
        entries.push((owned("sector_id"), id_text(s)));
    }
    entries.push((owned("subscription_id"), id_text(sub.id)));
    let r = HandlerCall {
        subscription_id: sub.id,
        script_path: sub.script_path.clone(),
        handler_function: sub.handler_function.clone(),
        permissions,
        context,
        context_entries: entries,
    };
    assert(r.context_entries@.map_values(|e: (String, String)| (e.0@, e.1@)) =~= context_entries_for(*sub));
    r
}

/// Result from dispatching an event. `M` is the type of the state mutations handlers queue.
#[derive(Debug)]
pub struct DispatchResult<M> {
    /// Event that was dispatched
    pub event_type: GameEventType,
    /// Number of handlers that were called
    pub handlers_called: usize,
    /// Handlers that succeeded
    pub successes: usize,
    /// Handlers that failed, with their errors
    pub failures: Vec<(u128, String)>,
    /// State mutations collected from handlers
    pub mutations: Vec<M>,
}

impl<M> DispatchResult<M> {
    /// A result for an event that no handler took yet.
    pub fn new(event_type: GameEventType) -> (r: Self)
        ensures
            r.event_type == event_type,
            r.handlers_called == 0,
            r.successes == 0,
            r.failures@.len() == 0,
            r.mutations@.len() == 0,
    {
        DispatchResult { event_type, handlers_called: 0, successes: 0, failures: Vec::new(), mutations: Vec::new() }
    }
}

/// The subscriptions, among `ids`, that take `event`, in order.
pub open spec fn takers(ids: Seq<u128>, m: Map<u128, EventSubscription>, event: EventInfo) -> Seq<EventSubscription>
    decreases ids.len(),
{
    if ids.len() == 0 {
        Seq::empty()
    } else {
        let prev = takers(ids.drop_last(), m, event);
        if takes_event(m[ids.last()], event) { prev.push(m[ids.last()]) } else { prev }
    }
}

/// How running one handler went: `None` when its script is not loaded, else its mutations
/// or its error's text.
pub type HandlerOutcome<M> = Option<Result<Vec<M>, String>>;

/// Number of handlers that succeeded.
pub open spec fn success_count<M>(outs: Seq<HandlerOutcome<M>>) -> nat
    decreases outs.len(),
{
    if outs.len() == 0 {
        0
    } else {
        success_count(outs.drop_last()) + if outs.last() matches Some(Ok(_)) { 1nat } else { 0nat }
    }
}

/// The failures of the handlers of `subs` whose runs went as `outs` says: each one's
/// subscription and error, a missing script named as such.
pub open spec fn failures_of<M>(subs: Seq<EventSubscription>, outs: Seq<HandlerOutcome<M>>) -> Seq<(u128, Seq<char>)>
    decreases outs.len(),
{
    if outs.len() == 0 || subs.len() == 0 {
        Seq::empty()
    } else {
        let prev = failures_of(subs.drop_last(), outs.drop_last());
        match outs.last() {
            None => prev.push((subs.last().id, missing_script_text(subs.last().script_path@))),
            Some(Ok(_)) => prev,
            Some(Err(e)) => prev.push((subs.last().id, e@)),
        }
    }
}

/// The mutations of the handlers that succeeded, in order.
pub open spec fn mutations_of<M>(outs: Seq<HandlerOutcome<M>>) -> Seq<M>
    decreases outs.len(),
{
    if outs.len() == 0 {
        Seq::empty()
    } else {
        let prev = mutations_of(outs.drop_last());
        match outs.last() {
            Some(Ok(v)) => prev + v@,
            _ => prev,
        }
    }
}

/// The number of mutations the successful handlers among `outs` returned, all together.
pub open spec fn mutation_total<M>(outs: Seq<HandlerOutcome<M>>) -> nat
    decreases outs.len(),
{
    if outs.len() == 0 {
        0
    } else {
        mutation_total(outs.drop_last()) + match outs.last() {
            Some(Ok(v)) => v@.len(),
            _ => 0,
        }
    }
}

/// A dispatch gathers the mutations of every handler that succeeded, in call order: all of
/// them together, each handler's list whole, starting right after those of the successful
/// handlers called before it.
pub proof fn law_mutations_of_every_success_kept<M>(outs: Seq<HandlerOutcome<M>>, i: int)
    requires
        0 <= i < outs.len(),
    ensures
        mutations_of(outs).len() == mutation_total(outs),
        outs[i] matches Some(Ok(v)) ==> mutation_total(outs.take(i)) + v@.len() <= mutations_of(outs).len()
            && mutations_of(outs).subrange(mutation_total(outs.take(i)) as int, (mutation_total(outs.take(i)) + v@.len()) as int) == v@,
    decreases outs.len(),
{
    lemma_mutation_total(outs);
    let t = outs.drop_last();
    if i < outs.len() - 1 {
        law_mutations_of_every_success_kept(t, i);
        assert(outs.take(i) =~= t.take(i));
        assert(t[i] == outs[i]);
        match outs[i] {
            Some(Ok(v)) => {
                let a = mutation_total(t.take(i)) as int;
                assert(mutations_of(outs).subrange(a, a + v@.len()) =~= mutations_of(t).subrange(a, a + v@.len()));
            },
            _ => {},
        }
    } else {
        assert(outs.take(i) =~= t);
        lemma_mutation_total(t);
        match outs[i] {
            Some(Ok(v)) => {
                assert(mutations_of(outs) == mutations_of(t) + v@);
                assert(mutations_of(outs).subrange(mutations_of(t).len() as int, (mutations_of(t).len() + v@.len()) as int) =~= v@);
            },
            _ => {},
        }
    }
}

/// The gathered mutations are as many as the successful handlers returned.
proof fn lemma_mutation_total<M>(outs: Seq<HandlerOutcome<M>>)
    ensures
        mutations_of(outs).len() == mutation_total(outs),
    decreases outs.len(),
{
    if outs.len() > 0 {
        lemma_mutation_total(outs.drop_last());
    }
}

/// `r` reports the dispatch of `event` to the handlers of `subs` in order: each was called
/// through `run` with what calling it needs, and `r` counts the calls and successes, lists
/// the failures and gathers the mutations of the handlers that succeeded.
pub open spec fn reports<M, F: Fn(HandlerCall) -> HandlerOutcome<M>>(r: DispatchResult<M>, event: EventInfo, subs: Seq<EventSubscription>, run: F) -> bool {
    &&& r.event_type == event.event_type
    &&& r.handlers_called == subs.len()
    &&& exists|calls: Seq<HandlerCall>, outs: Seq<HandlerOutcome<M>>| {
        &&& calls.len() == subs.len()
        &&& outs.len() == subs.len()
        &&& forall|i: int| #![trigger calls[i]] 0 <= i < subs.len() ==> call_for(calls[i], subs[i]) && run.ensures((calls[i],), outs[i])
        &&& r.successes == success_count(outs)
        &&& r.failures@.map_values(|f: (u128, String)| (f.0, f.1@)) == failures_of(subs, outs)
        &&& r.mutations@ == mutations_of(outs)
    }
}

/// The subscriptions that take `event` among those of `registry` for its type, by priority.
pub open spec fn event_takers(registry: EventRegistry, event: EventInfo) -> Seq<EventSubscription> {
    takers(
        sorted_by_priority(handler_ids(registry.type_index(), event.event_type, registry.subscriptions().dom()), registry.subscriptions()),
        registry.subscriptions(), event)
}

/// The text of the failure of a handler whose script is not loaded.
pub open spec fn missing_script_text(path: Seq<char>) -> Seq<char> {
    "Script not found: "@ + path
}

/// Dispatches events to the script handlers that subscribed to them.
pub struct EventDispatcher {
    /// The subscriptions
    pub registry: EventRegistry,
}

impl EventDispatcher {
    /// A dispatcher over the given registry.
    pub fn new(registry: EventRegistry) -> (r: Self)
        ensures
            r.registry == registry,
    {
        EventDispatcher { registry }
    }

    /// Dispatch an event to the handlers registered for its type, by priority: each one that
    /// takes the event is called through `run`, which runs the handler and returns its
    /// mutations or its error, or `None` when the handler's script is not loaded (a failure
    /// that names the script). The result counts the calls and successes, lists the failures
    /// and gathers the mutations of the handlers that succeeded, in call order.
    pub fn dispatch<M, F>(&self, event: &EventInfo, run: F) -> (r: DispatchResult<M>)
        where F: Fn(HandlerCall) -> HandlerOutcome<M>,
        requires
            self.registry.inv(),
            forall|c: HandlerCall| #[trigger] run.requires((c,)),
        ensures
            reports(r, *event, event_takers(self.registry, *event), run),
    {
        let mut result: DispatchResult<M> = DispatchResult::new(event.event_type);
        let handlers = self.registry.get_handlers_sorted(event.event_type);
        let ghost ids = sorted_by_priority(handler_ids(self.registry.type_index(), event.event_type, self.registry.subscriptions().dom()), self.registry.subscriptions());
        let ghost m = self.registry.subscriptions();
        let ghost mut calls: Seq<HandlerCall> = Seq::empty();
        let ghost mut outs: Seq<HandlerOutcome<M>> = Seq::empty();
        let ghost mut subs: Seq<EventSubscription> = Seq::empty();
        let mut i: usize = 0;
        proof {
            assert(result.failures@.map_values(|f: (u128, String)| (f.0, f.1@)) =~= Seq::<(u128, Seq<char>)>::empty());
            assert(ids.take(0) =~= Seq::<u128>::empty());
        }
        while i < handlers.len()
            invariant
                handlers@.len() == ids.len(),
                forall|k: int| 0 <= k < handlers@.len() ==> same_subscription(#[trigger] handlers@[k], m[ids[k]]),
                i <= handlers@.len(),
                subs == takers(ids.take(i as int), m, *event),
                result.event_type == event.event_type,
                result.handlers_called == subs.len(),
                calls.len() == subs.len(),
                outs.len() == subs.len(),
                forall|j: int| #![trigger calls[j]] 0 <= j < calls.len() ==> call_for(calls[j], subs[j]) && run.ensures((calls[j],), outs[j]),
                result.successes == success_count(outs),
                result.failures@.map_values(|f: (u128, String)| (f.0, f.1@)) == failures_of(subs, outs),
                result.mutations@ == mutations_of(outs),
                result.handlers_called <= i,
                success_count(outs) <= outs.len(),
                forall|c: HandlerCall| #[trigger] run.requires((c,)),
            decreases handlers@.len() - i,
        {
            let handler = &handlers[i];
            proof {
                assert(ids.take(i as int + 1).drop_last() =~= ids.take(i as int));
                assert(ids.take(i as int + 1).last() == ids[i as int]);
                assert(same_subscription(handlers@[i as int], m[ids[i as int]]));
            }
            if accepts(handler, event) {
                let ghost sub = m[ids[i as int]];
                let ghost before = subs;
                let ghost old_outs = outs;
                let ghost old_calls = calls;
                result.handlers_called = result.handlers_called + 1;
                let call = handler_call(handler);
                let ghost c = call;
                let out = run(call);
                let ghost o = out;
                let ghost f = |x: (u128, String)| (x.0, x.1@);
                let ghost old_failures = result.failures@;
                assert(takers(ids.take(i as int + 1), m, *event) == before.push(sub));
                proof {
                    assert(context_entries_for(*handler) == context_entries_for(sub));
                    subs = before.push(sub);
                    calls = old_calls.push(c);
                    outs = old_outs.push(o);
                    assert(outs.drop_last() =~= old_outs);
                    assert(subs.drop_last() =~= before);
                    assert(calls.len() == subs.len());
                    assert(success_count(outs) <= outs.len());
                    assert forall|j: int| #![trigger calls[j]] 0 <= j < calls.len() implies call_for(calls[j], subs[j]) && run.ensures((calls[j],), outs[j]) by {
                        if j < calls.len() - 1 {
                            assert(calls[j] == old_calls[j]);
                            assert(outs[j] == old_outs[j]);
                            assert(subs[j] == before[j]);
                            assert(old_calls[j] == calls[j]);
                        } else {
                            assert(calls[j] == c);
                            assert(outs[j] == o);
                            assert(subs[j] == sub);
                            assert(call_for(c, sub));
                            assert(run.ensures((c,), o));
                        }
                    }
                }
                match out {
                    None => {
                        let mut message = owned("Script not found: ");
                        append_str(&mut message, handler.script_path.as_str());
                        result.failures.push((handler.id, message));
                        proof {
                            assert(result.failures@.map_values(f) =~= old_failures.map_values(f).push((sub.id, missing_script_text(sub.script_path@))));
                        }
                    },
                    Some(Ok(mut mutations)) => {
                        result.successes = result.successes + 1;
                        result.mutations.append(&mut mutations);
                    },
                    Some(Err(e)) => {
                        result.failures.push((handler.id, e));
                        proof {
                            assert(result.failures@.map_values(f) =~= old_failures.map_values(f).push((sub.id, e@)));
                        }
                    },
                }
            } else {
                assert(takers(ids.take(i as int + 1), m, *event) == subs);
            }
            i = i + 1;
        }
        proof {
            assert(ids.take(ids.len() as int) =~= ids);
        }
        result
    }

    /// Dispatch an event given by its parts (see `dispatch`).
    pub fn dispatch_simple<M, F>(
        &self,
        event_type: GameEventType,
        sector_id: u128,
        actor_id: Option<u128>,
        target_id: Option<u128>,
        run: F,
    ) -> (r: DispatchResult<M>)
        where F: Fn(HandlerCall) -> HandlerOutcome<M>,
        requires
            self.registry.inv(),
            forall|c: HandlerCall| #[trigger] run.requires((c,)),
        ensures
            reports(r, EventInfo { event_type, sector_id, actor_id, target_id },
                event_takers(self.registry, EventInfo { event_type, sector_id, actor_id, target_id }), run),
    {
        let event = EventInfo { event_type, sector_id, actor_id, target_id };
        self.dispatch(&event, run)
    }
}

} // verus!
