//! The behavior manager: attaches behaviors to entities, runs their hooks, and keeps them
//! by identifier and by entity.

use vstd::prelude::*;
use crate::behaviors::{BehaviorExecResult, BehaviorState, EntityBehavior, HookCall, HookOutcome, event_passed, hook_call, hook_call_for, hook_result, hook_result_of};
use crate::coroutines::scheduler::{without, lemma_without, lemma_without_step};
use crate::debug::controller::{DebugController, session_ids_where, watching_for};
use crate::debug::types::DebugTarget;
use crate::engine::ScriptError;
use crate::events::{EventRegistry, owned_ids, other_owners, ids_under, pairs_without_key, lemma_other_owners};
use crate::maps::IdMap;
use crate::state::EntityType;
use crate::text::owned;

verus! {

broadcast use vstd::seq_lib::lemma_seq_contains_after_push;

/// The identifiers, among `keys`, of active behaviors, in order.
pub open spec fn active_ids<D, T>(keys: Seq<u128>, m: Map<u128, EntityBehavior<D, T>>) -> Seq<u128>
    decreases keys.len(),
{
    if keys.len() == 0 {
        Seq::empty()
    } else {
        let r = active_ids(keys.drop_last(), m);
        if m[keys.last()].state == BehaviorState::Active { r.push(keys.last()) } else { r }
    }
}

/// The identifiers, among `keys`, of active behaviors in `sector` or with no sector, in order.
pub open spec fn listening_ids<D, T>(keys: Seq<u128>, m: Map<u128, EntityBehavior<D, T>>, sector: u128) -> Seq<u128>
    decreases keys.len(),
{
    if keys.len() == 0 {
        Seq::empty()
    } else {
        let r = listening_ids(keys.drop_last(), m, sector);
        let b = m[keys.last()];
        if b.state == BehaviorState::Active && (b.sector_id matches Some(s) ==> s == sector) { r.push(keys.last()) } else { r }
    }
}

/// The identifiers, among `keys`, of behaviors attached to `entity` (to any entity when it is
/// `None`), only the active ones when `active_only`, in order.
pub open spec fn selected_ids<D, T>(keys: Seq<u128>, m: Map<u128, EntityBehavior<D, T>>, entity: Option<u128>, active_only: bool) -> Seq<u128>
    decreases keys.len(),
{
    if keys.len() == 0 {
        Seq::empty()
    } else {
        let r = selected_ids(keys.drop_last(), m, entity, active_only);
        let b = m[keys.last()];
        if (entity matches Some(e) ==> b.entity_id == e) && (active_only ==> b.state == BehaviorState::Active) {
            r.push(keys.last())
        } else {
            r
        }
    }
}

/// `r` is how running `hook` of `b` at `tick` went: without a state accessor a failure that
/// says so; otherwise `run` was called with what the call needs (the sessions in `sessions`
/// being those watching the script) and a copy of the local data, and `r` reads its outcome
/// (see `hook_result_of`).
pub open spec fn hook_ran<D: Clone, T, F: Fn(HookCall<D>) -> HookOutcome<D>>(
    accessor: bool,
    b: EntityBehavior<D, T>,
    hook: Seq<char>,
    event: Option<&D>,
    tick: u64,
    sessions: Seq<u128>,
    run: F,
    r: BehaviorExecResult<D>,
) -> bool {
    if !accessor {
        &&& r.behavior_id == b.id
        &&& !r.success
        &&& r.error matches Some(e) && e@ == "No state accessor configured"@
        &&& r.updated_local_data is None
    } else {
        exists|c: HookCall<D>, o: HookOutcome<D>| {
            &&& hook_call_for(c, b, hook, tick, sessions)
            &&& cloned(b.local_data, c.local_data)
            &&& event_passed(event, c.event_data)
            &&& #[trigger] run.ensures((c,), o)
            &&& r == hook_result_of(b.id, o)
        }
    }
}

/// `after` is `before` once the hook result `r` is applied: a successful hook that returned
/// local data leaves a copy of it as the behavior's local data; otherwise nothing changes.
pub open spec fn kept_data<D: Clone, T>(r: BehaviorExecResult<D>, before: EntityBehavior<D, T>, after: EntityBehavior<D, T>) -> bool {
    if r.success && r.updated_local_data is Some {
        same_but_data(after, before) && cloned(r.updated_local_data->0, after.local_data)
    } else {
        after == before
    }
}

/// `b` is the behavior an attach makes before its `on_spawn` hook runs: identifier `id`, the
/// given entity, script, sector and local data, initializing, with no behavior tree.
pub open spec fn spawned<D, T>(b: EntityBehavior<D, T>, id: u128, entity_id: u128, entity_type: EntityType, script_path: Seq<char>, sector_id: Option<u128>, local_data: D) -> bool {
    &&& b.id == id
    &&& b.entity_id == entity_id
    &&& b.entity_type == entity_type
    &&& b.script_path@ == script_path
    &&& b.state == BehaviorState::Initializing
    &&& b.local_data == local_data
    &&& b.sector_id == sector_id
    &&& b.behavior_tree is None
}

/// The active identifiers come from `keys`, once each when `keys` has no repeats.
pub proof fn lemma_active_ids<D, T>(keys: Seq<u128>, m: Map<u128, EntityBehavior<D, T>>)
    ensures
        forall|x: u128| #[trigger] active_ids(keys, m).contains(x) ==> keys.contains(x),
        keys.no_duplicates() ==> active_ids(keys, m).no_duplicates(),
    decreases keys.len(),
{
    if keys.len() > 0 {
        lemma_active_ids(keys.drop_last(), m);
        let prev = active_ids(keys.drop_last(), m);
        assert forall|x: u128| #[trigger] keys.drop_last().contains(x) implies keys.contains(x) by {
            let j = choose|j: int| 0 <= j < keys.drop_last().len() && keys.drop_last()[j] == x;
            assert(keys[j] == x);
        }
        if keys.no_duplicates() {
            assert(keys.drop_last().no_duplicates());
            assert(!keys.drop_last().contains(keys.last())) by {
                if keys.drop_last().contains(keys.last()) {
                    let j = choose|j: int| 0 <= j < keys.drop_last().len() && keys.drop_last()[j] == keys.last();
                    assert(keys[j] == keys[keys.len() - 1]);
                }
            }
            assert(!prev.contains(keys.last()));
            assert forall|a: int, b: int| 0 <= a < b < prev.push(keys.last()).len() implies prev.push(keys.last())[a] != prev.push(keys.last())[b] by {
                if b == prev.len() {
                    assert(prev.contains(prev[a]));
                }
            }
        }
    }
}

/// The listening identifiers come from `keys`, once each when `keys` has no repeats.
pub proof fn lemma_listening_ids<D, T>(keys: Seq<u128>, m: Map<u128, EntityBehavior<D, T>>, sector: u128)
    ensures
        forall|x: u128| #[trigger] listening_ids(keys, m, sector).contains(x) ==> keys.contains(x),
        keys.no_duplicates() ==> listening_ids(keys, m, sector).no_duplicates(),
    decreases keys.len(),
{
    if keys.len() > 0 {
        lemma_listening_ids(keys.drop_last(), m, sector);
        let prev = listening_ids(keys.drop_last(), m, sector);
        assert forall|x: u128| #[trigger] keys.drop_last().contains(x) implies keys.contains(x) by {
            let j = choose|j: int| 0 <= j < keys.drop_last().len() && keys.drop_last()[j] == x;
            assert(keys[j] == x);
        }
        if keys.no_duplicates() {
            assert(keys.drop_last().no_duplicates());
            assert(!keys.drop_last().contains(keys.last())) by {
                if keys.drop_last().contains(keys.last()) {
                    let j = choose|j: int| 0 <= j < keys.drop_last().len() && keys.drop_last()[j] == keys.last();
                    assert(keys[j] == keys[keys.len() - 1]);
                }
            }
            assert(!prev.contains(keys.last()));
            assert forall|a: int, b: int| 0 <= a < b < prev.push(keys.last()).len() implies prev.push(keys.last())[a] != prev.push(keys.last())[b] by {
                if b == prev.len() {
                    assert(prev.contains(prev[a]));
                }
            }
        }
    }
}

/// The identifiers among `ids` that are in `live`, in order.
pub open spec fn present_ids(ids: Seq<u128>, live: Set<u128>) -> Seq<u128>
    decreases ids.len(),
{
    if ids.len() == 0 {
        Seq::empty()
    } else {
        let r = present_ids(ids.drop_last(), live);
        if live.contains(ids.last()) { r.push(ids.last()) } else { r }
    }
}

/// `b` is `orig` with, perhaps, other local data.
pub open spec fn same_but_data<D, T>(b: EntityBehavior<D, T>, orig: EntityBehavior<D, T>) -> bool {
    b == (EntityBehavior { local_data: b.local_data, ..orig })
}

/// Manages entity behaviors.
pub struct BehaviorManager<D, T> {
    behaviors: IdMap<EntityBehavior<D, T>>,
    by_entity: Vec<(u128, u128)>,
    accessor_configured: bool,
    debug_target: DebugTarget,
    current_tick: u64,
}

impl<D: Clone, T> BehaviorManager<D, T> {
    /// The behaviors by identifier.
    pub closed spec fn behaviors_view(&self) -> Map<u128, EntityBehavior<D, T>> {
        self.behaviors@
    }

    /// The behavior identifiers in the order they were attached.
    pub closed spec fn order(&self) -> Seq<u128> {
        self.behaviors.key_seq()
    }

    /// The (entity, behavior) registrations, oldest first.
    pub closed spec fn entity_index(&self) -> Seq<(u128, u128)> {
        self.by_entity@
    }

    /// Whether a state accessor is configured (hooks cannot run without one).
    pub closed spec fn accessor_configured_view(&self) -> bool {
        self.accessor_configured
    }

    /// The debug target of this manager.
    pub closed spec fn debug_target_view(&self) -> DebugTarget {
        self.debug_target
    }

    /// The current game tick.
    pub closed spec fn current_tick_view(&self) -> u64 {
        self.current_tick
    }

    /// `self` is `prev` after an attach that made behavior `id` and whose `on_spawn` hook gave
    /// `res`: on success the behavior is active, with the local data the hook returned (else
    /// `local_data`), and registered under its entity; on failure it is gone again and the
    /// error carries the hook's error text, or "on_spawn failed".
    pub open spec fn attached_from(
        &self,
        prev: Self,
        r: Result<u128, ScriptError>,
        id: u128,
        res: BehaviorExecResult<D>,
        entity_id: u128,
        entity_type: EntityType,
        script_path: Seq<char>,
        sector_id: Option<u128>,
        local_data: D,
    ) -> bool {
        &&& res.behavior_id == id
        &&& (res.success ==> {
            &&& r == Ok::<u128, ScriptError>(id)
            &&& self.behaviors_view().contains_key(id)
            &&& self.behaviors_view() == prev.behaviors_view().insert(id, self.behaviors_view()[id])
            &&& self.behaviors_view()[id].entity_id == entity_id
            &&& self.behaviors_view()[id].entity_type == entity_type
            &&& self.behaviors_view()[id].script_path@ == script_path
            &&& self.behaviors_view()[id].sector_id == sector_id
            &&& self.behaviors_view()[id].state == BehaviorState::Active
            &&& self.behaviors_view()[id].local_data == match res.updated_local_data { Some(d) => d, None => local_data }
            &&& self.entity_index() == prev.entity_index().push((entity_id, id))
        })
        &&& (!res.success ==> {
            &&& r matches Err(ScriptError::RuntimeError(m)) && m@ == match res.error { Some(e) => e@, None => "on_spawn failed"@ }
            &&& self.behaviors_view() == prev.behaviors_view().remove(id)
            &&& self.entity_index() == without(prev.entity_index().push((entity_id, id)), (entity_id, id))
        })
    }

    /// The manager is well formed: each behavior is kept under its own identifier.
    pub closed spec fn inv(&self) -> bool {
        &&& self.behaviors.wf()
        &&& forall|k: u128| #[trigger] self.behaviors@.contains_key(k) ==> self.behaviors@[k].id == k
    }

    proof fn lemma_order(&self)
        requires
            self.inv(),
        ensures
            self.order().no_duplicates(),
            self.order().len() == self.behaviors_view().len(),
            forall|k: u128| #[trigger] self.order().contains(k) <==> self.behaviors_view().contains_key(k),
    {
        self.behaviors.lemma_dom();
    }

    /// A manager with no behaviors, no state accessor, debugging the live server, at tick 0.
    pub fn new() -> (r: Self)
        ensures
            r.inv(),
            r.behaviors_view() == Map::<u128, EntityBehavior<D, T>>::empty(),
            r.entity_index().len() == 0,
            !r.accessor_configured_view(),
            r.debug_target_view() == DebugTarget::Live,
            r.current_tick_view() == 0,
    {
        BehaviorManager {
            behaviors: IdMap::new(),
            by_entity: Vec::new(),
            accessor_configured: false,
            debug_target: DebugTarget::Live,
            current_tick: 0,
        }
    }

    /// Set the debug target context for this behavior manager.
    pub fn set_debug_target(&mut self, target: DebugTarget)
        ensures
            final(self).debug_target_view() == target,
            final(self).behaviors_view() == old(self).behaviors_view(),
            final(self).order() == old(self).order(),
            final(self).entity_index() == old(self).entity_index(),
            final(self).accessor_configured_view() == old(self).accessor_configured_view(),
            final(self).current_tick_view() == old(self).current_tick_view(),
            final(self).inv() == old(self).inv(),
    {
        self.debug_target = target;
    }

    /// Record whether a state accessor is configured.
    pub fn set_state_accessor_configured(&mut self, configured: bool)
        ensures
            final(self).accessor_configured_view() == configured,
            final(self).behaviors_view() == old(self).behaviors_view(),
            final(self).order() == old(self).order(),
            final(self).entity_index() == old(self).entity_index(),
            final(self).debug_target_view() == old(self).debug_target_view(),
            final(self).current_tick_view() == old(self).current_tick_view(),
            final(self).inv() == old(self).inv(),
    {
        self.accessor_configured = configured;
    }

    /// The sessions of `debug` watching `script` for this manager's target.
    pub open spec fn watching_sessions(&self, debug: Option<&DebugController>, script: Seq<char>) -> Seq<u128> {
        match debug {
            Some(c) => session_ids_where(c.session_order(), c.sessions_view(), watching_for(script, self.debug_target_view())),
            None => Seq::empty(),
        }
    }

    /// Runs `hook` of behavior `b` at `tick` through `run`. Without a state accessor the hook
    /// cannot run and the result is a failure.
    fn call_hook_for_behavior<F>(&self, b: &EntityBehavior<D, T>, hook: &str, event: Option<&D>, tick: u64, debug: Option<&DebugController>, run: &F) -> (r: BehaviorExecResult<D>)
        where F: Fn(HookCall<D>) -> HookOutcome<D>,
        requires
            debug matches Some(c) ==> c.inv(),
            forall|c: HookCall<D>| #[trigger] run.requires((c,)),
        ensures
            r.behavior_id == b.id,
            hook_ran(self.accessor_configured_view(), *b, hook@, event, tick, self.watching_sessions(debug, b.script_path@), *run, r),
    {
        if !self.accessor_configured {
            return BehaviorExecResult::failure(b.id, owned("No state accessor configured"));
        }
        let call = match debug {
            Some(c) => hook_call(b, hook, event, tick, Some((c, self.debug_target))),
            None => hook_call(b, hook, event, tick, None),
        };
        let ghost c = call;
        let outcome = run(call);
        let ghost o = outcome;
        hook_result(b.id, outcome)
    }

    /// Attach a behavior to an entity and run its `on_spawn` hook. `script_exists` tells
    /// whether the script is loaded; when it is not, nothing changes. When the hook fails the
    /// behavior is removed again and the error carries the hook's error text (or "on_spawn
    /// failed"); when it succeeds the behavior becomes active, with the local data the hook
    /// returned, if any.
    pub fn attach<F>(
        &mut self,
        script_exists: bool,
        entity_id: u128,
        entity_type: EntityType,
        script_path: &str,
        sector_id: Option<u128>,
        local_data: D,
        debug: Option<&DebugController>,
        run: F,
    ) -> (r: Result<u128, ScriptError>)
        where F: Fn(HookCall<D>) -> HookOutcome<D>,
        requires
            old(self).inv(),
            debug matches Some(c) ==> c.inv(),
            forall|c: HookCall<D>| #[trigger] run.requires((c,)),
        ensures
            final(self).inv(),
            final(self).current_tick_view() == old(self).current_tick_view(),
            !script_exists ==> *final(self) == *old(self) && (r matches Err(ScriptError::NotFound(p)) && p@ == script_path@),
            script_exists ==> (exists|id: u128, res: BehaviorExecResult<D>, b: EntityBehavior<D, T>|
                #![trigger final(self).attached_from(*old(self), r, id, res, entity_id, entity_type, script_path@, sector_id, local_data), spawned(b, id, entity_id, entity_type, script_path@, sector_id, local_data)]
                final(self).attached_from(*old(self), r, id, res, entity_id, entity_type, script_path@, sector_id, local_data)
                && spawned(b, id, entity_id, entity_type, script_path@, sector_id, local_data)
                && hook_ran(old(self).accessor_configured_view(), b, "on_spawn"@, None, old(self).current_tick_view(),
                    old(self).watching_sessions(debug, script_path@), run, res)),
    {
        if !script_exists {
            return Err(ScriptError::NotFound(owned(script_path)));
        }
        let mut behavior = EntityBehavior::new(entity_id, entity_type, script_path, local_data);
        if let Some(s) = sector_id {
            behavior = behavior.with_sector(s);
        }
        let id = behavior.id;
        let tick = self.current_tick;
        let result = self.call_hook_for_behavior(&behavior, "on_spawn", None, tick, debug, &run);
        let ghost res = result;
        let ghost b0 = behavior;
        self.behaviors.insert(id, behavior);
        self.by_entity.push((entity_id, id));
        if result.success {
            let new_data = result.updated_local_data;
            self.behaviors.modify(id, |b: EntityBehavior<D, T>| -> (r: EntityBehavior<D, T>)
                ensures
                    r == (EntityBehavior { state: BehaviorState::Active, local_data: match new_data { Some(d) => d, None => b.local_data }, ..b }),
                {
                    let EntityBehavior { id, entity_id, entity_type, script_path, state, local_data, sector_id, behavior_tree } = b;
                    let local_data = match new_data { Some(d) => d, None => local_data };
                    EntityBehavior { id, entity_id, entity_type, script_path, state: BehaviorState::Active, local_data, sector_id, behavior_tree }
                });
            proof {
                assert(self.behaviors_view() =~= old(self).behaviors_view().insert(id, self.behaviors_view()[id]));
                assert(res.behavior_id == id);
                assert(self.behaviors_view().contains_key(id));
                assert(self.behaviors_view()[id].entity_id == entity_id);
                assert(self.behaviors_view()[id].script_path@ == script_path@);
                assert(self.behaviors_view()[id].sector_id == sector_id);
                assert(self.behaviors_view()[id].state == BehaviorState::Active);
                assert(self.behaviors_view()[id].local_data == match res.updated_local_data { Some(d) => d, None => local_data });
                assert(self.entity_index() == old(self).entity_index().push((entity_id, id)));
                assert(self.attached_from(*old(self), Ok(id), id, res, entity_id, entity_type, script_path@, sector_id, local_data));
                assert(spawned(b0, id, entity_id, entity_type, script_path@, sector_id, local_data));
            }
            Ok(id)
        } else {
            self.behaviors.remove(id);
            self.drop_index_entry(entity_id, id);
            let message = match result.error {
                Some(e) => e,
                None => owned("on_spawn failed"),
            };
            let r = Err(ScriptError::RuntimeError(message));
            proof {
                assert(self.behaviors_view() =~= old(self).behaviors_view().remove(id));
                assert(res.behavior_id == id);
                assert(self.attached_from(*old(self), r, id, res, entity_id, entity_type, script_path@, sector_id, local_data));
                assert(spawned(b0, id, entity_id, entity_type, script_path@, sector_id, local_data));
            }
            r
        }
    }

    /// Drops the registrations of `id` under `entity_id`.
    fn drop_index_entry(&mut self, entity_id: u128, id: u128)
        ensures
            final(self).entity_index() == without(old(self).entity_index(), (entity_id, id)),
            final(self).behaviors == old(self).behaviors,
            final(self).accessor_configured == old(self).accessor_configured,
            final(self).debug_target == old(self).debug_target,
            final(self).current_tick == old(self).current_tick,
    {
        let ghost s = self.by_entity@;
        let mut kept: Vec<(u128, u128)> = Vec::new();
        let mut i: usize = 0;
        while i < self.by_entity.len()
            invariant
                self.by_entity@ == s,
                i <= s.len(),
                kept@ == without(s.take(i as int), (entity_id, id)),
            decreases s.len() - i,
        {
            proof { lemma_without_step(s, (entity_id, id), i as int); }
            let p = self.by_entity[i];
            if !(p.0 == entity_id && p.1 == id) {
                kept.push(p);
            }
            i = i + 1;
        }
        proof { assert(s.take(s.len() as int) =~= s); }
        self.by_entity = kept;
    }

    /// Detach a behavior: it is removed, its `on_destroy` hook runs (its result is ignored),
    /// and the event subscriptions of its entity are dropped from `events`. Returns whether it
    /// existed.
    pub fn detach<F>(&mut self, behavior_id: u128, debug: Option<&DebugController>, events: &mut EventRegistry, run: F) -> (r: bool)
        where F: Fn(HookCall<D>) -> HookOutcome<D>,
        requires
            old(self).inv(),
            debug matches Some(c) ==> c.inv(),
            old(events).inv(),
            forall|c: HookCall<D>| #[trigger] run.requires((c,)),
        ensures
            final(self).inv(),
            r == old(self).behaviors_view().contains_key(behavior_id),
            final(self).behaviors_view() == old(self).behaviors_view().remove(behavior_id),
            r ==> final(self).entity_index() == without(old(self).entity_index(), (old(self).behaviors_view()[behavior_id].entity_id, behavior_id)),
            !r ==> final(self).entity_index() == old(self).entity_index(),
            final(events).inv(),
            !r ==> *final(events) == *old(events),
            r ==> forall|k: u128| #[trigger] final(events).subscriptions().contains_key(k) <==>
                (old(events).subscriptions().contains_key(k)
                    && !owned_ids(old(events).owner_index(), old(self).behaviors_view()[behavior_id].entity_id).contains(k)),
            forall|k: u128| #[trigger] final(events).subscriptions().contains_key(k) ==>
                final(events).subscriptions()[k] == old(events).subscriptions()[k],
    {
        match self.behaviors.remove(behavior_id) {
            None => false,
            Some(behavior) => {
                self.drop_index_entry(behavior.entity_id, behavior_id);
                let behavior = EntityBehavior { state: BehaviorState::Destroying, ..behavior };
                let tick = self.current_tick;
                let _ = self.call_hook_for_behavior(&behavior, "on_destroy", None, tick, debug, &run);
                events.unsubscribe_for_entity(behavior.entity_id);
                true
            },
        }
    }
    /// Runs `hook` of the behavior `id` at `tick`; a behavior that no longer exists gives a
    /// failure.
    fn call_hook<F>(&self, id: u128, hook: &str, event: Option<&D>, tick: u64, debug: Option<&DebugController>, run: &F) -> (r: BehaviorExecResult<D>)
        where F: Fn(HookCall<D>) -> HookOutcome<D>,
        requires
            self.inv(),
            debug matches Some(c) ==> c.inv(),
            forall|c: HookCall<D>| #[trigger] run.requires((c,)),
        ensures
            r.behavior_id == id,
            self.behaviors_view().contains_key(id) ==> hook_ran(self.accessor_configured_view(), self.behaviors_view()[id], hook@, event, tick,
                self.watching_sessions(debug, self.behaviors_view()[id].script_path@), *run, r),
    {
        match self.behaviors.get(id) {
            Some(b) => self.call_hook_for_behavior(b, hook, event, tick, debug, run),
            None => BehaviorExecResult::failure(id, owned("Behavior not found")),
        }
    }

    /// Replaces the local data of behavior `id` with a clone of `data`.
    fn store_local_data(&mut self, id: u128, data: &D)
        requires
            old(self).inv(),
        ensures
            final(self).inv(),
            final(self).behaviors_view().dom() == old(self).behaviors_view().dom(),
            forall|k: u128| #[trigger] old(self).behaviors_view().contains_key(k) ==> same_but_data(final(self).behaviors_view()[k], old(self).behaviors_view()[k]),
            forall|k: u128| #[trigger] old(self).behaviors_view().contains_key(k) && k != id ==> final(self).behaviors_view()[k] == old(self).behaviors_view()[k],
            old(self).behaviors_view().contains_key(id) ==> cloned(*data, final(self).behaviors_view()[id].local_data),
            final(self).order() == old(self).order(),
            final(self).entity_index() == old(self).entity_index(),
            final(self).current_tick_view() == old(self).current_tick_view(),
            final(self).accessor_configured_view() == old(self).accessor_configured_view(),
            final(self).debug_target_view() == old(self).debug_target_view(),
    {
        self.behaviors.modify(id, |b: EntityBehavior<D, T>| -> (r: EntityBehavior<D, T>)
            ensures
                same_but_data(r, b),
                cloned(*data, r.local_data),
            { EntityBehavior { local_data: data.clone(), ..b } });
        proof {
            assert forall|k: u128| #[trigger] old(self).behaviors_view().contains_key(k) implies same_but_data(self.behaviors_view()[k], old(self).behaviors_view()[k]) by {
            }
        }
    }

    /// Update all active behaviors: the tick becomes `tick` and each behavior active at the
    /// start runs its `on_update` hook, in attach order; a successful hook that returns local
    /// data replaces the behavior's. Returns the hooks' results in that order. Behavior trees
    /// are not ticked here: the `behavior_tree` a behavior holds is left to the host's tree
    /// runner.
    pub fn update_all<F>(&mut self, tick: u64, debug: Option<&DebugController>, run: F) -> (r: Vec<BehaviorExecResult<D>>)
        where F: Fn(HookCall<D>) -> HookOutcome<D>,
        requires
            old(self).inv(),
            debug matches Some(c) ==> c.inv(),
            forall|c: HookCall<D>| #[trigger] run.requires((c,)),
        ensures
            final(self).inv(),
            final(self).current_tick_view() == tick,
            r@.len() == active_ids(old(self).order(), old(self).behaviors_view()).len(),
            forall|i: int| 0 <= i < r@.len() ==> #[trigger] r@[i].behavior_id == active_ids(old(self).order(), old(self).behaviors_view())[i],
            forall|i: int| 0 <= i < r@.len() ==> hook_ran(old(self).accessor_configured_view(), old(self).behaviors_view()[active_ids(old(self).order(), old(self).behaviors_view())[i]], "on_update"@, None, tick,
                old(self).watching_sessions(debug, old(self).behaviors_view()[active_ids(old(self).order(), old(self).behaviors_view())[i]].script_path@), run, #[trigger] r@[i]),
            forall|i: int| 0 <= i < r@.len() ==> kept_data(#[trigger] r@[i], old(self).behaviors_view()[active_ids(old(self).order(), old(self).behaviors_view())[i]], final(self).behaviors_view()[active_ids(old(self).order(), old(self).behaviors_view())[i]]),
            forall|k: u128| #[trigger] old(self).behaviors_view().contains_key(k) && !active_ids(old(self).order(), old(self).behaviors_view()).contains(k) ==> final(self).behaviors_view()[k] == old(self).behaviors_view()[k],
            final(self).behaviors_view().dom() == old(self).behaviors_view().dom(),
            forall|k: u128| #[trigger] old(self).behaviors_view().contains_key(k) ==> same_but_data(final(self).behaviors_view()[k], old(self).behaviors_view()[k]),
            final(self).order() == old(self).order(),
            final(self).entity_index() == old(self).entity_index(),
    {
        self.current_tick = tick;
        let ids = self.active_id_list();
        proof {
            self.lemma_order();
            lemma_active_ids(self.order(), self.behaviors_view());
            assert forall|i: int| 0 <= i < ids@.len() implies self.behaviors_view().contains_key(#[trigger] ids@[i]) by {
                assert(ids@.contains(ids@[i]));
            }
        }
        self.run_hooks(&ids, "on_update", None, tick, debug, &run)
    }

    /// Notify behaviors of an event in `event_sector`: each behavior active at the start and in
    /// that sector (or with no sector) runs its `on_event` hook, given a clone of `event_data`,
    /// in attach order, at the current tick; a successful hook that returns local data replaces the behavior's. Returns the
    /// hooks' results in that order.
    pub fn notify_event<F>(&mut self, event_sector: u128, event_data: &D, run: F) -> (r: Vec<BehaviorExecResult<D>>)
        where F: Fn(HookCall<D>) -> HookOutcome<D>,
        requires
            old(self).inv(),
            forall|c: HookCall<D>| #[trigger] run.requires((c,)),
        ensures
            final(self).inv(),
            final(self).current_tick_view() == old(self).current_tick_view(),
            r@.len() == listening_ids(old(self).order(), old(self).behaviors_view(), event_sector).len(),
            forall|i: int| 0 <= i < r@.len() ==> #[trigger] r@[i].behavior_id == listening_ids(old(self).order(), old(self).behaviors_view(), event_sector)[i],
            forall|i: int| 0 <= i < r@.len() ==> hook_ran(old(self).accessor_configured_view(), old(self).behaviors_view()[listening_ids(old(self).order(), old(self).behaviors_view(), event_sector)[i]], "on_event"@, Some(event_data), old(self).current_tick_view(),
                old(self).watching_sessions(None::<&DebugController>, old(self).behaviors_view()[listening_ids(old(self).order(), old(self).behaviors_view(), event_sector)[i]].script_path@), run, #[trigger] r@[i]),
            forall|i: int| 0 <= i < r@.len() ==> kept_data(#[trigger] r@[i], old(self).behaviors_view()[listening_ids(old(self).order(), old(self).behaviors_view(), event_sector)[i]], final(self).behaviors_view()[listening_ids(old(self).order(), old(self).behaviors_view(), event_sector)[i]]),
            forall|k: u128| #[trigger] old(self).behaviors_view().contains_key(k) && !listening_ids(old(self).order(), old(self).behaviors_view(), event_sector).contains(k) ==> final(self).behaviors_view()[k] == old(self).behaviors_view()[k],
            final(self).behaviors_view().dom() == old(self).behaviors_view().dom(),
            forall|k: u128| #[trigger] old(self).behaviors_view().contains_key(k) ==> same_but_data(final(self).behaviors_view()[k], old(self).behaviors_view()[k]),
            final(self).order() == old(self).order(),
            final(self).entity_index() == old(self).entity_index(),
    {
        let ids = self.listening_id_list(event_sector);
        proof {
            self.lemma_order();
            lemma_listening_ids(self.order(), self.behaviors_view(), event_sector);
            assert forall|i: int| 0 <= i < ids@.len() implies self.behaviors_view().contains_key(#[trigger] ids@[i]) by {
                assert(ids@.contains(ids@[i]));
            }
        }
        let tick = self.current_tick;
        self.run_hooks(&ids, "on_event", Some(event_data), tick, None, &run)
    }

    /// Runs `hook` for each of `ids` (behaviors that exist, each named once), keeping the
    /// local data successful hooks return.
    fn run_hooks<F>(&mut self, ids: &Vec<u128>, hook: &str, event: Option<&D>, tick: u64, debug: Option<&DebugController>, run: &F) -> (r: Vec<BehaviorExecResult<D>>)
        where F: Fn(HookCall<D>) -> HookOutcome<D>,
        requires
            old(self).inv(),
            debug matches Some(c) ==> c.inv(),
            forall|c: HookCall<D>| #[trigger] run.requires((c,)),
            ids@.no_duplicates(),
            forall|i: int| 0 <= i < ids@.len() ==> old(self).behaviors_view().contains_key(#[trigger] ids@[i]),
        ensures
            final(self).inv(),
            final(self).current_tick_view() == old(self).current_tick_view(),
            final(self).accessor_configured_view() == old(self).accessor_configured_view(),
            final(self).debug_target_view() == old(self).debug_target_view(),
            r@.len() == ids@.len(),
            forall|i: int| 0 <= i < r@.len() ==> #[trigger] r@[i].behavior_id == ids@[i],
            forall|i: int| 0 <= i < r@.len() ==> hook_ran(old(self).accessor_configured_view(), old(self).behaviors_view()[ids@[i]], hook@, event, tick,
                old(self).watching_sessions(debug, old(self).behaviors_view()[ids@[i]].script_path@), *run, #[trigger] r@[i]),
            forall|i: int| 0 <= i < r@.len() ==> kept_data(#[trigger] r@[i], old(self).behaviors_view()[ids@[i]], final(self).behaviors_view()[ids@[i]]),
            forall|k: u128| #[trigger] old(self).behaviors_view().contains_key(k) && !ids@.contains(k) ==> final(self).behaviors_view()[k] == old(self).behaviors_view()[k],
            final(self).behaviors_view().dom() == old(self).behaviors_view().dom(),
            forall|k: u128| #[trigger] old(self).behaviors_view().contains_key(k) ==> same_but_data(final(self).behaviors_view()[k], old(self).behaviors_view()[k]),
            final(self).order() == old(self).order(),
            final(self).entity_index() == old(self).entity_index(),
    {
        let mut results: Vec<BehaviorExecResult<D>> = Vec::new();
        let mut i: usize = 0;
        while i < ids.len()
            invariant
                self.inv(),
                debug matches Some(c) ==> c.inv(),
                forall|c: HookCall<D>| #[trigger] run.requires((c,)),
                ids@.no_duplicates(),
                forall|j: int| 0 <= j < ids@.len() ==> old(self).behaviors_view().contains_key(#[trigger] ids@[j]),
                i <= ids@.len(),
                results@.len() == i,
                forall|j: int| 0 <= j < i ==> #[trigger] results@[j].behavior_id == ids@[j],
                forall|j: int| 0 <= j < i ==> hook_ran(old(self).accessor_configured_view(), old(self).behaviors_view()[ids@[j]], hook@, event, tick,
                    old(self).watching_sessions(debug, old(self).behaviors_view()[ids@[j]].script_path@), *run, #[trigger] results@[j]),
                forall|j: int| 0 <= j < i ==> kept_data(#[trigger] results@[j], old(self).behaviors_view()[ids@[j]], self.behaviors_view()[ids@[j]]),
                forall|k: u128| #[trigger] old(self).behaviors_view().contains_key(k) && !ids@.take(i as int).contains(k) ==> self.behaviors_view()[k] == old(self).behaviors_view()[k],
                self.current_tick_view() == old(self).current_tick_view(),
                self.accessor_configured_view() == old(self).accessor_configured_view(),
                self.debug_target_view() == old(self).debug_target_view(),
                self.behaviors_view().dom() == old(self).behaviors_view().dom(),
                forall|k: u128| #[trigger] old(self).behaviors_view().contains_key(k) ==> same_but_data(self.behaviors_view()[k], old(self).behaviors_view()[k]),
                self.order() == old(self).order(),
                self.entity_index() == old(self).entity_index(),
            decreases ids@.len() - i,
        {
            let id = ids[i];
            let ghost before = *self;
            proof {
                assert(!ids@.take(i as int).contains(id)) by {
                    if ids@.take(i as int).contains(id) {
                        let j = choose|j: int| 0 <= j < i && ids@.take(i as int)[j] == id;
                        assert(ids@[j] == ids@[i as int]);
                    }
                }
                assert(old(self).behaviors_view().contains_key(id));
                assert(self.behaviors_view()[id] == old(self).behaviors_view()[id]);
            }
            let result = self.call_hook(id, hook, event, tick, debug, run);
            let ghost res = result;
            if result.success {
                match &result.updated_local_data {
                    Some(data) => {
                        self.store_local_data(id, data);
                    },
                    None => {},
                }
            }
            results.push(result);
            proof {
                assert forall|k: u128| #[trigger] old(self).behaviors_view().contains_key(k) implies same_but_data(self.behaviors_view()[k], old(self).behaviors_view()[k]) by {
                    assert(before.behaviors_view().contains_key(k));
                }
                assert forall|k: u128| #[trigger] old(self).behaviors_view().contains_key(k) && !ids@.take(i as int + 1).contains(k) implies self.behaviors_view()[k] == old(self).behaviors_view()[k] by {
                    assert(k != id) by {
                        assert(ids@.take(i as int + 1)[i as int] == id);
                    }
                    assert(!ids@.take(i as int).contains(k)) by {
                        if ids@.take(i as int).contains(k) {
                            let j = choose|j: int| 0 <= j < i && ids@.take(i as int)[j] == k;
                            assert(ids@.take(i as int + 1)[j] == k);
                        }
                    }
                }
                assert forall|j: int| 0 <= j < i + 1 implies kept_data(#[trigger] results@[j], old(self).behaviors_view()[ids@[j]], self.behaviors_view()[ids@[j]]) by {
                    if j < i {
                        assert(ids@[j] != id);
                        assert(kept_data(results@[j], old(self).behaviors_view()[ids@[j]], before.behaviors_view()[ids@[j]]));
                    } else {
                        assert(results@[j] == res);
                    }
                }
                assert forall|j: int| 0 <= j < i + 1 implies hook_ran(old(self).accessor_configured_view(), old(self).behaviors_view()[ids@[j]], hook@, event, tick,
                    old(self).watching_sessions(debug, old(self).behaviors_view()[ids@[j]].script_path@), *run, #[trigger] results@[j]) by {
                    if j == i {
                        assert(results@[j] == res);
                    }
                }
            }
            i = i + 1;
        }
        proof {
            assert(ids@.take(ids@.len() as int) =~= ids@);
        }
        results
    }

    /// The identifiers of the active behaviors, in attach order.
    fn active_id_list(&self) -> (r: Vec<u128>)
        requires
            self.inv(),
        ensures
            r@ == active_ids(self.order(), self.behaviors_view()),
    {
        let n = self.behaviors.len();
        let mut r: Vec<u128> = Vec::new();
        let mut i: usize = 0;
        while i < n
            invariant
                self.inv(),
                n == self.order().len(),
                i <= n,
                r@ == active_ids(self.order().take(i as int), self.behaviors_view()),
            decreases n - i,
        {
            let e = self.behaviors.entry_at(i);
            proof {
                assert(self.order().take(i as int + 1).drop_last() =~= self.order().take(i as int));
                assert(self.order().take(i as int + 1).last() == self.order()[i as int]);
            }
            if e.1.state == BehaviorState::Active {
                r.push(e.0);
            }
            i = i + 1;
        }
        proof { assert(self.order().take(n as int) =~= self.order()); }
        r
    }

    /// The identifiers of the active behaviors in `sector` or with no sector, in attach order.
    fn listening_id_list(&self, sector: u128) -> (r: Vec<u128>)
        requires
            self.inv(),
        ensures
            r@ == listening_ids(self.order(), self.behaviors_view(), sector),
    {
        let n = self.behaviors.len();
        let mut r: Vec<u128> = Vec::new();
        let mut i: usize = 0;
        while i < n
            invariant
                self.inv(),
                n == self.order().len(),
                i <= n,
                r@ == listening_ids(self.order().take(i as int), self.behaviors_view(), sector),
            decreases n - i,
        {
            let e = self.behaviors.entry_at(i);
            proof {
                assert(self.order().take(i as int + 1).drop_last() =~= self.order().take(i as int));
                assert(self.order().take(i as int + 1).last() == self.order()[i as int]);
            }
            let in_sector = match e.1.sector_id { Some(s) => s == sector, None => true };
            if e.1.state == BehaviorState::Active && in_sector {
                r.push(e.0);
            }
            i = i + 1;
        }
        proof { assert(self.order().take(n as int) =~= self.order()); }
        r
    }

    /// The behaviors whose state is kept in the state store, in attach order: the active
    /// ones of `entity_id` (of every entity when it is `None`) when `active_only`, else all of
    /// them. Saving and restoring go by these.
    pub fn persisted_ids(&self, entity_id: Option<u128>, active_only: bool) -> (r: Vec<u128>)
        requires
            self.inv(),
        ensures
            r@ == selected_ids(self.order(), self.behaviors_view(), entity_id, active_only),
    {
        let n = self.behaviors.len();
        let mut r: Vec<u128> = Vec::new();
        let mut i: usize = 0;
        while i < n
            invariant
                self.inv(),
                n == self.order().len(),
                i <= n,
                r@ == selected_ids(self.order().take(i as int), self.behaviors_view(), entity_id, active_only),
            decreases n - i,
        {
            let e = self.behaviors.entry_at(i);
            proof {
                assert(self.order().take(i as int + 1).drop_last() =~= self.order().take(i as int));
                assert(self.order().take(i as int + 1).last() == self.order()[i as int]);
            }
            let entity_ok = match entity_id { Some(x) => e.1.entity_id == x, None => true };
            let state_ok = !active_only || e.1.state == BehaviorState::Active;
            if entity_ok && state_ok {
                r.push(e.0);
            }
            i = i + 1;
        }
        proof { assert(self.order().take(n as int) =~= self.order()); }
        r
    }

    /// Detach every behavior registered under an entity (see `detach`), and drop the entity's
    /// registrations.
    pub fn detach_for_entity<F>(&mut self, entity_id: u128, debug: Option<&DebugController>, events: &mut EventRegistry, run: F)
        where F: Fn(HookCall<D>) -> HookOutcome<D>,
        requires
            old(self).inv(),
            debug matches Some(c) ==> c.inv(),
            old(events).inv(),
            forall|c: HookCall<D>| #[trigger] run.requires((c,)),
        ensures
            final(self).inv(),
            final(events).inv(),
            forall|k: u128| #[trigger] final(self).behaviors_view().contains_key(k) <==>
                (old(self).behaviors_view().contains_key(k) && !owned_ids(old(self).entity_index(), entity_id).contains(k)),
            forall|k: u128| #[trigger] final(self).behaviors_view().contains_key(k) ==> final(self).behaviors_view()[k] == old(self).behaviors_view()[k],
            forall|p: (u128, u128)| #[trigger] final(self).entity_index().contains(p) ==> p.0 != entity_id && old(self).entity_index().contains(p),
            owned_ids(old(self).entity_index(), entity_id).len() == 0 ==> *final(events) == *old(events),
            forall|k: u128| #[trigger] final(events).subscriptions().contains_key(k) ==>
                old(events).subscriptions().contains_key(k) && final(events).subscriptions()[k] == old(events).subscriptions()[k],
    {
        let ids = ids_under(&self.by_entity, entity_id);
        let mut j: usize = 0;
        while j < ids.len()
            invariant
                self.inv(),
                events.inv(),
                debug matches Some(c) ==> c.inv(),
                forall|c: HookCall<D>| #[trigger] run.requires((c,)),
                j <= ids@.len(),
                ids@ == owned_ids(old(self).entity_index(), entity_id),
                forall|k: u128| #[trigger] self.behaviors_view().contains_key(k) <==>
                    (old(self).behaviors_view().contains_key(k) && !(exists|x: int| 0 <= x < j && ids@[x] == k)),
                forall|k: u128| #[trigger] self.behaviors_view().contains_key(k) ==> self.behaviors_view()[k] == old(self).behaviors_view()[k],
                forall|p: (u128, u128)| #[trigger] self.entity_index().contains(p) ==> old(self).entity_index().contains(p),
                j == 0 ==> *events == *old(events),
                forall|k: u128| #[trigger] events.subscriptions().contains_key(k) ==>
                    old(events).subscriptions().contains_key(k) && events.subscriptions()[k] == old(events).subscriptions()[k],
            decreases ids@.len() - j,
        {
            let id = ids[j];
            let ghost before = *self;
            self.detach(id, debug, events, &run);
            proof {
                if before.behaviors_view().contains_key(id) {
                    lemma_without(before.entity_index(), (before.behaviors_view()[id].entity_id, id));
                }
                assert forall|k: u128| #[trigger] self.behaviors_view().contains_key(k) <==>
                    (old(self).behaviors_view().contains_key(k) && !(exists|x: int| 0 <= x < j + 1 && ids@[x] == k)) by {
                    if exists|x: int| 0 <= x < j + 1 && ids@[x] == k {
                        let x = choose|x: int| 0 <= x < j + 1 && ids@[x] == k;
                        if x < j {
                            assert(exists|x: int| 0 <= x < j && ids@[x] == k);
                        }
                    }
                    if exists|x: int| 0 <= x < j && ids@[x] == k {
                        let x = choose|x: int| 0 <= x < j && ids@[x] == k;
                        assert(0 <= x < j + 1 && ids@[x] == k);
                    }
                }
            }
            j = j + 1;
        }
        let ghost mid = *self;
        let kept = pairs_without_key(&self.by_entity, entity_id);
        proof { lemma_other_owners(mid.entity_index(), entity_id); }
        self.by_entity = kept;
        proof {
            assert(self.behaviors_view() == mid.behaviors_view());
            assert forall|p: (u128, u128)| #[trigger] self.entity_index().contains(p) implies p.0 != entity_id && old(self).entity_index().contains(p) by {
                assert(mid.entity_index().contains(p));
            }
            assert forall|k: u128| #[trigger] self.behaviors_view().contains_key(k) <==>
                (old(self).behaviors_view().contains_key(k) && !owned_ids(old(self).entity_index(), entity_id).contains(k)) by {
                if owned_ids(old(self).entity_index(), entity_id).contains(k) {
                    let x = choose|x: int| 0 <= x < ids@.len() && ids@[x] == k;
                    assert(exists|x: int| 0 <= x < ids@.len() && ids@[x] == k);
                }
                if exists|x: int| 0 <= x < ids@.len() && ids@[x] == k {
                    let x = choose|x: int| 0 <= x < ids@.len() && ids@[x] == k;
                    assert(ids@.contains(k));
                }
            }
        }
    }

    /// Pause an active behavior; false, with nothing changed, for any other.
    pub fn pause(&mut self, behavior_id: u128) -> (r: bool)
        requires
            old(self).inv(),
        ensures
            final(self).inv(),
            r == (old(self).behaviors_view().contains_key(behavior_id) && old(self).behaviors_view()[behavior_id].state == BehaviorState::Active),
            r ==> final(self).behaviors_view() == old(self).behaviors_view().insert(behavior_id,
                EntityBehavior { state: BehaviorState::Paused, ..old(self).behaviors_view()[behavior_id] }),
            !r ==> final(self).behaviors_view() == old(self).behaviors_view(),
            final(self).order() == old(self).order(),
            final(self).entity_index() == old(self).entity_index(),
    {
        self.switch_state(behavior_id, BehaviorState::Active, BehaviorState::Paused)
    }

    /// Resume a paused behavior; false, with nothing changed, for any other.
    pub fn resume(&mut self, behavior_id: u128) -> (r: bool)
        requires
            old(self).inv(),
        ensures
            final(self).inv(),
            r == (old(self).behaviors_view().contains_key(behavior_id) && old(self).behaviors_view()[behavior_id].state == BehaviorState::Paused),
            r ==> final(self).behaviors_view() == old(self).behaviors_view().insert(behavior_id,
                EntityBehavior { state: BehaviorState::Active, ..old(self).behaviors_view()[behavior_id] }),
            !r ==> final(self).behaviors_view() == old(self).behaviors_view(),
            final(self).order() == old(self).order(),
            final(self).entity_index() == old(self).entity_index(),
    {
        self.switch_state(behavior_id, BehaviorState::Paused, BehaviorState::Active)
    }

    /// Moves behavior `id` from state `from` to state `to`.
    fn switch_state(&mut self, id: u128, from: BehaviorState, to: BehaviorState) -> (r: bool)
        requires
            old(self).inv(),
        ensures
            final(self).inv(),
            r == (old(self).behaviors_view().contains_key(id) && old(self).behaviors_view()[id].state == from),
            r ==> final(self).behaviors_view() == old(self).behaviors_view().insert(id,
                EntityBehavior { state: to, ..old(self).behaviors_view()[id] }),
            !r ==> final(self).behaviors_view() == old(self).behaviors_view(),
            final(self).order() == old(self).order(),
            final(self).entity_index() == old(self).entity_index(),
            final(self).current_tick_view() == old(self).current_tick_view(),
    {
        let current = match self.behaviors.get(id) {
            Some(b) => Some(b.state),
            None => None,
        };
        if current == Some(from) {
            self.behaviors.modify(id, |b: EntityBehavior<D, T>| -> (r: EntityBehavior<D, T>)
                ensures r == (EntityBehavior { state: to, ..b }),
                { EntityBehavior { state: to, ..b } });
            true
        } else {
            false
        }
    }

    /// Get count of active behaviors.
    pub fn active_count(&self) -> (r: usize)
        requires
            self.inv(),
        ensures
            r == active_ids(self.order(), self.behaviors_view()).len(),
    {
        self.active_id_list().len()
    }

    /// Get count of behaviors registered under an entity.
    pub fn count_for_entity(&self, entity_id: u128) -> (r: usize)
        ensures
            r == owned_ids(self.entity_index(), entity_id).len(),
    {
        ids_under(&self.by_entity, entity_id).len()
    }

    /// Set local data for a behavior; false when it does not exist.
    pub fn set_local_data(&mut self, behavior_id: u128, data: D) -> (r: bool)
        requires
            old(self).inv(),
        ensures
            final(self).inv(),
            r == old(self).behaviors_view().contains_key(behavior_id),
            r ==> final(self).behaviors_view() == old(self).behaviors_view().insert(behavior_id,
                EntityBehavior { local_data: data, ..old(self).behaviors_view()[behavior_id] }),
            !r ==> final(self).behaviors_view() == old(self).behaviors_view(),
            final(self).order() == old(self).order(),
            final(self).entity_index() == old(self).entity_index(),
    {
        self.behaviors.modify(behavior_id, |b: EntityBehavior<D, T>| -> (r: EntityBehavior<D, T>)
            ensures r == (EntityBehavior { local_data: data, ..b }),
            { EntityBehavior { local_data: data, ..b } })
    }

    /// Set the behavior tree of a behavior; false when it does not exist.
    pub fn set_behavior_tree(&mut self, behavior_id: u128, tree: T) -> (r: bool)
        requires
            old(self).inv(),
        ensures
            final(self).inv(),
            r == old(self).behaviors_view().contains_key(behavior_id),
            r ==> final(self).behaviors_view() == old(self).behaviors_view().insert(behavior_id,
                EntityBehavior { behavior_tree: Some(tree), ..old(self).behaviors_view()[behavior_id] }),
            !r ==> final(self).behaviors_view() == old(self).behaviors_view(),
            final(self).order() == old(self).order(),
            final(self).entity_index() == old(self).entity_index(),
    {
        self.behaviors.modify(behavior_id, |b: EntityBehavior<D, T>| -> (r: EntityBehavior<D, T>)
            ensures r == (EntityBehavior { behavior_tree: Some(tree), ..b }),
            { EntityBehavior { behavior_tree: Some(tree), ..b } })
    }

    /// Clear the behavior tree of a behavior; false when it does not exist.
    pub fn clear_behavior_tree(&mut self, behavior_id: u128) -> (r: bool)
        requires
            old(self).inv(),
        ensures
            final(self).inv(),
            r == old(self).behaviors_view().contains_key(behavior_id),
            r ==> final(self).behaviors_view() == old(self).behaviors_view().insert(behavior_id,
                EntityBehavior { behavior_tree: None, ..old(self).behaviors_view()[behavior_id] }),
            !r ==> final(self).behaviors_view() == old(self).behaviors_view(),
            final(self).order() == old(self).order(),
            final(self).entity_index() == old(self).entity_index(),
    {
        self.behaviors.modify(behavior_id, |b: EntityBehavior<D, T>| -> (r: EntityBehavior<D, T>)
            ensures r == (EntityBehavior { behavior_tree: None, ..b }),
            { EntityBehavior { behavior_tree: None, ..b } })
    }

    /// The behavior with this identifier.
    pub fn get(&self, behavior_id: u128) -> (r: Option<&EntityBehavior<D, T>>)
        requires
            self.inv(),
        ensures
            r is Some == self.behaviors_view().contains_key(behavior_id),
            r matches Some(b) ==> *b == self.behaviors_view()[behavior_id],
    {
        self.behaviors.get(behavior_id)
    }

    /// The behaviors registered under an entity that still exist, in registration order.
    pub fn get_behaviors(&self, entity_id: u128) -> (r: Vec<&EntityBehavior<D, T>>)
        requires
            self.inv(),
        ensures
            r@.len() == present_ids(owned_ids(self.entity_index(), entity_id), self.behaviors_view().dom()).len(),
            forall|i: int| 0 <= i < r@.len() ==> *r@[i] == self.behaviors_view()[
                #[trigger] present_ids(owned_ids(self.entity_index(), entity_id), self.behaviors_view().dom())[i]],
    {
        let ids = ids_under(&self.by_entity, entity_id);
        let ghost dom = self.behaviors_view().dom();
        let mut r: Vec<&EntityBehavior<D, T>> = Vec::new();
        let mut i: usize = 0;
        while i < ids.len()
            invariant
                self.inv(),
                dom == self.behaviors_view().dom(),
                i <= ids@.len(),
                r@.len() == present_ids(ids@.take(i as int), dom).len(),
                forall|j: int| 0 <= j < r@.len() ==> *r@[j] == self.behaviors_view()[#[trigger] present_ids(ids@.take(i as int), dom)[j]],
            decreases ids@.len() - i,
        {
            let id = ids[i];
            proof {
                assert(ids@.take(i as int + 1).drop_last() =~= ids@.take(i as int));
                assert(ids@.take(i as int + 1).last() == id);
            }
            let ghost before = present_ids(ids@.take(i as int), dom);
            match self.behaviors.get(id) {
                Some(b) => {
                    r.push(b);
                    proof {
                        assert(present_ids(ids@.take(i as int + 1), dom) == before.push(id));
                        assert forall|j: int| 0 <= j < r@.len() implies *r@[j] == self.behaviors_view()[#[trigger] present_ids(ids@.take(i as int + 1), dom)[j]] by {
                            if j < before.len() {
                                assert(present_ids(ids@.take(i as int + 1), dom)[j] == before[j]);
                            }
                        }
                    }
                },
                None => {},
            }
            i = i + 1;
        }
        proof { assert(ids@.take(ids@.len() as int) =~= ids@); }
        r
    }

    /// All behaviors, in attach order.
    pub fn list_all(&self) -> (r: Vec<&EntityBehavior<D, T>>)
        requires
            self.inv(),
        ensures
            r@.len() == self.order().len(),
            forall|i: int| 0 <= i < r@.len() ==> *r@[i] == self.behaviors_view()[#[trigger] self.order()[i]],
    {
        let n = self.behaviors.len();
        let mut r: Vec<&EntityBehavior<D, T>> = Vec::new();
        let mut i: usize = 0;
        while i < n
            invariant
                self.inv(),
                n == self.order().len(),
                i <= n,
                r@.len() == i,
                forall|j: int| 0 <= j < i ==> *r@[j] == self.behaviors_view()[#[trigger] self.order()[j]],
            decreases n - i,
        {
            let e = self.behaviors.entry_at(i);
            r.push(&e.1);
            i = i + 1;
        }
        r
    }
}

/// Resuming a behavior just paused gives back the behaviors as they were.
pub proof fn law_resume_undoes_pause<D, T>(before: Map<u128, EntityBehavior<D, T>>, id: u128)
    requires
        before.contains_key(id),
        before[id].state == BehaviorState::Active,
    ensures
        ({
            let paused = before.insert(id, EntityBehavior { state: BehaviorState::Paused, ..before[id] });
            let resumed = paused.insert(id, EntityBehavior { state: BehaviorState::Active, ..paused[id] });
            resumed == before
        }),
{
    let paused = before.insert(id, EntityBehavior { state: BehaviorState::Paused, ..before[id] });
    let resumed = paused.insert(id, EntityBehavior { state: BehaviorState::Active, ..paused[id] });
    assert(resumed =~= before);
}

} // verus!
