//! Coroutine scheduler
//!
//! Tracks which coroutines are ready to run, waiting for a tick, or waiting for an
//! event, and decides what happens to each after it runs.

use vstd::prelude::*;
use crate::context::ScriptExecutionContext;
use crate::coroutines::{clone_of, Coroutine, CoroutineExecResult, CoroutineState, CoroutineTickResult, YieldRequest, YieldType};
use crate::engine::{ScriptError, script_error_text};
use crate::ids::{id_text, id_text_of};
use crate::maps::{IdMap, StrMap};
use crate::state::{AccessPermissions, npc_permissions, trusted_permissions};
use crate::text::{owned, append_str};

verus! {

broadcast use vstd::seq_lib::lemma_seq_contains_after_push, vstd::seq_lib::lemma_seq_concat_contains_all_elements;

/// The coroutine with its state replaced.
pub open spec fn with_state<V>(c: Coroutine<V>, s: CoroutineState) -> Coroutine<V> {
    Coroutine { state: s, ..c }
}

/// A coroutine as `spawn` makes it: the given identifier, script, function, creation tick,
/// owner and sector, no saved variables and no resume value.
pub open spec fn fresh<V>(
    c: Coroutine<V>,
    id: u128,
    script_path: Seq<char>,
    function_name: Seq<char>,
    tick: u64,
    owner: Option<u128>,
    sector: Option<u128>,
) -> bool {
    &&& c.id == id
    &&& c.script_path@ == script_path
    &&& c.function_name@ == function_name
    &&& c.local_vars.wf()
    &&& c.local_vars@.len() == 0
    &&& c.resume_value is None
    &&& c.created_at == tick
    &&& c.owner_entity_id == owner
    &&& c.sector_id == sector
}

/// A live coroutine is where it will be woken from: a ready one is in the ready queue, one
/// waiting for a tick is registered under that tick, one waiting for an event under that event.
/// Its saved variables are well formed.
pub open spec fn registered<V>(
    c: Coroutine<V>,
    k: u128,
    ready: Seq<u128>,
    ticks: Seq<(u64, u128)>,
    events: Seq<(Seq<char>, u128)>,
) -> bool {
    &&& c.local_vars.wf()
    &&& c.state is Ready ==> ready.contains(k)
    &&& c.state is WaitingForTicks ==> (c.resume_at matches Some(t) && ticks.contains((t, k)))
    &&& c.state matches CoroutineState::WaitingForEvent(e) ==> events.contains((e@, k))
}

/// `s` without the occurrences of `x`, the rest in order.
pub open spec fn without<A>(s: Seq<A>, x: A) -> Seq<A>
    decreases s.len(),
{
    if s.len() == 0 {
        s
    } else {
        let r = without(s.drop_last(), x);
        if s.last() == x { r } else { r.push(s.last()) }
    }
}

/// Everything `without` keeps was in `s`, and it keeps everything but `x`.
pub proof fn lemma_without<A>(s: Seq<A>, x: A)
    ensures
        forall|y: A| #[trigger] without(s, x).contains(y) <==> (s.contains(y) && y != x),
    decreases s.len(),
{
    if s.len() > 0 {
        lemma_without(s.drop_last(), x);
        assert forall|y: A| #[trigger] without(s, x).contains(y) <==> (s.contains(y) && y != x) by {
            if s.contains(y) && y != x {
                let j = choose|j: int| 0 <= j < s.len() && s[j] == y;
                if j < s.len() - 1 {
                    assert(s.drop_last()[j] == y);
                }
            }
            if without(s.drop_last(), x).contains(y) {
                let j = choose|j: int| 0 <= j < s.drop_last().len() && s.drop_last()[j] == y;
                assert(s[j] == y);
            }
        }
    }
}

/// One more element of `s` taken into `without`.
pub proof fn lemma_without_step<A>(s: Seq<A>, x: A, i: int)
    requires
        0 <= i < s.len(),
    ensures
        without(s.take(i + 1), x) == if s[i] == x { without(s.take(i), x) } else { without(s.take(i), x).push(s[i]) },
{
    assert(s.take(i + 1).drop_last() =~= s.take(i));
}

/// Whether `k` is registered, among the first `n` entries of `s`, for a tick at or before `tick`.
pub open spec fn due_before(s: Seq<(u64, u128)>, n: int, tick: u64, k: u128) -> bool {
    exists|j: int| 0 <= j < n && s[j].0 <= tick && #[trigger] s[j].1 == k
}

/// The identifiers registered in `s` for a tick at or before `tick` whose coroutine is in
/// `live`, in registration order.
pub open spec fn due_live(s: Seq<(u64, u128)>, tick: u64, live: Set<u128>) -> Seq<u128>
    decreases s.len(),
{
    if s.len() == 0 {
        Seq::empty()
    } else {
        let r = due_live(s.drop_last(), tick, live);
        if s.last().0 <= tick && live.contains(s.last().1) { r.push(s.last().1) } else { r }
    }
}

/// The registrations in `s` for ticks after `tick`, in order.
pub open spec fn not_due(s: Seq<(u64, u128)>, tick: u64) -> Seq<(u64, u128)>
    decreases s.len(),
{
    if s.len() == 0 {
        s
    } else {
        let r = not_due(s.drop_last(), tick);
        if s.last().0 > tick { r.push(s.last()) } else { r }
    }
}

/// What `due_live` holds.
pub proof fn lemma_due_live(s: Seq<(u64, u128)>, tick: u64, live: Set<u128>)
    ensures
        forall|k: u128| #[trigger] due_live(s, tick, live).contains(k) <==> (due_before(s, s.len() as int, tick, k) && live.contains(k)),
    decreases s.len(),
{
    if s.len() > 0 {
        let t = s.drop_last();
        let n = s.len() as int;
        let last = s[n - 1];
        lemma_due_live(t, tick, live);
        assert(due_live(s, tick, live) == if last.0 <= tick && live.contains(last.1) { due_live(t, tick, live).push(last.1) } else { due_live(t, tick, live) });
        assert forall|k: u128| #[trigger] due_live(s, tick, live).contains(k) <==> (due_before(s, n, tick, k) && live.contains(k)) by {
            if due_before(s, n, tick, k) && live.contains(k) {
                let j = choose|j: int| 0 <= j < n && s[j].0 <= tick && #[trigger] s[j].1 == k;
                if j < n - 1 {
                    assert(t[j].1 == k);
                    assert(due_before(t, t.len() as int, tick, k));
                }
            }
            if due_live(s, tick, live).contains(k) {
                if last.0 <= tick && live.contains(last.1) && k == last.1 {
                    assert(s[n - 1].1 == k);
                } else {
                    assert(due_live(t, tick, live).contains(k));
                    let j = choose|j: int| 0 <= j < t.len() && t[j].0 <= tick && #[trigger] t[j].1 == k;
                    assert(s[j].1 == k);
                }
            }
        }
    }
}

/// What `not_due` holds.
pub proof fn lemma_not_due(s: Seq<(u64, u128)>, tick: u64)
    ensures
        forall|p: (u64, u128)| #[trigger] not_due(s, tick).contains(p) <==> (s.contains(p) && p.0 > tick),
    decreases s.len(),
{
    if s.len() > 0 {
        let t = s.drop_last();
        let n = s.len() as int;
        let last = s[n - 1];
        lemma_not_due(t, tick);
        assert(not_due(s, tick) == if last.0 > tick { not_due(t, tick).push(last) } else { not_due(t, tick) });
        assert forall|p: (u64, u128)| #[trigger] not_due(s, tick).contains(p) <==> (s.contains(p) && p.0 > tick) by {
            if s.contains(p) && p.0 > tick {
                let j = choose|j: int| 0 <= j < n && s[j] == p;
                if j < n - 1 {
                    assert(t[j] == p);
                }
            }
            if not_due(s, tick).contains(p) {
                if last.0 > tick && p == last {
                    assert(s[n - 1] == p);
                } else {
                    assert(not_due(t, tick).contains(p));
                    let j = choose|j: int| 0 <= j < t.len() && t[j] == p;
                    assert(s[j] == p);
                }
            }
        }
    }
}

/// The identifiers among `keys` of coroutines waiting for the next frame, in order.
pub open spec fn next_frame_ids<V>(keys: Seq<u128>, m: Map<u128, Coroutine<V>>) -> Seq<u128>
    decreases keys.len(),
{
    if keys.len() == 0 {
        Seq::empty()
    } else {
        let r = next_frame_ids(keys.drop_last(), m);
        if m[keys.last()].state is WaitingForNextFrame { r.push(keys.last()) } else { r }
    }
}

/// What `next_frame_ids` holds.
pub proof fn lemma_next_frame_ids<V>(keys: Seq<u128>, m: Map<u128, Coroutine<V>>)
    ensures
        forall|k: u128| #[trigger] next_frame_ids(keys, m).contains(k) <==> (keys.contains(k) && m[k].state is WaitingForNextFrame),
    decreases keys.len(),
{
    if keys.len() > 0 {
        let t = keys.drop_last();
        let n = keys.len() as int;
        let last = keys[n - 1];
        lemma_next_frame_ids(t, m);
        assert(next_frame_ids(keys, m) == if m[last].state is WaitingForNextFrame { next_frame_ids(t, m).push(last) } else { next_frame_ids(t, m) });
        assert forall|k: u128| #[trigger] next_frame_ids(keys, m).contains(k) <==> (keys.contains(k) && m[k].state is WaitingForNextFrame) by {
            if keys.contains(k) && m[k].state is WaitingForNextFrame {
                let j = choose|j: int| 0 <= j < n && keys[j] == k;
                if j < n - 1 {
                    assert(t[j] == k);
                }
            }
            if next_frame_ids(keys, m).contains(k) {
                if m[last].state is WaitingForNextFrame && k == last {
                    assert(keys[n - 1] == k);
                } else {
                    assert(next_frame_ids(t, m).contains(k));
                    let j = choose|j: int| 0 <= j < t.len() && t[j] == k;
                    assert(keys[j] == k);
                }
            }
        }
    }
}

/// `c` is `orig` made ready, with a clone of `data` as its resume value.
pub open spec fn resumed_with<V: Clone>(c: Coroutine<V>, orig: Coroutine<V>, data: V) -> bool {
    &&& c == (Coroutine { state: CoroutineState::Ready, resume_value: c.resume_value, ..orig })
    &&& c.resume_value matches Some(v) && cloned(data, v)
}

/// Whether `k` is registered, among the first `n` entries of `s`, for the event `e`.
pub open spec fn waits_before(s: Seq<(Seq<char>, u128)>, n: int, e: Seq<char>, k: u128) -> bool {
    exists|j: int| 0 <= j < n && s[j].0 == e && #[trigger] s[j].1 == k
}

/// The identifiers registered in `s` for the event `e` whose coroutine is in `live`, in order.
pub open spec fn event_live(s: Seq<(Seq<char>, u128)>, e: Seq<char>, live: Set<u128>) -> Seq<u128>
    decreases s.len(),
{
    if s.len() == 0 {
        Seq::empty()
    } else {
        let r = event_live(s.drop_last(), e, live);
        if s.last().0 == e && live.contains(s.last().1) { r.push(s.last().1) } else { r }
    }
}

/// The registrations in `s` for events other than `e`, in order.
pub open spec fn other_events(s: Seq<(Seq<char>, u128)>, e: Seq<char>) -> Seq<(Seq<char>, u128)>
    decreases s.len(),
{
    if s.len() == 0 {
        s
    } else {
        let r = other_events(s.drop_last(), e);
        if s.last().0 != e { r.push(s.last()) } else { r }
    }
}

/// What `event_live` holds.
pub proof fn lemma_event_live(s: Seq<(Seq<char>, u128)>, e: Seq<char>, live: Set<u128>)
    ensures
        forall|k: u128| #[trigger] event_live(s, e, live).contains(k) <==> (waits_before(s, s.len() as int, e, k) && live.contains(k)),
    decreases s.len(),
{
    if s.len() > 0 {
        let t = s.drop_last();
        let n = s.len() as int;
        let last = s[n - 1];
        lemma_event_live(t, e, live);
        assert(event_live(s, e, live) == if last.0 == e && live.contains(last.1) { event_live(t, e, live).push(last.1) } else { event_live(t, e, live) });
        assert forall|k: u128| #[trigger] event_live(s, e, live).contains(k) <==> (waits_before(s, n, e, k) && live.contains(k)) by {
            if waits_before(s, n, e, k) && live.contains(k) {
                let j = choose|j: int| 0 <= j < n && s[j].0 == e && #[trigger] s[j].1 == k;
                if j < n - 1 {
                    assert(t[j].1 == k);
                    assert(waits_before(t, t.len() as int, e, k));
                }
            }
            if event_live(s, e, live).contains(k) {
                if last.0 == e && live.contains(last.1) && k == last.1 {
                    assert(s[n - 1].1 == k);
                } else {
                    assert(event_live(t, e, live).contains(k));
                    let j = choose|j: int| 0 <= j < t.len() && t[j].0 == e && #[trigger] t[j].1 == k;
                    assert(s[j].1 == k);
                }
            }
        }
    }
}

/// What `other_events` holds.
pub proof fn lemma_other_events(s: Seq<(Seq<char>, u128)>, e: Seq<char>)
    ensures
        forall|p: (Seq<char>, u128)| #[trigger] other_events(s, e).contains(p) <==> (s.contains(p) && p.0 != e),
    decreases s.len(),
{
    if s.len() > 0 {
        let t = s.drop_last();
        let n = s.len() as int;
        let last = s[n - 1];
        lemma_other_events(t, e);
        assert(other_events(s, e) == if last.0 != e { other_events(t, e).push(last) } else { other_events(t, e) });
        assert forall|p: (Seq<char>, u128)| #[trigger] other_events(s, e).contains(p) <==> (s.contains(p) && p.0 != e) by {
            if s.contains(p) && p.0 != e {
                let j = choose|j: int| 0 <= j < n && s[j] == p;
                if j < n - 1 {
                    assert(t[j] == p);
                }
            }
            if other_events(s, e).contains(p) {
                if last.0 != e && p == last {
                    assert(s[n - 1] == p);
                } else {
                    assert(other_events(t, e).contains(p));
                    let j = choose|j: int| 0 <= j < t.len() && t[j] == p;
                    assert(s[j] == p);
                }
            }
        }
    }
}

/// What one run of a coroutine needs: the function to call, its saved variables, the value its
/// last yield resumes with, and the context and permissions to run it under.
pub struct CoroutineRun<V> {
    /// The coroutine
    pub id: u128,
    /// Script path
    pub script_path: String,
    /// Function to call
    pub function_name: String,
    /// Saved variables, to put in the script's scope
    pub local_vars: StrMap<V>,
    /// Value the yield resumes with, if any
    pub resume_value: Option<V>,
    /// Execution context for the run
    pub context: ScriptExecutionContext,
    /// Permissions for the run
    pub permissions: AccessPermissions,
}

/// How a run went, as the code that ran the script reports it.
pub struct RunReport<V> {
    /// The run's outcome
    pub result: CoroutineExecResult<V>,
    /// Whether the coroutine's script is still loaded
    pub script_loaded: bool,
}

/// `run` is what running `c` at `tick` needs: its script and function, a clone of its saved
/// variables, its resume value, a context with its script, owner, sector and the tick, and NPC
/// permissions when it has both an owner and a sector, trusted ones otherwise.
pub open spec fn run_for<V: Clone>(run: CoroutineRun<V>, id: u128, c: Coroutine<V>, tick: u64) -> bool {
    &&& run.id == id
    &&& run.script_path@ == c.script_path@
    &&& run.function_name@ == c.function_name@
    &&& run.local_vars.wf()
    &&& run.local_vars.key_seq() == c.local_vars.key_seq()
    &&& run.local_vars.value_seq().len() == c.local_vars.value_seq().len()
    &&& (forall|i: int| 0 <= i < c.local_vars.value_seq().len()
        ==> cloned(#[trigger] c.local_vars.value_seq()[i], run.local_vars.value_seq()[i]))
    &&& run.resume_value == c.resume_value
    &&& run.context.script_path@ == c.script_path@
    &&& run.context.owner_entity_id == c.owner_entity_id
    &&& run.context.sector_id == c.sector_id
    &&& run.context.tick == tick
    &&& match (c.owner_entity_id, c.sector_id) {
        (Some(e), Some(s)) => npc_permissions(run.permissions, e, s),
        _ => trusted_permissions(run.permissions),
    }
}

/// The text of the error for a coroutine that is not live.
pub open spec fn missing_coroutine_text(id: u128) -> Seq<char> {
    "Coroutine "@ + id_text_of(id) + " not found"@
}

/// Whether the tick arithmetic of a yield stays in range.
pub open spec fn yield_fits(t: YieldType, tick: u64) -> bool {
    match t {
        YieldType::Ticks(n) => tick + n <= u64::MAX,
        YieldType::Schedule { delay_ticks, .. } => tick + delay_ticks <= u64::MAX,
        _ => true,
    }
}

/// `w` is `c` after it yielded `request` at `tick`: the request's data added to its saved
/// variables, and its state (and resume tick) set by the kind of yield.
pub open spec fn yielded<V>(c: Coroutine<V>, w: Coroutine<V>, request: YieldRequest<V>, tick: u64) -> bool {
    &&& w.local_vars.wf()
    &&& w.local_vars@ == c.local_vars@.union_prefer_right(request.data@)
    &&& w == (Coroutine { state: w.state, resume_at: w.resume_at, local_vars: w.local_vars, ..c })
    &&& match request.yield_type {
        YieldType::Ticks(n) => w.state is WaitingForTicks && w.resume_at == Some((tick + n) as u64),
        YieldType::NextFrame => w.state is WaitingForNextFrame && w.resume_at == c.resume_at,
        YieldType::Event(e) => w.state == CoroutineState::WaitingForEvent(e) && w.resume_at == c.resume_at,
        YieldType::Schedule { .. } => w.state is Ready && w.resume_at == c.resume_at,
    }
}

/// Whether a run's report keeps the tick arithmetic of its yield in range.
pub open spec fn report_fits<V>(out: RunReport<V>, tick: u64) -> bool {
    out.result matches CoroutineExecResult::Yielded(req) ==> req.data.wf() && yield_fits(req.yield_type, tick)
}

/// Step `i` of a tick: state `i` and report `i` follow from the ones before by one run.
pub open spec fn step_at<V: Clone, F: Fn(CoroutineRun<V>) -> RunReport<V>>(
    states: Seq<CoroutineScheduler<V>>,
    reps: Seq<CoroutineTickResult>,
    i: int,
    tick: u64,
    run: F,
) -> bool {
    states[i].ran_one(states[i - 1], reps[i], reps[i - 1], tick, run)
}

/// Each state and report after the first follows from the one before by one run at `tick`.
pub open spec fn ran_steps<V: Clone, F: Fn(CoroutineRun<V>) -> RunReport<V>>(
    states: Seq<CoroutineScheduler<V>>,
    reps: Seq<CoroutineTickResult>,
    tick: u64,
    run: F,
) -> bool {
    &&& states.len() == reps.len()
    &&& forall|i: int| 0 < i < states.len() ==> #[trigger] step_at(states, reps, i, tick, run)
}

/// The resume tick of coroutine `id`, if it is live and has one.
fn c_resume<V>(m: &IdMap<Coroutine<V>>, id: u128) -> (r: Option<u64>)
    requires
        m.wf(),
    ensures
        m@.contains_key(id) ==> r == m@[id].resume_at,
{
    match m.get(id) {
        Some(c) => c.resume_at,
        None => None,
    }
}

/// Number of keys, among `keys`, of coroutines owned by `entity`.
pub open spec fn owned_count<V>(keys: Seq<u128>, m: Map<u128, Coroutine<V>>, entity: u128) -> nat
    decreases keys.len(),
{
    if keys.len() == 0 {
        0
    } else {
        owned_count(keys.drop_last(), m, entity) + if m[keys.last()].owner_entity_id == Some(entity) { 1nat } else { 0nat }
    }
}

/// Manages coroutine lifecycle and scheduling. `V` is the type of script values.
///
/// Waiters are kept as (tick, id) and (event, id) pairs in the order they were registered.
pub struct CoroutineScheduler<V> {
    coroutines: IdMap<Coroutine<V>>,
    tick_waiters: Vec<(u64, u128)>,
    event_waiters: Vec<(String, u128)>,
    ready_queue: Vec<u128>,
    max_per_tick: usize,
}

impl<V> CoroutineScheduler<V> {
    /// The live coroutines by identifier.
    pub closed spec fn coroutines_view(&self) -> Map<u128, Coroutine<V>> {
        self.coroutines@
    }

    /// The identifiers of the live coroutines, in the order they were added.
    pub closed spec fn coroutine_order(&self) -> Seq<u128> {
        self.coroutines.key_seq()
    }

    /// The (resume tick, id) registrations, oldest first.
    pub closed spec fn tick_waiters_view(&self) -> Seq<(u64, u128)> {
        self.tick_waiters@
    }

    /// The (event type, id) registrations, oldest first.
    pub closed spec fn event_waiters_view(&self) -> Seq<(Seq<char>, u128)> {
        self.event_waiters@.map_values(|p: (String, u128)| (p.0@, p.1))
    }

    /// The ready queue, front first.
    pub closed spec fn ready_view(&self) -> Seq<u128> {
        self.ready_queue@
    }

    /// How many coroutines one tick runs at most.
    pub closed spec fn max_per_tick_view(&self) -> nat {
        self.max_per_tick as nat
    }

    /// `self` is `prev` with one coroutine added under `id`, made as `spawn` makes it: ready and
    /// queued when `resume_at` is `None`, else waiting for that tick and registered under it.
    pub open spec fn spawned_from(
        &self,
        prev: Self,
        id: u128,
        script_path: Seq<char>,
        function_name: Seq<char>,
        tick: u64,
        owner: Option<u128>,
        sector: Option<u128>,
        resume_at: Option<u64>,
    ) -> bool {
        &&& self.coroutines_view().contains_key(id)
        &&& fresh(self.coroutines_view()[id], id, script_path, function_name, tick, owner, sector)
        &&& self.coroutines_view() == prev.coroutines_view().insert(id, self.coroutines_view()[id])
        &&& self.coroutines_view()[id].resume_at == resume_at
        &&& resume_at is None ==> {
            &&& self.coroutines_view()[id].state is Ready
            &&& self.ready_view() == prev.ready_view().push(id)
            &&& self.tick_waiters_view() == prev.tick_waiters_view()
        }
        &&& resume_at matches Some(t) ==> {
            &&& self.coroutines_view()[id].state is WaitingForTicks
            &&& self.ready_view() == prev.ready_view()
            &&& self.tick_waiters_view() == prev.tick_waiters_view().push((t, id))
        }
        &&& self.event_waiters_view() == prev.event_waiters_view()
        &&& self.max_per_tick_view() == prev.max_per_tick_view()
    }

    /// `self` is `prev` after coroutine `id` yielded `request` at `tick`. Nothing changes for
    /// a coroutine that is not live. Otherwise it is updated as `yielded` says and registered
    /// by the kind of yield: under its resume tick, under its event, or back in the ready queue
    /// for a scheduled callback; a callback coroutine `scheduled` is then spawned, waiting
    /// `delay_ticks`, when the script is loaded.
    pub open spec fn yield_handled(
        &self,
        prev: Self,
        id: u128,
        request: YieldRequest<V>,
        tick: u64,
        script_loaded: bool,
        scheduled: Option<u128>,
    ) -> bool {
        if !prev.coroutines_view().contains_key(id) {
            *self == prev && scheduled is None
        } else {
            let c = prev.coroutines_view()[id];
            let w = self.coroutines_view()[id];
            &&& self.max_per_tick_view() == prev.max_per_tick_view()
            &&& match request.yield_type {
                YieldType::Ticks(n) => {
                    &&& yielded(c, w, request, tick)
                    &&& self.coroutines_view() == prev.coroutines_view().insert(id, w)
                    &&& self.tick_waiters_view() == prev.tick_waiters_view().push(((tick + n) as u64, id))
                    &&& self.ready_view() == prev.ready_view()
                    &&& self.event_waiters_view() == prev.event_waiters_view()
                    &&& scheduled is None
                },
                YieldType::NextFrame => {
                    &&& yielded(c, w, request, tick)
                    &&& self.coroutines_view() == prev.coroutines_view().insert(id, w)
                    &&& self.tick_waiters_view() == prev.tick_waiters_view()
                    &&& self.ready_view() == prev.ready_view()
                    &&& self.event_waiters_view() == prev.event_waiters_view()
                    &&& scheduled is None
                },
                YieldType::Event(e) => {
                    &&& yielded(c, w, request, tick)
                    &&& self.coroutines_view() == prev.coroutines_view().insert(id, w)
                    &&& self.tick_waiters_view() == prev.tick_waiters_view()
                    &&& self.ready_view() == prev.ready_view()
                    &&& self.event_waiters_view() == prev.event_waiters_view().push((e@, id))
                    &&& scheduled is None
                },
                YieldType::Schedule { delay_ticks, callback } => {
                    &&& self.ready_view() == prev.ready_view().push(id)
                    &&& self.event_waiters_view() == prev.event_waiters_view()
                    &&& (!script_loaded ==> {
                        &&& yielded(c, w, request, tick)
                        &&& self.coroutines_view() == prev.coroutines_view().insert(id, w)
                        &&& self.tick_waiters_view() == prev.tick_waiters_view()
                        &&& scheduled is None
                    })
                    &&& (script_loaded ==> (scheduled matches Some(nid) && {
                        let n = self.coroutines_view()[nid];
                        &&& (exists|w2: Coroutine<V>| yielded(c, w2, request, tick)
                            && self.coroutines_view() == #[trigger] prev.coroutines_view().insert(id, w2).insert(nid, n))
                        &&& fresh(n, nid, c.script_path@, callback@, tick, c.owner_entity_id, c.sector_id)
                        &&& n.state is WaitingForTicks
                        &&& n.resume_at == Some((tick + delay_ticks) as u64)
                        &&& self.tick_waiters_view() == prev.tick_waiters_view().push(((tick + delay_ticks) as u64, nid))
                    }))
                },
            }
        }
    }

    /// `self` is `prev` after `next_run` at `tick` gave `r`: nothing changes on an empty
    /// queue; otherwise the front of the queue is taken and, when live, its coroutine starts
    /// running (see `run_for`), else `r` carries the error that names it.
    pub open spec fn took_next(&self, prev: Self, current_tick: u64, r: Option<(u128, Result<CoroutineRun<V>, ScriptError>)>) -> bool
        where V: Clone,
    {
        &&& (prev.ready_view().len() == 0 ==> r is None && *self == prev)
        &&& (prev.ready_view().len() > 0 ==> (r matches Some((id, res)) && {
                &&& id == prev.ready_view()[0]
                &&& self.ready_view() == prev.ready_view().drop_first()
                &&& self.tick_waiters_view() == prev.tick_waiters_view()
                &&& self.event_waiters_view() == prev.event_waiters_view()
                &&& self.coroutine_order() == prev.coroutine_order()
                &&& self.max_per_tick_view() == prev.max_per_tick_view()
                &&& (!prev.coroutines_view().contains_key(id) ==> {
                    &&& self.coroutines_view() == prev.coroutines_view()
                    &&& res matches Err(ScriptError::NotFound(m)) && m@ == missing_coroutine_text(id)
                })
                &&& (prev.coroutines_view().contains_key(id) ==> {
                    let c = prev.coroutines_view()[id];
                    &&& self.coroutines_view() == prev.coroutines_view().insert(id,
                        Coroutine { state: CoroutineState::Running, resume_value: None, ..c })
                    &&& res matches Ok(run) && run_for(run, id, c, current_tick)
                })
            }))
    }

    /// `self` and `report` are `prev` and `prev_report` once the run of `id` ended as
    /// `outcome` says (see `finish_run`).
    pub open spec fn finished(
        &self,
        prev: Self,
        id: u128,
        outcome: Result<CoroutineExecResult<V>, ScriptError>,
        current_tick: u64,
        script_loaded: bool,
        scheduled: Option<u128>,
        report: CoroutineTickResult,
        prev_report: CoroutineTickResult,
    ) -> bool {
        &&& report.pending_count == prev_report.pending_count
        &&& match outcome {
                Ok(CoroutineExecResult::Yielded(req)) => {
                    &&& self.yield_handled(prev, id, req, current_tick, script_loaded, scheduled)
                    &&& report.completed == prev_report.completed
                    &&& report.failed == prev_report.failed
                },
                _ => {
                    &&& self.coroutines_view() == prev.coroutines_view().remove(id)
                    &&& self.ready_view() == prev.ready_view()
                    &&& self.tick_waiters_view() == prev.tick_waiters_view()
                    &&& self.event_waiters_view() == prev.event_waiters_view()
                    &&& self.max_per_tick_view() == prev.max_per_tick_view()
                    &&& scheduled is None
                    &&& match outcome {
                        Ok(CoroutineExecResult::Completed(_)) => {
                            &&& report.completed@ == prev_report.completed@.push(id)
                            &&& report.failed == prev_report.failed
                        },
                        Ok(CoroutineExecResult::Failed(m)) => {
                            &&& report.completed == prev_report.completed
                            &&& report.failed@ == prev_report.failed@.push((id, m))
                        },
                        Err(e) => {
                            &&& report.completed == prev_report.completed
                            &&& report.failed@.len() == prev_report.failed@.len() + 1
                            &&& report.failed@.drop_last() == prev_report.failed@
                            &&& report.failed@.last().0 == id
                            &&& report.failed@.last().1@ == script_error_text(e)
                        },
                        _ => true,
                    }
                },
            }
    }

    /// `self` is `prev` after the wake-up of the next-frame waiters: each becomes ready and
    /// joins the ready queue, in the order the coroutines were added; nothing else changes.
    pub open spec fn frames_woken(&self, prev: Self) -> bool {
        &&& self.ready_view() == prev.ready_view() + next_frame_ids(prev.coroutine_order(), prev.coroutines_view())
        &&& self.coroutines_view().dom() == prev.coroutines_view().dom()
        &&& forall|k: u128| #[trigger] prev.coroutines_view().contains_key(k) ==> self.coroutines_view()[k] ==
            if prev.coroutines_view()[k].state is WaitingForNextFrame {
                with_state(prev.coroutines_view()[k], CoroutineState::Ready)
            } else {
                prev.coroutines_view()[k]
            }
        &&& self.coroutine_order() == prev.coroutine_order()
        &&& self.tick_waiters_view() == prev.tick_waiters_view()
        &&& self.event_waiters_view() == prev.event_waiters_view()
        &&& self.max_per_tick_view() == prev.max_per_tick_view()
    }

    /// `self` and `report` are what the run of `id` that `mid` started (`res`) left: the
    /// started run went through `run`, and its report was recorded (see `finished`); a run
    /// that could not start is recorded as failed.
    pub open spec fn run_ended<F: Fn(CoroutineRun<V>) -> RunReport<V>>(
        &self,
        mid: Self,
        id: u128,
        res: Result<CoroutineRun<V>, ScriptError>,
        tick: u64,
        run: F,
        report: CoroutineTickResult,
        prev_report: CoroutineTickResult,
    ) -> bool
        where V: Clone,
    {
        match res {
            Ok(x) => exists|out: RunReport<V>, sch: Option<u128>|
                #![trigger run.ensures((x,), out), self.finished(mid, id, Ok(out.result), tick, out.script_loaded, sch, report, prev_report)]
                run.ensures((x,), out) && self.finished(mid, id, Ok(out.result), tick, out.script_loaded, sch, report, prev_report),
            Err(e) => exists|sch: Option<u128>| #[trigger] self.finished(mid, id, Err(e), tick, false, sch, report, prev_report),
        }
    }

    /// `self` and `report` are `prev` and `prev_report` after one coroutine ran at `tick`: the
    /// front of the ready queue was taken and started (see `took_next`), and its run ended (see
    /// `run_ended`).
    pub open spec fn ran_one<F: Fn(CoroutineRun<V>) -> RunReport<V>>(
        &self,
        prev: Self,
        report: CoroutineTickResult,
        prev_report: CoroutineTickResult,
        tick: u64,
        run: F,
    ) -> bool
        where V: Clone,
    {
        exists|mid: Self, id: u128, res: Result<CoroutineRun<V>, ScriptError>|
            #[trigger] mid.took_next(prev, tick, Some((id, res))) && self.run_ended(mid, id, res, tick, run, report, prev_report)
    }

    /// `self` is `prev` after the wake-up of tick `tick`: the registrations for ticks up to
    /// `tick` are dropped, their live coroutines become ready and join the ready queue in
    /// registration order; nothing else changes.
    pub open spec fn ticks_woken(&self, prev: Self, tick: u64) -> bool {
        &&& self.tick_waiters_view() == not_due(prev.tick_waiters_view(), tick)
        &&& self.ready_view() == prev.ready_view() + due_live(prev.tick_waiters_view(), tick, prev.coroutines_view().dom())
        &&& self.coroutines_view().dom() == prev.coroutines_view().dom()
        &&& forall|k: u128| #[trigger] prev.coroutines_view().contains_key(k) ==> self.coroutines_view()[k] == if due_before(
            prev.tick_waiters_view(), prev.tick_waiters_view().len() as int, tick, k) {
            with_state(prev.coroutines_view()[k], CoroutineState::Ready)
        } else {
            prev.coroutines_view()[k]
        }
        &&& self.coroutine_order() == prev.coroutine_order()
        &&& self.event_waiters_view() == prev.event_waiters_view()
        &&& self.max_per_tick_view() == prev.max_per_tick_view()
    }

    /// `self` is `prev` after coroutine `id` was cancelled: it left the table and the ready
    /// queue (every other queued id keeps its place), and when it was live its registration
    /// under its resume tick and under the event it waited for are dropped.
    pub open spec fn cancelled(&self, prev: Self, id: u128) -> bool {
        &&& self.coroutines_view() == prev.coroutines_view().remove(id)
        &&& self.ready_view() == without(prev.ready_view(), id)
        &&& self.max_per_tick_view() == prev.max_per_tick_view()
        &&& !prev.coroutines_view().contains_key(id) ==> {
            &&& self.tick_waiters_view() == prev.tick_waiters_view()
            &&& self.event_waiters_view() == prev.event_waiters_view()
        }
        &&& prev.coroutines_view().contains_key(id) ==> {
            &&& self.tick_waiters_view() == match prev.coroutines_view()[id].resume_at {
                Some(t) => without(prev.tick_waiters_view(), (t, id)),
                None => prev.tick_waiters_view(),
            }
            &&& self.event_waiters_view() == match prev.coroutines_view()[id].state {
                CoroutineState::WaitingForEvent(e) => without(prev.event_waiters_view(), (e@, id)),
                _ => prev.event_waiters_view(),
            }
        }
    }

    /// The coroutine table is well formed.
    pub closed spec fn table_wf(&self) -> bool {
        self.coroutines.wf()
    }

    /// The scheduler's invariant: every live coroutine is registered where it will be woken.
    pub open spec fn inv(&self) -> bool {
        &&& self.table_wf()
        &&& forall|k: u128| #[trigger] self.coroutines_view().contains_key(k) ==> registered(
            self.coroutines_view()[k],
            k,
            self.ready_view(),
            self.tick_waiters_view(),
            self.event_waiters_view(),
        )
    }

    proof fn lemma_order(&self)
        requires
            self.table_wf(),
        ensures
            self.coroutine_order().no_duplicates(),
            self.coroutine_order().len() == self.coroutines_view().len(),
            forall|k: u128| #[trigger] self.coroutine_order().contains(k) <==> self.coroutines_view().contains_key(k),
    {
        self.coroutines.lemma_dom();
    }

    /// An empty scheduler that runs at most 100 coroutines per tick.
    pub fn new() -> (r: Self)
        ensures
            r.inv(),
            r.coroutines_view() == Map::<u128, Coroutine<V>>::empty(),
            r.tick_waiters_view().len() == 0,
            r.event_waiters_view().len() == 0,
            r.ready_view().len() == 0,
            r.max_per_tick_view() == 100,
    {
        let r = CoroutineScheduler {
            coroutines: IdMap::new(),
            tick_waiters: Vec::new(),
            event_waiters: Vec::new(),
            ready_queue: Vec::new(),
            max_per_tick: 100,
        };
        assert(r.event_waiters_view() =~= Seq::<(Seq<char>, u128)>::empty());
        r
    }

    /// Adds a ready coroutine and queues it.
    fn add_ready(&mut self, c: Coroutine<V>) -> (id: u128)
        requires
            old(self).inv(),
            c.state is Ready,
            c.local_vars.wf(),
        ensures
            final(self).inv(),
            id == c.id,
            final(self).coroutines_view() == old(self).coroutines_view().insert(id, c),
            final(self).ready_view() == old(self).ready_view().push(id),
            final(self).tick_waiters_view() == old(self).tick_waiters_view(),
            final(self).event_waiters_view() == old(self).event_waiters_view(),
            final(self).max_per_tick_view() == old(self).max_per_tick_view(),
    {
        let id = c.id;
        self.coroutines.insert(id, c);
        self.ready_queue.push(id);
        proof {
            assert forall|k: u128| #[trigger] self.coroutines_view().contains_key(k) implies registered(
                self.coroutines_view()[k], k, self.ready_view(), self.tick_waiters_view(), self.event_waiters_view()) by {
                if k != id {
                    assert(old(self).coroutines_view().contains_key(k));
                }
            }
        }
        id
    }

    /// Spawn a new coroutine, ready to run. `script_exists` tells whether the script is loaded;
    /// when it is not, nothing changes and the error names the script.
    pub fn spawn(&mut self, script_exists: bool, script_path: &str, function_name: &str, current_tick: u64) -> (r: Result<u128, ScriptError>)
        requires
            old(self).inv(),
        ensures
            final(self).inv(),
            !script_exists ==> *final(self) == *old(self) && (r matches Err(ScriptError::NotFound(p)) && p@ == script_path@),
            script_exists ==> (r matches Ok(id) && final(self).spawned_from(*old(self), id, script_path@, function_name@, current_tick, None, None, None)),
    {
        if !script_exists {
            return Err(ScriptError::NotFound(owned(script_path)));
        }
        let c = Coroutine::new(script_path, function_name, current_tick);
        let id = self.add_ready(c);
        Ok(id)
    }

    /// Spawn a coroutine with owner and sector context.
    pub fn spawn_with_context(
        &mut self,
        script_exists: bool,
        script_path: &str,
        function_name: &str,
        current_tick: u64,
        owner_entity_id: Option<u128>,
        sector_id: Option<u128>,
    ) -> (r: Result<u128, ScriptError>)
        requires
            old(self).inv(),
        ensures
            final(self).inv(),
            !script_exists ==> *final(self) == *old(self) && (r matches Err(ScriptError::NotFound(p)) && p@ == script_path@),
            script_exists ==> (r matches Ok(id) && final(self).spawned_from(*old(self), id, script_path@, function_name@, current_tick, owner_entity_id, sector_id, None)),
    {
        if !script_exists {
            return Err(ScriptError::NotFound(owned(script_path)));
        }
        let mut c = Coroutine::new(script_path, function_name, current_tick);
        c.owner_entity_id = owner_entity_id;
        c.sector_id = sector_id;
        let id = self.add_ready(c);
        Ok(id)
    }

    /// Spawn a coroutine that first runs `delay_ticks` after `current_tick`: it waits for that
    /// tick instead of entering the ready queue.
    pub fn spawn_scheduled(
        &mut self,
        script_exists: bool,
        script_path: &str,
        function_name: &str,
        current_tick: u64,
        delay_ticks: u64,
        owner_entity_id: Option<u128>,
        sector_id: Option<u128>,
    ) -> (r: Result<u128, ScriptError>)
        requires
            old(self).inv(),
            current_tick + delay_ticks <= u64::MAX,
        ensures
            final(self).inv(),
            !script_exists ==> *final(self) == *old(self) && (r matches Err(ScriptError::NotFound(p)) && p@ == script_path@),
            script_exists ==> (r matches Ok(id) && final(self).spawned_from(*old(self), id, script_path@, function_name@, current_tick, owner_entity_id, sector_id, Some((current_tick + delay_ticks) as u64))),
    {
        if !script_exists {
            return Err(ScriptError::NotFound(owned(script_path)));
        }
        let resume_tick = current_tick + delay_ticks;
        let mut c = Coroutine::new(script_path, function_name, current_tick);
        c.owner_entity_id = owner_entity_id;
        c.sector_id = sector_id;
        c.state = CoroutineState::WaitingForTicks;
        c.resume_at = Some(resume_tick);
        let id = c.id;
        self.coroutines.insert(id, c);
        self.tick_waiters.push((resume_tick, id));
        proof {
            assert forall|k: u128| #[trigger] self.coroutines_view().contains_key(k) implies registered(
                self.coroutines_view()[k], k, self.ready_view(), self.tick_waiters_view(), self.event_waiters_view()) by {
                if k != id {
                    assert(old(self).coroutines_view().contains_key(k));
                }
            }
        }
        Ok(id)
    }

    /// Get count of active coroutines.
    pub fn active_count(&self) -> (r: usize)
        requires
            self.inv(),
        ensures
            r == self.coroutines_view().len(),
    {
        self.coroutines.len()
    }

    /// Get count of coroutines owned by an entity.
    pub fn count_for_entity(&self, entity_id: u128) -> (r: usize)
        requires
            self.inv(),
        ensures
            r == owned_count(self.coroutine_order(), self.coroutines_view(), entity_id),
    {
        let n = self.coroutines.len();
        let mut count: usize = 0;
        let mut i: usize = 0;
        while i < n
            invariant
                self.inv(),
                n == self.coroutine_order().len(),
                i <= n,
                count <= i,
                count == owned_count(self.coroutine_order().take(i as int), self.coroutines_view(), entity_id),
            decreases n - i,
        {
            let entry = self.coroutines.entry_at(i);
            proof {
                assert(self.coroutine_order().take(i as int + 1).drop_last() =~= self.coroutine_order().take(i as int));
            }
            if entry.1.owner_entity_id == Some(entity_id) {
                count = count + 1;
            }
            i = i + 1;
        }
        proof {
            assert(self.coroutine_order().take(n as int) =~= self.coroutine_order());
        }
        count
    }

    /// Cancel a coroutine: it leaves the table and the ready queue, and its tick or event
    /// registration is dropped.
    /// Returns whether it was live.
    pub fn cancel(&mut self, coroutine_id: u128) -> (r: bool)
        requires
            old(self).inv(),
        ensures
            final(self).inv(),
            r == old(self).coroutines_view().contains_key(coroutine_id),
            final(self).cancelled(*old(self), coroutine_id),
    {
        let ghost old_ready = self.ready_view();
        self.drop_ready(coroutine_id);
        proof { lemma_without(old_ready, coroutine_id); }
        let removed = self.coroutines.remove(coroutine_id);
        match removed {
            None => {
                assert(self.coroutines@ =~= old(self).coroutines@);
                assert(self.coroutines_view() == old(self).coroutines_view());
                assert(self.event_waiters_view() == old(self).event_waiters_view());
                false
            },
            Some(c) => {
                let ghost old_ticks = self.tick_waiters_view();
                let ghost old_events = self.event_waiters_view();
                if let Some(resume_at) = c.resume_at {
                    self.drop_tick_waiter(resume_at, coroutine_id);
                }
                if let CoroutineState::WaitingForEvent(event_type) = &c.state {
                    self.drop_event_waiter(event_type, coroutine_id);
                }
                proof {
                    lemma_without(old_ticks, (c.resume_at.unwrap_or(0), coroutine_id));
                    match c.state {
                        CoroutineState::WaitingForEvent(e) => { lemma_without(old_events, (e@, coroutine_id)); },
                        _ => {},
                    }
                    assert forall|k: u128| #[trigger] self.coroutines_view().contains_key(k) implies registered(
                        self.coroutines_view()[k], k, self.ready_view(), self.tick_waiters_view(), self.event_waiters_view()) by {
                        assert(old(self).coroutines_view().contains_key(k));
                        assert(k != coroutine_id);
                    }
                }
                true
            },
        }
    }

    /// Drops `id` from the ready queue.
    fn drop_ready(&mut self, id: u128)
        ensures
            final(self).ready_view() == without(old(self).ready_view(), id),
            final(self).coroutines == old(self).coroutines,
            final(self).event_waiters == old(self).event_waiters,
            final(self).tick_waiters == old(self).tick_waiters,
            final(self).max_per_tick == old(self).max_per_tick,
    {
        let ghost s = self.ready_queue@;
        let mut kept: Vec<u128> = Vec::new();
        let mut i: usize = 0;
        while i < self.ready_queue.len()
            invariant
                self.ready_queue@ == s,
                i <= s.len(),
                kept@ == without(s.take(i as int), id),
            decreases s.len() - i,
        {
            let x = self.ready_queue[i];
            proof { lemma_without_step(s, id, i as int); }
            if x != id {
                kept.push(x);
            }
            i = i + 1;
        }
        proof { assert(s.take(s.len() as int) =~= s); }
        self.ready_queue = kept;
    }

    /// Drops the registrations of `id` under `tick`.
    fn drop_tick_waiter(&mut self, tick: u64, id: u128)
        ensures
            final(self).tick_waiters_view() == without(old(self).tick_waiters_view(), (tick, id)),
            final(self).coroutines == old(self).coroutines,
            final(self).event_waiters == old(self).event_waiters,
            final(self).ready_queue == old(self).ready_queue,
            final(self).max_per_tick == old(self).max_per_tick,
    {
        let ghost s = self.tick_waiters@;
        let mut kept: Vec<(u64, u128)> = Vec::new();
        let mut i: usize = 0;
        while i < self.tick_waiters.len()
            invariant
                self.tick_waiters@ == s,
                i <= s.len(),
                kept@ == without(s.take(i as int), (tick, id)),
            decreases s.len() - i,
        {
            let p = self.tick_waiters[i];
            proof { lemma_without_step(s, (tick, id), i as int); }
            if !(p.0 == tick && p.1 == id) {
                kept.push(p);
            }
            i = i + 1;
        }
        proof { assert(s.take(s.len() as int) =~= s); }
        self.tick_waiters = kept;
    }

    /// Drops the registrations of `id` under `event_type`.
    fn drop_event_waiter(&mut self, event_type: &String, id: u128)
        ensures
            final(self).event_waiters_view() == without(old(self).event_waiters_view(), (event_type@, id)),
            final(self).coroutines == old(self).coroutines,
            final(self).tick_waiters == old(self).tick_waiters,
            final(self).ready_queue == old(self).ready_queue,
            final(self).max_per_tick == old(self).max_per_tick,
    {
        let ghost s = self.event_waiters_view();
        let mut kept: Vec<(String, u128)> = Vec::new();
        let mut i: usize = 0;
        while i < self.event_waiters.len()
            invariant
                self.event_waiters_view() == s,
                s.len() == self.event_waiters@.len(),
                i <= s.len(),
                kept@.map_values(|p: (String, u128)| (p.0@, p.1)) == without(s.take(i as int), (event_type@, id)),
            decreases s.len() - i,
        {
            let p = &self.event_waiters[i];
            proof { lemma_without_step(s, (event_type@, id), i as int); }
            assert(s[i as int] == (p.0@, p.1));
            if !(crate::text::str_eq(p.0.as_str(), event_type.as_str()) && p.1 == id) {
                let ghost before = kept@;
                kept.push((p.0.clone(), p.1));
                assert(kept@.map_values(|p: (String, u128)| (p.0@, p.1)) =~= before.map_values(|p: (String, u128)| (p.0@, p.1)).push(s[i as int]));
            }
            i = i + 1;
        }
        proof { assert(s.take(s.len() as int) =~= s); }
        self.event_waiters = kept;
        assert(self.event_waiters_view() =~= kept@.map_values(|p: (String, u128)| (p.0@, p.1)));
    }
    /// Wake the coroutines registered for a tick at or before `current_tick`: each live one
    /// becomes ready and joins the ready queue, in registration order, and those registrations
    /// are dropped.
    pub fn wake_tick_waiters(&mut self, current_tick: u64)
        requires
            old(self).inv(),
        ensures
            final(self).inv(),
            final(self).ticks_woken(*old(self), current_tick),
    {
        let ghost old_self = *self;
        let ghost s = self.tick_waiters@;
        let ghost live = self.coroutines@.dom();
        let mut kept: Vec<(u64, u128)> = Vec::new();
        let mut i: usize = 0;
        while i < self.tick_waiters.len()
            invariant
                self.tick_waiters@ == s,
                i <= s.len(),
                kept@ == not_due(s.take(i as int), current_tick),
                self.ready_queue@ == old_self.ready_queue@ + due_live(s.take(i as int), current_tick, live),
                self.coroutines.wf(),
                self.coroutines@.dom() == live,
                live == old_self.coroutines@.dom(),
                self.coroutines.key_seq() == old_self.coroutines.key_seq(),
                forall|k: u128| #[trigger] live.contains(k) ==> self.coroutines@[k] == if due_before(s, i as int, current_tick, k) {
                    with_state(old_self.coroutines@[k], CoroutineState::Ready)
                } else {
                    old_self.coroutines@[k]
                },
                self.event_waiters == old_self.event_waiters,
                self.max_per_tick == old_self.max_per_tick,
            decreases s.len() - i,
        {
            let p = self.tick_waiters[i];
            proof {
                assert(s.take(i as int + 1).drop_last() =~= s.take(i as int));
                assert(s.take(i as int + 1).last() == s[i as int]);
            }
            let ghost before = self.coroutines@;
            if p.0 <= current_tick {
                let found = self.coroutines.modify(p.1, |c: Coroutine<V>| -> (r: Coroutine<V>)
                    ensures r == with_state(c, CoroutineState::Ready),
                    { Coroutine { state: CoroutineState::Ready, ..c } });
                if found {
                    self.ready_queue.push(p.1);
                }
                proof {
                    assert forall|k: u128| #[trigger] live.contains(k) implies self.coroutines@[k] == if due_before(s, i as int + 1, current_tick, k) {
                        with_state(old_self.coroutines@[k], CoroutineState::Ready)
                    } else {
                        old_self.coroutines@[k]
                    } by {
                        if k == p.1 {
                            assert(s[i as int].1 == k);
                        } else if due_before(s, i as int + 1, current_tick, k) {
                            let j = choose|j: int| 0 <= j < i + 1 && s[j].0 <= current_tick && #[trigger] s[j].1 == k;
                            assert(j < i);
                        }
                    }
                    assert(self.ready_queue@ =~= old_self.ready_queue@ + due_live(s.take(i as int + 1), current_tick, live));
                }
            } else {
                kept.push(p);
                proof {
                    assert forall|k: u128| #[trigger] live.contains(k) implies self.coroutines@[k] == if due_before(s, i as int + 1, current_tick, k) {
                        with_state(old_self.coroutines@[k], CoroutineState::Ready)
                    } else {
                        old_self.coroutines@[k]
                    } by {
                        if due_before(s, i as int + 1, current_tick, k) {
                            let j = choose|j: int| 0 <= j < i + 1 && s[j].0 <= current_tick && #[trigger] s[j].1 == k;
                            assert(j < i);
                        }
                    }
                }
            }
            i = i + 1;
        }
        self.tick_waiters = kept;
        proof {
            assert(s.take(s.len() as int) =~= s);
            lemma_due_live(s, current_tick, live);
            lemma_not_due(s, current_tick);
            assert forall|k: u128| #[trigger] self.coroutines_view().contains_key(k) implies registered(
                self.coroutines_view()[k], k, self.ready_view(), self.tick_waiters_view(), self.event_waiters_view()) by {
                assert(old_self.coroutines_view().contains_key(k));
                let c = old_self.coroutines@[k];
                if due_before(s, s.len() as int, current_tick, k) {
                    assert(due_live(s, current_tick, live).contains(k));
                } else {
                    if c.state is WaitingForTicks {
                        let t = c.resume_at.unwrap();
                        let j = choose|j: int| 0 <= j < s.len() && s[j] == (t, k);
                        if t <= current_tick {
                            assert(s[j].1 == k);
                            assert(due_before(s, s.len() as int, current_tick, k));
                        }
                        assert(not_due(s, current_tick).contains((t, k)));
                    }
                }
            }
        }
    }

    /// Wake the coroutines waiting for the next frame: each becomes ready and joins the ready
    /// queue, in the order the coroutines were added.
    pub fn wake_next_frame_waiters(&mut self)
        requires
            old(self).inv(),
        ensures
            final(self).inv(),
            final(self).frames_woken(*old(self)),
    {
        let ghost old_self = *self;
        let ghost keys = self.coroutines.key_seq();
        let ghost m = self.coroutines@;
        proof { self.lemma_order(); }
        let n = self.coroutines.len();
        let mut i: usize = 0;
        while i < n
            invariant
                n == keys.len(),
                keys.no_duplicates(),
                forall|k: u128| #[trigger] keys.contains(k) <==> m.contains_key(k),
                i <= n,
                self.coroutines.wf(),
                self.coroutines.key_seq() == keys,
                self.coroutines@.dom() == m.dom(),
                m == old_self.coroutines@,
                keys == old_self.coroutines.key_seq(),
                self.ready_queue@ == old_self.ready_queue@ + next_frame_ids(keys.take(i as int), m),
                forall|k: u128| #[trigger] m.contains_key(k) ==> self.coroutines@[k] ==
                    if (exists|j: int| 0 <= j < i && keys[j] == k) && m[k].state is WaitingForNextFrame {
                        with_state(m[k], CoroutineState::Ready)
                    } else {
                        m[k]
                    },
                self.tick_waiters == old_self.tick_waiters,
                self.event_waiters == old_self.event_waiters,
                self.max_per_tick == old_self.max_per_tick,
            decreases n - i,
        {
            let entry = self.coroutines.entry_at(i);
            let k = entry.0;
            let waiting = matches!(entry.1.state, CoroutineState::WaitingForNextFrame);
            proof {
                assert(keys.take(i as int + 1).drop_last() =~= keys.take(i as int));
                assert(keys.take(i as int + 1).last() == keys[i as int]);
                assert(keys[i as int] == k);
                assert forall|j: int| 0 <= j < i implies keys[j] != k by {
                    assert(keys[j] != keys[i as int]);
                }
                assert(self.coroutines@[k] == m[k]);
            }
            if waiting {
                self.coroutines.modify(k, |c: Coroutine<V>| -> (r: Coroutine<V>)
                    ensures r == with_state(c, CoroutineState::Ready),
                    { Coroutine { state: CoroutineState::Ready, ..c } });
                self.ready_queue.push(k);
                proof {
                    assert(self.ready_queue@ =~= old_self.ready_queue@ + next_frame_ids(keys.take(i as int + 1), m));
                }
            }
            proof {
                assert forall|kk: u128| #[trigger] m.contains_key(kk) implies self.coroutines@[kk] ==
                    if (exists|j: int| 0 <= j < i + 1 && keys[j] == kk) && m[kk].state is WaitingForNextFrame {
                        with_state(m[kk], CoroutineState::Ready)
                    } else {
                        m[kk]
                    } by {
                    if kk == k {
                        assert(keys[i as int] == kk);
                    } else if exists|j: int| 0 <= j < i + 1 && keys[j] == kk {
                        let j = choose|j: int| 0 <= j < i + 1 && keys[j] == kk;
                        assert(j < i);
                    }
                }
            }
            i = i + 1;
        }
        proof {
            assert(keys.take(n as int) =~= keys);
            lemma_next_frame_ids(keys, m);
            assert forall|k: u128| #[trigger] old_self.coroutines_view().contains_key(k) implies self.coroutines_view()[k] ==
                if old_self.coroutines_view()[k].state is WaitingForNextFrame {
                    with_state(old_self.coroutines_view()[k], CoroutineState::Ready)
                } else {
                    old_self.coroutines_view()[k]
                } by {
                assert(keys.contains(k));
                let j = choose|j: int| 0 <= j < keys.len() && keys[j] == k;
            }
            assert forall|k: u128| #[trigger] self.coroutines_view().contains_key(k) implies registered(
                self.coroutines_view()[k], k, self.ready_view(), self.tick_waiters_view(), self.event_waiters_view()) by {
                assert(old_self.coroutines_view().contains_key(k));
                assert(keys.contains(k));
                if m[k].state is WaitingForNextFrame {
                    assert(next_frame_ids(keys, m).contains(k));
                }
            }
        }
    }

    /// Tell the scheduler that an event happened: every live coroutine registered for it
    /// becomes ready with a clone of `event_data` as its resume value and joins the ready
    /// queue, in registration order; the event's registrations are dropped.
    pub fn notify_event(&mut self, event_type: &str, event_data: V)
        where V: Clone,
        requires
            old(self).inv(),
        ensures
            final(self).inv(),
            event_notified(*final(self), *old(self), event_type@, event_data),
    {
        let ghost old_self = *self;
        let ghost s = self.event_waiters_view();
        let ghost live = self.coroutines@.dom();
        let ghost e = event_type@;
        let mut kept: Vec<(String, u128)> = Vec::new();
        let mut i: usize = 0;
        while i < self.event_waiters.len()
            invariant
                e == event_type@,
                self.event_waiters_view() == s,
                self.event_waiters@.len() == s.len(),
                i <= s.len(),
                kept@.map_values(|p: (String, u128)| (p.0@, p.1)) == other_events(s.take(i as int), e),
                self.ready_queue@ == old_self.ready_queue@ + event_live(s.take(i as int), e, live),
                self.coroutines.wf(),
                self.coroutines@.dom() == live,
                live == old_self.coroutines@.dom(),
                self.coroutines.key_seq() == old_self.coroutines.key_seq(),
                forall|k: u128| #[trigger] live.contains(k) ==> {
                    let c = self.coroutines@[k];
                    if waits_before(s, i as int, e, k) {
                        resumed_with(c, old_self.coroutines@[k], event_data)
                    } else {
                        c == old_self.coroutines@[k]
                    }
                },
                self.tick_waiters == old_self.tick_waiters,
                self.max_per_tick == old_self.max_per_tick,
            decreases s.len() - i,
        {
            let p = &self.event_waiters[i];
            let id = p.1;
            proof {
                assert(s.take(i as int + 1).drop_last() =~= s.take(i as int));
                assert(s.take(i as int + 1).last() == s[i as int]);
                assert(s[i as int] == (p.0@, p.1));
            }
            let same_event = crate::text::str_eq(p.0.as_str(), event_type);
            assert(same_event == (p.0@ == e));
            if same_event {
                assert(s[i as int].0 == e);
                let data = &event_data;
                let found = self.coroutines.modify(id, |c: Coroutine<V>| -> (r: Coroutine<V>)
                    ensures
                        resumed_with(r, c, *data),
                    { Coroutine { state: CoroutineState::Ready, resume_value: Some(data.clone()), ..c } });
                if found {
                    self.ready_queue.push(id);
                }
                proof {
                    assert forall|k: u128| #[trigger] live.contains(k) implies {
                        let c = self.coroutines@[k];
                        if waits_before(s, i as int + 1, e, k) {
                            resumed_with(c, old_self.coroutines@[k], event_data)
                        } else {
                            c == old_self.coroutines@[k]
                        }
                    } by {
                        if k == id {
                            assert(s[i as int].1 == k);
                            assert(waits_before(s, i as int + 1, e, k));
                        } else if waits_before(s, i as int + 1, e, k) {
                            let j = choose|j: int| 0 <= j < i + 1 && s[j].0 == e && #[trigger] s[j].1 == k;
                            assert(j < i);
                        }
                    }
                    assert(self.ready_queue@ =~= old_self.ready_queue@ + event_live(s.take(i as int + 1), e, live));
                }
            } else {
                let ghost before = kept@;
                kept.push((p.0.clone(), id));
                proof {
                    assert(kept@.map_values(|p: (String, u128)| (p.0@, p.1)) =~= before.map_values(|p: (String, u128)| (p.0@, p.1)).push(s[i as int]));
                    assert forall|k: u128| #[trigger] live.contains(k) implies {
                        let c = self.coroutines@[k];
                        if waits_before(s, i as int + 1, e, k) {
                            resumed_with(c, old_self.coroutines@[k], event_data)
                        } else {
                            c == old_self.coroutines@[k]
                        }
                    } by {
                        if waits_before(s, i as int + 1, e, k) {
                            let j = choose|j: int| 0 <= j < i + 1 && s[j].0 == e && #[trigger] s[j].1 == k;
                            assert(j < i);
                        }
                    }
                }
            }
            i = i + 1;
        }
        self.event_waiters = kept;
        proof {
            assert(self.event_waiters_view() =~= kept@.map_values(|p: (String, u128)| (p.0@, p.1)));
            assert(s.take(s.len() as int) =~= s);
            lemma_event_live(s, e, live);
            lemma_other_events(s, e);
            assert forall|k: u128| #[trigger] self.coroutines_view().contains_key(k) implies registered(
                self.coroutines_view()[k], k, self.ready_view(), self.tick_waiters_view(), self.event_waiters_view()) by {
                assert(old_self.coroutines_view().contains_key(k));
                let c = old_self.coroutines@[k];
                if waits_before(s, s.len() as int, e, k) {
                    assert(event_live(s, e, live).contains(k));
                } else {
                    match c.state {
                        CoroutineState::WaitingForEvent(ev) => {
                            let j = choose|j: int| 0 <= j < s.len() && s[j] == (ev@, k);
                            if ev@ == e {
                                assert(s[j].1 == k);
                                assert(waits_before(s, s.len() as int, e, k));
                            }
                            assert(other_events(s, e).contains((ev@, k)));
                        },
                        _ => {},
                    }
                }
            }
        }
    }

    /// Take the coroutine at the front of the ready queue and start its run at `current_tick`:
    /// it becomes running and gives up its resume value. An identifier whose coroutine is no
    /// longer live gives the error that names it. `None` when the queue is empty.
    pub fn next_run(&mut self, current_tick: u64) -> (r: Option<(u128, Result<CoroutineRun<V>, ScriptError>)>)
        where V: Clone,
        requires
            old(self).inv(),
        ensures
            final(self).inv(),
            final(self).took_next(*old(self), current_tick, r),
    {
        if self.ready_queue.len() == 0 {
            return None;
        }
        let id = self.ready_queue.remove(0);
        let ghost old_ready = old(self).ready_queue@;
        assert(self.ready_queue@ =~= old_ready.drop_first());
        assert forall|k: u128| #[trigger] self.coroutines_view().contains_key(k) implies self.coroutines_view()[k].local_vars.wf() by {
            assert(old(self).coroutines_view().contains_key(k));
        }
        let res = self.start_run(id, current_tick);
        proof {
            assert forall|k: u128| #[trigger] self.coroutines_view().contains_key(k) implies registered(
                self.coroutines_view()[k], k, self.ready_view(), self.tick_waiters_view(), self.event_waiters_view()) by {
                assert(old(self).coroutines_view().contains_key(k));
                if k != id && self.coroutines_view()[k].state is Ready {
                    let j = choose|j: int| 0 <= j < old_ready.len() && old_ready[j] == k;
                    assert(j != 0);
                    assert(self.ready_view()[j - 1] == k);
                }
            }
        }
        Some((id, res))
    }

    /// Starts the run of `id`: marks it running and takes its resume value.
    fn start_run(&mut self, id: u128, current_tick: u64) -> (res: Result<CoroutineRun<V>, ScriptError>)
        where V: Clone,
        requires
            old(self).table_wf(),
            forall|k: u128| #[trigger] old(self).coroutines_view().contains_key(k) ==> old(self).coroutines_view()[k].local_vars.wf(),
        ensures
            final(self).table_wf(),
            final(self).ready_queue == old(self).ready_queue,
            final(self).tick_waiters == old(self).tick_waiters,
            final(self).event_waiters == old(self).event_waiters,
            final(self).max_per_tick == old(self).max_per_tick,
            final(self).coroutine_order() == old(self).coroutine_order(),
            !old(self).coroutines_view().contains_key(id) ==> {
                &&& final(self).coroutines_view() == old(self).coroutines_view()
                &&& res matches Err(ScriptError::NotFound(m)) && m@ == missing_coroutine_text(id)
            },
            old(self).coroutines_view().contains_key(id) ==> {
                let c = old(self).coroutines_view()[id];
                &&& final(self).coroutines_view() == old(self).coroutines_view().insert(id,
                    Coroutine { state: CoroutineState::Running, resume_value: None, ..c })
                &&& res matches Ok(run) && run_for(run, id, c, current_tick)
            },
    {
        let (script_path, function_name, local_vars, owner, sector) = match self.coroutines.get(id) {
            Some(c) => (c.script_path.clone(), c.function_name.clone(), c.local_vars.clone_entries(), c.owner_entity_id, c.sector_id),
            None => {
                let mut m = owned("Coroutine ");
                append_str(&mut m, id_text(id).as_str());
                append_str(&mut m, " not found");
                return Err(ScriptError::NotFound(m));
            },
        };
        let ghost c = self.coroutines@[id];
        let taken = self.coroutines.update(id, |c: Coroutine<V>| -> (r: (Coroutine<V>, Option<V>))
            ensures
                r.0 == (Coroutine { state: CoroutineState::Running, resume_value: None, ..c }),
                r.1 == c.resume_value,
            {
                let Coroutine { id, script_path, function_name, state, local_vars, resume_value, created_at, resume_at, owner_entity_id, sector_id } = c;
                (Coroutine { id, script_path, function_name, state: CoroutineState::Running, local_vars, resume_value: None, created_at, resume_at, owner_entity_id, sector_id }, resume_value)
            });
        let resume_value = match taken { Some(v) => v, None => None };
        let permissions = match (owner, sector) {
            (Some(e), Some(s)) => AccessPermissions::npc_behavior(e, s),
            _ => AccessPermissions::trusted(),
        };
        let mut context = ScriptExecutionContext::new().with_script_path(script_path.as_str()).with_tick(current_tick);
        if let Some(e) = owner {
            context = context.with_owner_entity(e);
        }
        if let Some(s) = sector {
            context = context.with_sector(s);
        }
        Ok(CoroutineRun { id, script_path, function_name, local_vars, resume_value, context, permissions })
    }

    /// Record that coroutine `id` yielded `request` at `current_tick` (see `yield_handled`).
    /// `script_loaded` tells whether its script is loaded, which a scheduled callback needs.
    /// Returns the callback coroutine spawned, if any.
    pub fn handle_yield(&mut self, id: u128, request: YieldRequest<V>, current_tick: u64, script_loaded: bool) -> (scheduled: Option<u128>)
        requires
            old(self).inv(),
            request.data.wf(),
            yield_fits(request.yield_type, current_tick),
        ensures
            final(self).inv(),
            final(self).yield_handled(*old(self), id, request, current_tick, script_loaded, scheduled),
    {
        let ghost req = request;
        let (script_path, owner, sector) = match self.coroutines.get(id) {
            Some(c) => (c.script_path.clone(), c.owner_entity_id, c.sector_id),
            None => { return None; },
        };
        let ghost c = self.coroutines@[id];
        assert(self.coroutines_view().contains_key(id));
        assert(c.local_vars.wf());
        let YieldRequest { yield_type, data } = request;
        assert(data.wf());
        let (new_state, new_resume, tick_reg, event_reg, requeue, callback): (CoroutineState, Option<u64>, Option<u64>, Option<String>, bool, Option<(u64, String)>) = match yield_type {
            YieldType::Ticks(n) => {
                let t = current_tick + n;
                (CoroutineState::WaitingForTicks, Some(t), Some(t), None, false, None)
            },
            YieldType::NextFrame => (CoroutineState::WaitingForNextFrame, c_resume(&self.coroutines, id), None, None, false, None),
            YieldType::Event(e) => {
                let reg = e.clone();
                (CoroutineState::WaitingForEvent(e), c_resume(&self.coroutines, id), None, Some(reg), false, None)
            },
            YieldType::Schedule { delay_ticks, callback } => (CoroutineState::Ready, c_resume(&self.coroutines, id), None, None, true, Some((delay_ticks, callback))),
        };
        let ghost st = new_state;
        self.coroutines.modify(id, |c: Coroutine<V>| -> (r: Coroutine<V>)
            requires
                c.local_vars.wf(),
                data.wf(),
            ensures
                r.local_vars.wf(),
                r.local_vars@ == c.local_vars@.union_prefer_right(data@),
                r == (Coroutine { state: st, resume_at: new_resume, local_vars: r.local_vars, ..c }),
            {
                let Coroutine { id, script_path, function_name, state, local_vars, resume_value, created_at, resume_at, owner_entity_id, sector_id } = c;
                let mut local_vars = local_vars;
                local_vars.extend(data);
                Coroutine { id, script_path, function_name, state: new_state, local_vars, resume_value, created_at, resume_at: new_resume, owner_entity_id, sector_id }
            });
        let ghost mid = *self;
        if let Some(t) = tick_reg {
            self.tick_waiters.push((t, id));
        }
        if let Some(e) = event_reg {
            self.event_waiters.push((e, id));
            proof {
                assert(self.event_waiters_view() =~= mid.event_waiters_view().push((e@, id)));
            }
        }
        if requeue {
            self.ready_queue.push(id);
        }
        proof {
            assert forall|k: u128| #[trigger] self.coroutines_view().contains_key(k) implies registered(
                self.coroutines_view()[k], k, self.ready_view(), self.tick_waiters_view(), self.event_waiters_view()) by {
                assert(old(self).coroutines_view().contains_key(k));
            }
        }
        let ghost before_spawn = *self;
        let scheduled = match callback {
            Some((delay_ticks, callback)) => {
                match self.spawn_scheduled(script_loaded, script_path.as_str(), callback.as_str(), current_tick, delay_ticks, owner, sector) {
                    Ok(nid) => Some(nid),
                    Err(_) => None,
                }
            },
            None => None,
        };
        proof {
            if let Some(nid) = scheduled {
                let w2 = before_spawn.coroutines_view()[id];
                assert(yielded(c, w2, req, current_tick));
                assert(self.coroutines_view() == old(self).coroutines_view().insert(id, w2).insert(nid, self.coroutines_view()[nid]));
            }
        }
        scheduled
    }

    /// Record how the run of `id` went, into `report`: a completed or failed coroutine leaves
    /// the table and is listed as completed, or as failed with its error's text; a yield is
    /// handled as `handle_yield` says. Returns the callback coroutine a yield spawned, if any.
    pub fn finish_run(
        &mut self,
        id: u128,
        outcome: Result<CoroutineExecResult<V>, ScriptError>,
        current_tick: u64,
        script_loaded: bool,
        report: &mut CoroutineTickResult,
    ) -> (scheduled: Option<u128>)
        requires
            old(self).inv(),
            outcome matches Ok(CoroutineExecResult::Yielded(req)) ==> req.data.wf() && yield_fits(req.yield_type, current_tick),
        ensures
            final(self).inv(),
            final(self).finished(*old(self), id, outcome, current_tick, script_loaded, scheduled, *final(report), *old(report)),
    {
        match outcome {
            Ok(CoroutineExecResult::Yielded(req)) => self.handle_yield(id, req, current_tick, script_loaded),
            Ok(CoroutineExecResult::Completed(_)) => {
                report.completed.push(id);
                self.remove_finished(id);
                None
            },
            Ok(CoroutineExecResult::Failed(m)) => {
                report.failed.push((id, m));
                self.remove_finished(id);
                None
            },
            Err(e) => {
                let ghost before = report.failed@;
                report.failed.push((id, e.message()));
                assert(report.failed@.drop_last() =~= before);
                self.remove_finished(id);
                None
            },
        }
    }

    /// Removes a coroutine whose run ended.
    fn remove_finished(&mut self, id: u128)
        requires
            old(self).inv(),
        ensures
            final(self).inv(),
            final(self).coroutines_view() == old(self).coroutines_view().remove(id),
            final(self).ready_view() == old(self).ready_view(),
            final(self).tick_waiters_view() == old(self).tick_waiters_view(),
            final(self).event_waiters_view() == old(self).event_waiters_view(),
            final(self).max_per_tick_view() == old(self).max_per_tick_view(),
    {
        self.coroutines.remove(id);
        proof {
            assert forall|k: u128| #[trigger] self.coroutines_view().contains_key(k) implies registered(
                self.coroutines_view()[k], k, self.ready_view(), self.tick_waiters_view(), self.event_waiters_view()) by {
                assert(old(self).coroutines_view().contains_key(k));
            }
        }
    }

    /// Process one tick: wake the coroutines whose tick has come and those waiting for the
    /// next frame, then run ready coroutines from the front of the queue, at most
    /// `max_per_tick` of them, through `run`, and record how each went (see `finish_run`),
    /// stopping early when the queue runs dry. The result lists the coroutines that completed
    /// or failed, in that order, and how many are left.
    pub fn tick<F>(&mut self, current_tick: u64, run: F) -> (r: CoroutineTickResult)
        where V: Clone, F: Fn(CoroutineRun<V>) -> RunReport<V>,
        requires
            old(self).inv(),
            forall|x: CoroutineRun<V>| #[trigger] run.requires((x,)),
            forall|x: CoroutineRun<V>, out: RunReport<V>| #[trigger] run.ensures((x,), out) ==> report_fits(out, current_tick),
        ensures
            final(self).inv(),
            r.pending_count == final(self).coroutines_view().len(),
            final(self).max_per_tick_view() == old(self).max_per_tick_view(),
            exists|w: CoroutineScheduler<V>, states: Seq<CoroutineScheduler<V>>, reps: Seq<CoroutineTickResult>|
                #![trigger w.ticks_woken(*old(self), current_tick), ran_steps(states, reps, current_tick, run)]
                {
                    &&& w.ticks_woken(*old(self), current_tick)
                    &&& ran_steps(states, reps, current_tick, run)
                    &&& 1 <= states.len() <= old(self).max_per_tick_view() + 1
                    &&& states[0].frames_woken(w)
                    &&& reps[0].completed@.len() == 0
                    &&& reps[0].failed@.len() == 0
                    &&& (states.len() <= old(self).max_per_tick_view() ==> states.last().ready_view().len() == 0)
                    &&& *final(self) == states.last()
                    &&& r.completed == reps.last().completed
                    &&& r.failed == reps.last().failed
                },
    {
        self.wake_tick_waiters(current_tick);
        let ghost w = *self;
        self.wake_next_frame_waiters();
        let mut report = CoroutineTickResult { completed: Vec::new(), failed: Vec::new(), pending_count: 0 };
        let ghost mut states: Seq<CoroutineScheduler<V>> = seq![*self];
        let ghost mut reps: Seq<CoroutineTickResult> = seq![report];
        let mut processed: usize = 0;
        let mut go = true;
        while go && processed < self.max_per_tick
            invariant
                self.inv(),
                processed <= self.max_per_tick,
                self.max_per_tick == old(self).max_per_tick,
                states.len() == processed + 1,
                reps.len() == states.len(),
                ran_steps(states, reps, current_tick, run),
                states[0].frames_woken(w),
                w.ticks_woken(*old(self), current_tick),
                reps[0].completed@.len() == 0,
                reps[0].failed@.len() == 0,
                *self == states.last(),
                report == reps.last(),
                !go ==> self.ready_view().len() == 0,
                forall|x: CoroutineRun<V>| #[trigger] run.requires((x,)),
                forall|x: CoroutineRun<V>, out: RunReport<V>| #[trigger] run.ensures((x,), out) ==> report_fits(out, current_tick),
            decreases (self.max_per_tick - processed) * 2 + if go { 1int } else { 0int },
        {
            let ghost prev = *self;
            let ghost prev_rep = report;
            let next = self.next_run(current_tick);
            let ghost mid = *self;
            let ghost taken = next;
            match next {
                None => {
                    go = false;
                },
                Some((id, Ok(coroutine_run))) => {
                    let ghost x = coroutine_run;
                    let outcome = run(coroutine_run);
                    let ghost out = outcome;
                    let sch = self.finish_run(id, Ok(outcome.result), current_tick, outcome.script_loaded, &mut report);
                    proof {
                        assert(run.ensures((x,), out) && self.finished(mid, id, Ok(out.result), current_tick, out.script_loaded, sch, report, prev_rep));
                        assert(self.run_ended(mid, id, Ok::<CoroutineRun<V>, ScriptError>(x), current_tick, run, report, prev_rep));
                        assert(mid.took_next(prev, current_tick, Some((id, Ok::<CoroutineRun<V>, ScriptError>(x)))));
                        assert(self.ran_one(prev, report, prev_rep, current_tick, run));
                        self.lemma_push_step(states, reps, *self, report, current_tick, run);
                        states = states.push(*self);
                        reps = reps.push(report);
                    }
                    processed = processed + 1;
                },
                Some((id, Err(e))) => {
                    let ghost ge = e;
                    let sch = self.finish_run(id, Err(e), current_tick, false, &mut report);
                    proof {
                        assert(self.finished(mid, id, Err(ge), current_tick, false, sch, report, prev_rep));
                        assert(self.run_ended(mid, id, Err::<CoroutineRun<V>, ScriptError>(ge), current_tick, run, report, prev_rep));
                        assert(mid.took_next(prev, current_tick, Some((id, Err::<CoroutineRun<V>, ScriptError>(ge)))));
                        assert(self.ran_one(prev, report, prev_rep, current_tick, run));
                        self.lemma_push_step(states, reps, *self, report, current_tick, run);
                        states = states.push(*self);
                        reps = reps.push(report);
                    }
                    processed = processed + 1;
                },
            }
        }
        report.pending_count = self.coroutines.len();
        proof {
            assert(ran_steps(states, reps, current_tick, run));
        }
        report
    }

    /// Adding a state and report that follow from the last ones by one run keeps the steps.
    proof fn lemma_push_step<F: Fn(CoroutineRun<V>) -> RunReport<V>>(
        &self,
        states: Seq<CoroutineScheduler<V>>,
        reps: Seq<CoroutineTickResult>,
        next: CoroutineScheduler<V>,
        next_rep: CoroutineTickResult,
        tick: u64,
        run: F,
    )
        where V: Clone,
        requires
            ran_steps(states, reps, tick, run),
            states.len() >= 1,
            next.ran_one(states.last(), next_rep, reps.last(), tick, run),
        ensures
            ran_steps(states.push(next), reps.push(next_rep), tick, run),
    {
        let s2 = states.push(next);
        let r2 = reps.push(next_rep);
        assert forall|i: int| 0 < i < s2.len() implies #[trigger] step_at(s2, r2, i, tick, run) by {
            if i < states.len() {
                assert(step_at(states, reps, i, tick, run));
                assert(s2[i] == states[i] && s2[i - 1] == states[i - 1]);
                assert(r2[i] == reps[i] && r2[i - 1] == reps[i - 1]);
            } else {
                assert(s2[i] == next && s2[i - 1] == states.last());
                assert(r2[i] == next_rep && r2[i - 1] == reps.last());
            }
        }
    }

    /// Clones of all live coroutines, in the order they were added.
    pub fn list_all(&self) -> (r: Vec<Coroutine<V>>)
        where V: Clone,
        requires
            self.inv(),
        ensures
            r@.len() == self.coroutine_order().len(),
            forall|i: int| 0 <= i < r@.len() ==> clone_of(#[trigger] r@[i], self.coroutines_view()[self.coroutine_order()[i]]),
    {
        let n = self.coroutines.len();
        let mut out: Vec<Coroutine<V>> = Vec::new();
        let mut i: usize = 0;
        while i < n
            invariant
                self.inv(),
                n == self.coroutine_order().len(),
                i <= n,
                out@.len() == i,
                forall|j: int| 0 <= j < i ==> clone_of(#[trigger] out@[j], self.coroutines_view()[self.coroutine_order()[j]]),
            decreases n - i,
        {
            let entry = self.coroutines.entry_at(i);
            out.push(entry.1.clone());
            i = i + 1;
        }
        out
    }

    /// Cancel every coroutine owned by `entity_id` (see `cancel`).
    pub fn cancel_for_entity(&mut self, entity_id: u128)
        requires
            old(self).inv(),
        ensures
            final(self).inv(),
            forall|k: u128| #[trigger] final(self).coroutines_view().contains_key(k) <==>
                (old(self).coroutines_view().contains_key(k) && old(self).coroutines_view()[k].owner_entity_id != Some(entity_id)),
            forall|k: u128| #[trigger] final(self).coroutines_view().contains_key(k) ==> final(self).coroutines_view()[k] == old(self).coroutines_view()[k],
            forall|x: u128| #[trigger] final(self).ready_view().contains(x) <==>
                (old(self).ready_view().contains(x) && !owned_by(old(self).coroutines_view(), x, entity_id)),
            final(self).max_per_tick_view() == old(self).max_per_tick_view(),
            forall|p: (u64, u128)| #[trigger] final(self).tick_waiters_view().contains(p) <==>
                (old(self).tick_waiters_view().contains(p) && !(owned_by(old(self).coroutines_view(), p.1, entity_id)
                    && tick_registration_of(old(self).coroutines_view()[p.1], p.0))),
            forall|p: (Seq<char>, u128)| #[trigger] final(self).event_waiters_view().contains(p) <==>
                (old(self).event_waiters_view().contains(p) && !(owned_by(old(self).coroutines_view(), p.1, entity_id)
                    && event_registration_of(old(self).coroutines_view()[p.1], p.0))),
    {
        let ghost m = self.coroutines@;
        let ghost order = self.coroutines.key_seq();
        proof { self.lemma_order(); }
        let n = self.coroutines.len();
        let mut ids: Vec<u128> = Vec::new();
        let mut i: usize = 0;
        while i < n
            invariant
                self.inv(),
                *self == *old(self),
                m == self.coroutines@,
                order == self.coroutines.key_seq(),
                n == order.len(),
                i <= n,
                forall|k: u128| #[trigger] ids@.contains(k) <==>
                    (exists|j: int| 0 <= j < i && order[j] == k) && m[k].owner_entity_id == Some(entity_id),
            decreases n - i,
        {
            let entry = self.coroutines.entry_at(i);
            let k = entry.0;
            if entry.1.owner_entity_id == Some(entity_id) {
                ids.push(k);
            }
            proof {
                assert forall|kk: u128| #[trigger] ids@.contains(kk) <==>
                    (exists|j: int| 0 <= j < i + 1 && order[j] == kk) && m[kk].owner_entity_id == Some(entity_id) by {
                    if exists|j: int| 0 <= j < i + 1 && order[j] == kk {
                        let j = choose|j: int| 0 <= j < i + 1 && order[j] == kk;
                        if j < i {
                            assert(exists|j: int| 0 <= j < i && order[j] == kk);
                        }
                    }
                    if (exists|j: int| 0 <= j < i && order[j] == kk) {
                        let j = choose|j: int| 0 <= j < i && order[j] == kk;
                        assert(0 <= j < i + 1 && order[j] == kk);
                    }
                }
            }
            i = i + 1;
        }
        proof {
            assert forall|k: u128| #[trigger] ids@.contains(k) <==> (m.contains_key(k) && m[k].owner_entity_id == Some(entity_id)) by {
                if m.contains_key(k) {
                    assert(order.contains(k));
                    let j = choose|j: int| 0 <= j < order.len() && order[j] == k;
                    assert(exists|j: int| 0 <= j < n && order[j] == k);
                }
                if exists|j: int| 0 <= j < n && order[j] == k {
                    let j = choose|j: int| 0 <= j < n && order[j] == k;
                    assert(order.contains(k));
                }
            }
        }
        let mut j: usize = 0;
        while j < ids.len()
            invariant
                self.inv(),
                j <= ids@.len(),
                forall|k: u128| #[trigger] ids@.contains(k) <==> (m.contains_key(k) && m[k].owner_entity_id == Some(entity_id)),
                m == old(self).coroutines_view(),
                forall|k: u128| #[trigger] self.coroutines_view().contains_key(k) <==>
                    (m.contains_key(k) && !(exists|x: int| 0 <= x < j && ids@[x] == k)),
                forall|k: u128| #[trigger] self.coroutines_view().contains_key(k) ==> self.coroutines_view()[k] == m[k],
                forall|x: u128| #[trigger] self.ready_view().contains(x) <==>
                    (old(self).ready_view().contains(x) && !among_first(ids@, j as int, x)),
                self.max_per_tick_view() == old(self).max_per_tick_view(),
                forall|p: (u64, u128)| #[trigger] self.tick_waiters_view().contains(p) <==>
                    (old(self).tick_waiters_view().contains(p) && !(among_first(ids@, j as int, p.1)
                        && tick_registration_of(m[p.1], p.0))),
                forall|p: (Seq<char>, u128)| #[trigger] self.event_waiters_view().contains(p) <==>
                    (old(self).event_waiters_view().contains(p) && !(among_first(ids@, j as int, p.1)
                        && event_registration_of(m[p.1], p.0))),
            decreases ids@.len() - j,
        {
            let id = ids[j];
            let ghost before = *self;
            self.cancel(id);
            proof {
                lemma_without(before.ready_view(), id);
                if before.coroutines_view().contains_key(id) {
                    let c = before.coroutines_view()[id];
                    lemma_without(before.tick_waiters_view(), (c.resume_at.unwrap_or(0), id));
                    match c.state {
                        CoroutineState::WaitingForEvent(e) => { lemma_without(before.event_waiters_view(), (e@, id)); },
                        _ => {},
                    }
                }
                assert forall|k: u128| #[trigger] self.coroutines_view().contains_key(k) <==>
                    (m.contains_key(k) && !(exists|x: int| 0 <= x < j + 1 && ids@[x] == k)) by {
                    if exists|x: int| 0 <= x < j + 1 && ids@[x] == k {
                        let x = choose|x: int| 0 <= x < j + 1 && ids@[x] == k;
                        if x < j {
                            assert(exists|x: int| 0 <= x < j && ids@[x] == k);
                        }
                    }
                    if exists|x: int| 0 <= x < j && ids@[x] == k {
                        let x = choose|x: int| 0 <= x < j && ids@[x] == k;
                        assert(0 <= x < j + 1 && ids@[x] == k);
                    }
                }
                assert forall|k: u128| #[trigger] among_first(ids@, j + 1, k) <==>
                    (among_first(ids@, j as int, k) || k == id) by {
                    if exists|x: int| 0 <= x < j + 1 && ids@[x] == k {
                        let x = choose|x: int| 0 <= x < j + 1 && ids@[x] == k;
                        if x < j {
                            assert(exists|x: int| 0 <= x < j && ids@[x] == k);
                        }
                    }
                    if exists|x: int| 0 <= x < j && ids@[x] == k {
                        let x = choose|x: int| 0 <= x < j && ids@[x] == k;
                        assert(0 <= x < j + 1 && ids@[x] == k);
                    }
                    if k == id {
                        assert(0 <= j < j + 1 && ids@[j as int] == k);
                    }
                }
                if !before.coroutines_view().contains_key(id) {
                    assert(ids@.contains(id));
                    assert(among_first(ids@, j as int, id));
                }
            }
            j = j + 1;
        }
        proof {
            assert forall|k: u128| #[trigger] self.coroutines_view().contains_key(k) <==>
                (m.contains_key(k) && m[k].owner_entity_id != Some(entity_id)) by {
                if m.contains_key(k) && m[k].owner_entity_id == Some(entity_id) {
                    assert(ids@.contains(k));
                    let x = choose|x: int| 0 <= x < ids@.len() && ids@[x] == k;
                    assert(exists|x: int| 0 <= x < j && ids@[x] == k);
                }
                if exists|x: int| 0 <= x < j && ids@[x] == k {
                    let x = choose|x: int| 0 <= x < j && ids@[x] == k;
                    assert(ids@.contains(k));
                }
            }
            assert forall|k: u128| #[trigger] among_first(ids@, j as int, k) <==> owned_by(m, k, entity_id) by {
                if owned_by(m, k, entity_id) {
                    assert(ids@.contains(k));
                    let x = choose|x: int| 0 <= x < ids@.len() && ids@[x] == k;
                    assert(exists|x: int| 0 <= x < j && ids@[x] == k);
                }
                if exists|x: int| 0 <= x < j && ids@[x] == k {
                    let x = choose|x: int| 0 <= x < j && ids@[x] == k;
                    assert(ids@.contains(k));
                }
            }
        }
    }
}


/// Whether `k` is among the first `n` entries of `s`.
pub open spec fn among_first(s: Seq<u128>, n: int, k: u128) -> bool {
    exists|x: int| 0 <= x < n && s[x] == k
}

/// Whether the table holds `k` and it belongs to `entity_id`.
pub open spec fn owned_by<V>(table: Map<u128, Coroutine<V>>, k: u128, entity_id: u128) -> bool {
    table.contains_key(k) && table[k].owner_entity_id == Some(entity_id)
}

/// Whether the coroutine is due at `tick`, so that it is registered there.
pub open spec fn tick_registration_of<V>(c: Coroutine<V>, tick: u64) -> bool {
    c.resume_at == Some(tick)
}

/// Whether the coroutine waits for the event `e`, so that it is registered for it.
pub open spec fn event_registration_of<V>(c: Coroutine<V>, e: Seq<char>) -> bool {
    c.state matches CoroutineState::WaitingForEvent(w) && w@ == e
}

/// `new` is `prev` after the event `e` happened with `data`: the registrations for `e` are
/// dropped, their live coroutines become ready with a clone of `data` as resume value and join
/// the ready queue in registration order; nothing else changes.
pub open spec fn event_notified<V: Clone>(new: CoroutineScheduler<V>, prev: CoroutineScheduler<V>, e: Seq<char>, data: V) -> bool {
    &&& new.event_waiters_view() == other_events(prev.event_waiters_view(), e)
    &&& new.ready_view() == prev.ready_view() + event_live(prev.event_waiters_view(), e, prev.coroutines_view().dom())
    &&& new.coroutines_view().dom() == prev.coroutines_view().dom()
    &&& forall|k: u128| #[trigger] prev.coroutines_view().contains_key(k) ==> {
        let c = new.coroutines_view()[k];
        if waits_before(prev.event_waiters_view(), prev.event_waiters_view().len() as int, e, k) {
            resumed_with(c, prev.coroutines_view()[k], data)
        } else {
            c == prev.coroutines_view()[k]
        }
    }
    &&& new.coroutine_order() == prev.coroutine_order()
    &&& new.tick_waiters_view() == prev.tick_waiters_view()
    &&& new.max_per_tick_view() == prev.max_per_tick_view()
}

/// Cancelling a coroutine just spawned under a new identifier gives back the coroutine table,
/// the event registrations and (when the identifier was not queued) the ready queue as they
/// were before the spawn.
pub proof fn law_cancel_undoes_spawn<V>(
    s0: CoroutineScheduler<V>,
    s1: CoroutineScheduler<V>,
    s2: CoroutineScheduler<V>,
    id: u128,
    script_path: Seq<char>,
    function_name: Seq<char>,
    tick: u64,
    owner: Option<u128>,
    sector: Option<u128>,
    resume_at: Option<u64>,
)
    requires
        !s0.coroutines_view().contains_key(id),
        s1.spawned_from(s0, id, script_path, function_name, tick, owner, sector, resume_at),
        s2.cancelled(s1, id),
    ensures
        s2.coroutines_view() == s0.coroutines_view(),
        s2.event_waiters_view() == s0.event_waiters_view(),
        !s0.ready_view().contains(id) ==> s2.ready_view() == s0.ready_view(),
{
    assert(s2.coroutines_view() =~= s0.coroutines_view());
    if !s0.ready_view().contains(id) {
        lemma_without_absent(s0.ready_view(), id);
        assert(s0.ready_view().push(id).drop_last() =~= s0.ready_view());
    }
}

/// Dropping what a sequence does not hold leaves it as it is.
pub proof fn lemma_without_absent<A>(s: Seq<A>, x: A)
    requires
        !s.contains(x),
    ensures
        without(s, x) == s,
    decreases s.len(),
{
    if s.len() > 0 {
        assert(!s.drop_last().contains(x)) by {
            if s.drop_last().contains(x) {
                let j = choose|j: int| 0 <= j < s.drop_last().len() && s.drop_last()[j] == x;
                assert(s[j] == x);
            }
        }
        lemma_without_absent(s.drop_last(), x);
        assert(s.drop_last().push(s.last()) =~= s);
    }
}

/// A coroutine that yields to wait for an event is woken when that event happens: it becomes
/// ready, is queued, and resumes with a clone of the event's data.
pub proof fn law_event_wakes_waiter<V: Clone>(
    s0: CoroutineScheduler<V>,
    s1: CoroutineScheduler<V>,
    s2: CoroutineScheduler<V>,
    id: u128,
    request: YieldRequest<V>,
    tick: u64,
    script_loaded: bool,
    scheduled: Option<u128>,
    e: Seq<char>,
    data: V,
)
    requires
        s0.coroutines_view().contains_key(id),
        request.yield_type matches YieldType::Event(ev) && ev@ == e,
        s1.yield_handled(s0, id, request, tick, script_loaded, scheduled),
        event_notified(s2, s1, e, data),
    ensures
        s2.coroutines_view().contains_key(id),
        s2.coroutines_view()[id].state is Ready,
        s2.coroutines_view()[id].resume_value matches Some(v) && cloned(data, v),
        s2.ready_view().contains(id),
{
    let evs = s1.event_waiters_view();
    assert(evs[evs.len() - 1] == (e, id));
    assert(waits_before(evs, evs.len() as int, e, id));
    assert(s1.coroutines_view().contains_key(id));
    lemma_event_live(evs, e, s1.coroutines_view().dom());
    assert(event_live(evs, e, s1.coroutines_view().dom()).contains(id));
}

/// A coroutine that yields to wait `n` ticks at tick `tick` is woken by the wake-up of any
/// tick from `tick + n` on: it becomes ready and is queued.
pub proof fn law_ticks_wake_waiter<V>(
    s0: CoroutineScheduler<V>,
    s1: CoroutineScheduler<V>,
    s2: CoroutineScheduler<V>,
    id: u128,
    request: YieldRequest<V>,
    tick: u64,
    script_loaded: bool,
    scheduled: Option<u128>,
    n: u64,
    later: u64,
)
    requires
        s0.coroutines_view().contains_key(id),
        request.yield_type == YieldType::Ticks(n),
        s1.yield_handled(s0, id, request, tick, script_loaded, scheduled),
        tick + n <= later,
        s2.ticks_woken(s1, later),
    ensures
        s2.coroutines_view().contains_key(id),
        s2.coroutines_view()[id].state is Ready,
        s2.ready_view().contains(id),
{
    let ts = s1.tick_waiters_view();
    assert(ts[ts.len() - 1] == ((tick + n) as u64, id));
    assert(due_before(ts, ts.len() as int, later, id));
    assert(s1.coroutines_view().contains_key(id));
    lemma_due_live(ts, later, s1.coroutines_view().dom());
    assert(due_live(ts, later, s1.coroutines_view().dom()).contains(id));
}

} // verus!
