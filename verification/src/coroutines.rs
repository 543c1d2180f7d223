//! Coroutines: script functions that can pause (yield) and resume later, after some
//! ticks, on the next frame, or when an event happens.

use vstd::prelude::*;
use crate::ids::new_id;
use crate::maps::StrMap;
use crate::text::owned;

pub mod scheduler;

verus! {

/// Coroutine execution state.
#[derive(Debug, PartialEq)]
pub enum CoroutineState {
    /// Ready to run
    Ready,
    /// Currently executing
    Running,
    /// Waiting for N ticks
    WaitingForTicks,
    /// Waiting for an event
    WaitingForEvent(String),
    /// Waiting for next frame
    WaitingForNextFrame,
    /// Completed successfully
    Completed,
    /// Failed with error
    Failed(String),
}

impl Clone for CoroutineState {
    fn clone(&self) -> (r: Self)
        ensures
            r == *self,
    {
        match self {
            CoroutineState::Ready => CoroutineState::Ready,
            CoroutineState::Running => CoroutineState::Running,
            CoroutineState::WaitingForTicks => CoroutineState::WaitingForTicks,
            CoroutineState::WaitingForEvent(e) => CoroutineState::WaitingForEvent(e.clone()),
            CoroutineState::WaitingForNextFrame => CoroutineState::WaitingForNextFrame,
            CoroutineState::Completed => CoroutineState::Completed,
            CoroutineState::Failed(e) => CoroutineState::Failed(e.clone()),
        }
    }
}

/// A suspended script execution. `V` is the type of script values it keeps.
#[derive(Debug)]
pub struct Coroutine<V> {
    /// Unique identifier
    pub id: u128,
    /// Script path
    pub script_path: String,
    /// Function name being executed
    pub function_name: String,
    /// Current state
    pub state: CoroutineState,
    /// Saved local variables
    pub local_vars: StrMap<V>,
    /// Value to return from yield when resuming
    pub resume_value: Option<V>,
    /// Tick when created
    pub created_at: u64,
    /// Tick to resume at (for WaitingForTicks)
    pub resume_at: Option<u64>,
    /// Entity that owns this coroutine (if any)
    pub owner_entity_id: Option<u128>,
    /// Sector context
    pub sector_id: Option<u128>,
}

impl<V> Coroutine<V> {
    /// A ready coroutine with a fresh identifier, no saved variables and no owner or sector.
    pub fn new(script_path: &str, function_name: &str, created_at: u64) -> (r: Self)
        ensures
            r.script_path@ == script_path@,
            r.function_name@ == function_name@,
            r.state == CoroutineState::Ready,
            r.local_vars.wf(),
            r.local_vars@.len() == 0,
            r.resume_value is None,
            r.created_at == created_at,
            r.resume_at is None,
            r.owner_entity_id is None,
            r.sector_id is None,
    {
        Coroutine {
            id: new_id(),
            script_path: owned(script_path),
            function_name: owned(function_name),
            state: CoroutineState::Ready,
            local_vars: StrMap::new(),
            resume_value: None,
            created_at,
            resume_at: None,
            owner_entity_id: None,
            sector_id: None,
        }
    }

    /// Set the owner entity.
    pub fn with_owner(self, entity_id: u128) -> (r: Self)
        ensures
            r == (Coroutine { owner_entity_id: Some(entity_id), ..self }),
    {
        Coroutine { owner_entity_id: Some(entity_id), ..self }
    }

    /// Set the sector.
    pub fn with_sector(self, sector_id: u128) -> (r: Self)
        ensures
            r == (Coroutine { sector_id: Some(sector_id), ..self }),
    {
        Coroutine { sector_id: Some(sector_id), ..self }
    }

    /// Whether the coroutine can run at `current_tick`: it is ready, or it waits for a tick
    /// that has come.
    pub fn is_ready(&self, current_tick: u64) -> (r: bool)
        ensures
            r == match self.state {
                CoroutineState::Ready => true,
                CoroutineState::WaitingForTicks => self.resume_at matches Some(t) && current_tick >= t,
                _ => false,
            },
    {
        match self.state {
            CoroutineState::Ready => true,
            CoroutineState::WaitingForTicks => match self.resume_at {
                Some(t) => current_tick >= t,
                None => false,
            },
            _ => false,
        }
    }
}

/// `c` is a clone of `orig`: the same fields, with the script values cloned.
pub open spec fn clone_of<V: Clone>(c: Coroutine<V>, orig: Coroutine<V>) -> bool {
    &&& c.id == orig.id
    &&& c.script_path == orig.script_path
    &&& c.function_name == orig.function_name
    &&& c.state == orig.state
    &&& c.local_vars.key_seq() == orig.local_vars.key_seq()
    &&& c.local_vars.wf() == orig.local_vars.wf()
    &&& c.local_vars.value_seq().len() == orig.local_vars.value_seq().len()
    &&& (forall|i: int| 0 <= i < orig.local_vars.value_seq().len()
        ==> cloned(#[trigger] orig.local_vars.value_seq()[i], c.local_vars.value_seq()[i]))
    &&& match (c.resume_value, orig.resume_value) {
        (Some(a), Some(b)) => cloned(b, a),
        (None, None) => true,
        _ => false,
    }
    &&& c.created_at == orig.created_at
    &&& c.resume_at == orig.resume_at
    &&& c.owner_entity_id == orig.owner_entity_id
    &&& c.sector_id == orig.sector_id
}

impl<V: Clone> Clone for Coroutine<V> {
    fn clone(&self) -> (r: Self)
        ensures
            clone_of(r, *self),
    {
        let resume_value = match &self.resume_value {
            Some(v) => Some(v.clone()),
            None => None,
        };
        Coroutine {
            id: self.id,
            script_path: self.script_path.clone(),
            function_name: self.function_name.clone(),
            state: self.state.clone(),
            local_vars: self.local_vars.clone_entries(),
            resume_value,
            created_at: self.created_at,
            resume_at: self.resume_at,
            owner_entity_id: self.owner_entity_id,
            sector_id: self.sector_id,
        }
    }
}

/// How a coroutine asks to be resumed.
#[derive(Debug, Clone)]
pub enum YieldType {
    /// Wait for N ticks
    Ticks(u64),
    /// Wait for next frame
    NextFrame,
    /// Wait for an event
    Event(String),
    /// Schedule a callback after some ticks
    Schedule { delay_ticks: u64, callback: String },
}

/// A yield request: how to resume, and values to keep in the coroutine's variables.
#[derive(Debug)]
pub struct YieldRequest<V> {
    /// Type of yield
    pub yield_type: YieldType,
    /// Additional data to save
    pub data: StrMap<V>,
}

impl<V> YieldRequest<V> {
    /// Wait for `count` ticks.
    pub fn ticks(count: u64) -> (r: Self)
        ensures
            r.yield_type matches YieldType::Ticks(c) && c == count,
            r.data.wf(),
            r.data@.len() == 0,
    {
        YieldRequest { yield_type: YieldType::Ticks(count), data: StrMap::new() }
    }

    /// Wait for the next frame.
    pub fn next_frame() -> (r: Self)
        ensures
            r.yield_type matches YieldType::NextFrame,
            r.data.wf(),
            r.data@.len() == 0,
    {
        YieldRequest { yield_type: YieldType::NextFrame, data: StrMap::new() }
    }

    /// Wait for an event.
    pub fn event(event_type: &str) -> (r: Self)
        ensures
            r.yield_type matches YieldType::Event(e) && e@ == event_type@,
            r.data.wf(),
            r.data@.len() == 0,
    {
        YieldRequest { yield_type: YieldType::Event(owned(event_type)), data: StrMap::new() }
    }
}

/// Result of running a coroutine once.
#[derive(Debug)]
pub enum CoroutineExecResult<V> {
    /// Coroutine completed with a value
    Completed(V),
    /// Coroutine yielded
    Yielded(YieldRequest<V>),
    /// Coroutine failed
    Failed(String),
}

/// Summary of a scheduler tick.
#[derive(Debug)]
pub struct CoroutineTickResult {
    /// Coroutines that completed this tick
    pub completed: Vec<u128>,
    /// Coroutines that failed this tick
    pub failed: Vec<(u128, String)>,
    /// Number of coroutines still pending
    pub pending_count: usize,
}

/// Where a script's yield request waits until the coroutine's run ends.
pub struct YieldSlot<V> {
    request: Option<YieldRequest<V>>,
}

impl<V> YieldSlot<V> {
    /// The pending request, if any.
    pub closed spec fn view(&self) -> Option<YieldRequest<V>> {
        self.request
    }

    /// An empty slot.
    pub fn new() -> (r: Self)
        ensures
            r@ is None,
    {
        YieldSlot { request: None }
    }

    /// Record a request (the latest one wins).
    pub fn request(&mut self, req: YieldRequest<V>)
        ensures
            final(self)@ == Some(req),
    {
        self.request = Some(req);
    }
}

/// Take the pending yield request, leaving the slot empty.
pub fn take_yield_request<V>(slot: &mut YieldSlot<V>) -> (r: Option<YieldRequest<V>>)
    ensures
        r == old(slot)@,
        final(slot)@ is None,
{
    slot.request.take()
}

/// Clear any pending yield request.
pub fn clear_yield_request<V>(slot: &mut YieldSlot<V>)
    ensures
        final(slot)@ is None,
{
    slot.request = None;
}

/// How one run of a coroutine ended: a yield requested during the run wins; otherwise the
/// function's value or its error.
pub fn classify_run<V>(yield_request: Option<YieldRequest<V>>, outcome: Result<V, String>) -> (r: CoroutineExecResult<V>)
    ensures
        yield_request matches Some(y) ==> r == CoroutineExecResult::Yielded(y),
        yield_request is None ==> match outcome {
            Ok(v) => r == CoroutineExecResult::<V>::Completed(v),
            Err(e) => r == CoroutineExecResult::<V>::Failed(e),
        },
{
    match yield_request {
        Some(y) => CoroutineExecResult::Yielded(y),
        None => match outcome {
            Ok(v) => CoroutineExecResult::Completed(v),
            Err(e) => CoroutineExecResult::Failed(e),
        },
    }
}

} // verus!
