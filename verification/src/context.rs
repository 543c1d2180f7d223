//! Script execution context.
//!
//! While a script runs, the information it needs (its path, the entity it belongs to,
//! the sector and the tick) is held in an `ExecutionSlot`. Entering fails when a script
//! is already running in the slot, so script execution never nests.

use vstd::prelude::*;
use crate::errors::{ErrorLog, set_current_script, set_current_tick, clear_current_script};
use crate::text::owned;

verus! {

/// Error during script execution context setup.
#[derive(Debug, Clone, Copy, PartialEq, Eq)]
pub enum ExecutionError {
    /// A script is already running on this thread.
    ReentrantExecution,
}

impl ExecutionError {
    /// The error's text.
    pub fn message(&self) -> (r: &'static str)
        ensures
            r@ == "Re-entrant script execution detected - a script is already running on this thread"@,
    {
        match self {
            ExecutionError::ReentrantExecution => "Re-entrant script execution detected - a script is already running on this thread",
        }
    }
}

/// The information a running script needs.
#[derive(Debug)]
pub struct ScriptExecutionContext {
    /// Path to the currently executing script.
    pub script_path: String,
    /// The entity this script is attached to (for behavior scripts).
    pub owner_entity_id: Option<u128>,
    /// The sector where the script is executing.
    pub sector_id: Option<u128>,
    /// Current game tick for error timestamps.
    pub tick: u64,
}

impl Clone for ScriptExecutionContext {
    fn clone(&self) -> (r: Self)
        ensures
            r == *self,
    {
        ScriptExecutionContext {
            script_path: self.script_path.clone(),
            owner_entity_id: self.owner_entity_id,
            sector_id: self.sector_id,
            tick: self.tick,
        }
    }
}

impl ScriptExecutionContext {
    /// A context with an empty script path, no owner or sector, at tick 0.
    pub fn new() -> (r: Self)
        ensures
            r.script_path@.len() == 0,
            r.owner_entity_id is None,
            r.sector_id is None,
            r.tick == 0,
    {
        ScriptExecutionContext { script_path: String::new(), owner_entity_id: None, sector_id: None, tick: 0 }
    }

    /// Set the script path.
    pub fn with_script_path(self, path: &str) -> (r: Self)
        ensures
            r.script_path@ == path@,
            r.owner_entity_id == self.owner_entity_id,
            r.sector_id == self.sector_id,
            r.tick == self.tick,
    {
        ScriptExecutionContext { script_path: owned(path), ..self }
    }

    /// Set the owner entity.
    pub fn with_owner_entity(self, entity_id: u128) -> (r: Self)
        ensures
            r.owner_entity_id == Some(entity_id),
            r.script_path == self.script_path,
            r.sector_id == self.sector_id,
            r.tick == self.tick,
    {
        ScriptExecutionContext { owner_entity_id: Some(entity_id), ..self }
    }

    /// Set the sector.
    pub fn with_sector(self, sector_id: u128) -> (r: Self)
        ensures
            r.sector_id == Some(sector_id),
            r.script_path == self.script_path,
            r.owner_entity_id == self.owner_entity_id,
            r.tick == self.tick,
    {
        ScriptExecutionContext { sector_id: Some(sector_id), ..self }
    }

    /// Set the current tick.
    pub fn with_tick(self, tick: u64) -> (r: Self)
        ensures
            r.tick == tick,
            r.script_path == self.script_path,
            r.owner_entity_id == self.owner_entity_id,
            r.sector_id == self.sector_id,
    {
        ScriptExecutionContext { tick, ..self }
    }
}

/// Where the context of the running script lives (one per thread).
pub struct ExecutionSlot {
    current: Option<ScriptExecutionContext>,
}

impl ExecutionSlot {
    /// The context of the running script, if one is running.
    pub closed spec fn view(&self) -> Option<ScriptExecutionContext> {
        self.current
    }

    /// A slot with no script running.
    pub fn new() -> (r: Self)
        ensures
            r@ is None,
    {
        ExecutionSlot { current: None }
    }
}

/// Proof that a script was entered; ending it clears the slot.
pub struct ExecutionGuard {
    _private: (),
}

impl ExecutionGuard {
    /// Enter script execution with the given context. Fails, changing nothing, when a script
    /// is already running. On success the error log attributes errors to the context's
    /// script and tick.
    pub fn enter(slot: &mut ExecutionSlot, log: &mut ErrorLog, context: ScriptExecutionContext) -> (r: Result<ExecutionGuard, ExecutionError>)
        requires
            old(log).wf(),
        ensures
            final(log).wf(),
            old(slot)@ is Some ==> r == Err::<ExecutionGuard, ExecutionError>(ExecutionError::ReentrantExecution)
                && final(slot)@ == old(slot)@ && *final(log) == *old(log),
            old(slot)@ is None ==> r is Ok && final(slot)@ == Some(context)
                && final(log).script()@ == context.script_path@
                && final(log).tick() == context.tick
                && final(log).errors() == old(log).errors(),
    {
        if slot.current.is_some() {
            return Err(ExecutionError::ReentrantExecution);
        }
        set_current_script(log, context.script_path.as_str());
        set_current_tick(log, context.tick);
        slot.current = Some(context);
        Ok(ExecutionGuard { _private: () })
    }

    /// Leave script execution: the slot is emptied and the error log's current script
    /// cleared. Gives back the context that was running, if any.
    pub fn exit(self, slot: &mut ExecutionSlot, log: &mut ErrorLog) -> (r: Option<ScriptExecutionContext>)
        requires
            old(log).wf(),
        ensures
            final(log).wf(),
            r == old(slot)@,
            final(slot)@ is None,
            old(slot)@ is Some ==> final(log).script()@.len() == 0 && final(log).errors() == old(log).errors()
                && final(log).tick() == old(log).tick(),
            old(slot)@ is None ==> *final(log) == *old(log),
    {
        let taken = slot.current.take();
        if taken.is_some() {
            clear_current_script(log);
        }
        taken
    }
}

/// Whether a script is running.
pub fn is_executing(slot: &ExecutionSlot) -> (r: bool)
    ensures
        r == slot@ is Some,
{
    slot.current.is_some()
}

/// The path of the running script.
pub fn current_script_path(slot: &ExecutionSlot) -> (r: Option<String>)
    ensures
        match slot@ {
            Some(c) => r == Some(c.script_path),
            None => r is None,
        },
{
    match &slot.current {
        Some(c) => Some(c.script_path.clone()),
        None => None,
    }
}

/// The entity the running script belongs to.
pub fn current_owner_entity(slot: &ExecutionSlot) -> (r: Option<u128>)
    ensures
        match slot@ {
            Some(c) => r == c.owner_entity_id,
            None => r is None,
        },
{
    match &slot.current {
        Some(c) => c.owner_entity_id,
        None => None,
    }
}

/// The sector of the running script.
pub fn current_sector(slot: &ExecutionSlot) -> (r: Option<u128>)
    ensures
        match slot@ {
            Some(c) => r == c.sector_id,
            None => r is None,
        },
{
    match &slot.current {
        Some(c) => c.sector_id,
        None => None,
    }
}

/// The tick of the running script, 0 when none runs.
pub fn current_tick(slot: &ExecutionSlot) -> (r: u64)
    ensures
        match slot@ {
            Some(c) => r == c.tick,
            None => r == 0,
        },
{
    match &slot.current {
        Some(c) => c.tick,
        None => 0,
    }
}

/// Apply `f` to the running script's context; `None` when no script runs.
pub fn with_context<T, F: FnOnce(&ScriptExecutionContext) -> T>(slot: &ExecutionSlot, f: F) -> (r: Option<T>)
    requires
        slot@ matches Some(c) ==> f.requires((&c,)),
    ensures
        slot@ is None ==> r is None,
        slot@ matches Some(c) ==> (r matches Some(v) && f.ensures((&c,), v)),
{
    match &slot.current {
        Some(c) => Some(f(c)),
        None => None,
    }
}

} // verus!
