//! Entity behaviors: scripts attached to entities (ships, stations) with lifecycle hooks
//! `on_spawn`, `on_update`, `on_event` and `on_destroy`.
//!
//! `D` is the type of a behavior's persistent local data, `T` that of its behavior tree.

use vstd::prelude::*;
use crate::context::ScriptExecutionContext;
use crate::debug::controller::{DebugController, session_ids_where, watching_for};
use crate::debug::types::{DebugTarget, EntityContext};
use crate::ids::{new_id, id_text, id_text_of};
use crate::state::{AccessPermissions, EntityType, npc_permissions};
use crate::text::{owned, append_str, str_contains, seq_contains};

pub mod manager;

verus! {

/// State of a behavior.
#[derive(Debug, Clone, Copy, PartialEq, Eq, Structural)]
pub enum BehaviorState {
    /// Behavior is being initialized (on_spawn not yet called)
    Initializing,
    /// Behavior is active and receiving updates
    Active,
    /// Behavior is temporarily paused
    Paused,
    /// Behavior is being destroyed (on_destroy will be called)
    Destroying,
    /// Behavior has been destroyed and removed
    Destroyed,
}

/// A behavior script attached to an entity.
#[derive(Debug)]
pub struct EntityBehavior<D, T> {
    /// Unique ID for this behavior instance
    pub id: u128,
    /// ID of the entity this behavior is attached to
    pub entity_id: u128,
    /// Type of entity
    pub entity_type: EntityType,
    /// Script file to use
    pub script_path: String,
    /// Current state of the behavior
    pub state: BehaviorState,
    /// Persistent local data for the script
    pub local_data: D,
    /// Sector the entity is in
    pub sector_id: Option<u128>,
    /// Optional behavior tree for AI decision making
    pub behavior_tree: Option<T>,
}

impl<D, T> EntityBehavior<D, T> {
    /// A new behavior, initializing, with a fresh identifier, the given local data, and no
    /// sector or behavior tree.
    pub fn new(entity_id: u128, entity_type: EntityType, script_path: &str, local_data: D) -> (r: Self)
        ensures
            r.entity_id == entity_id,
            r.entity_type == entity_type,
            r.script_path@ == script_path@,
            r.state == BehaviorState::Initializing,
            r.local_data == local_data,
            r.sector_id is None,
            r.behavior_tree is None,
    {
        EntityBehavior {
            id: new_id(),
            entity_id,
            entity_type,
            script_path: owned(script_path),
            state: BehaviorState::Initializing,
            local_data,
            sector_id: None,
            behavior_tree: None,
        }
    }

    /// Set the sector.
    pub fn with_sector(self, sector_id: u128) -> (r: Self)
        ensures
            r == (EntityBehavior { sector_id: Some(sector_id), ..self }),
    {
        EntityBehavior { sector_id: Some(sector_id), ..self }
    }

    /// Set the behavior tree.
    pub fn with_behavior_tree(self, tree: T) -> (r: Self)
        ensures
            r == (EntityBehavior { behavior_tree: Some(tree), ..self }),
    {
        EntityBehavior { behavior_tree: Some(tree), ..self }
    }

    /// Check if behavior is active.
    pub fn is_active(&self) -> (r: bool)
        ensures
            r == (self.state == BehaviorState::Active),
    {
        self.state == BehaviorState::Active
    }

    /// Check if behavior has a behavior tree.
    pub fn has_behavior_tree(&self) -> (r: bool)
        ensures
            r == self.behavior_tree is Some,
    {
        self.behavior_tree.is_some()
    }
}

/// Result from executing a behavior hook.
#[derive(Debug)]
pub struct BehaviorExecResult<D> {
    pub behavior_id: u128,
    pub success: bool,
    pub error: Option<String>,
    pub updated_local_data: Option<D>,
}

impl<D> BehaviorExecResult<D> {
    /// A success with no new local data.
    pub fn success(behavior_id: u128) -> (r: Self)
        ensures
            r == (BehaviorExecResult::<D> { behavior_id, success: true, error: None, updated_local_data: None }),
    {
        BehaviorExecResult { behavior_id, success: true, error: None, updated_local_data: None }
    }

    /// A success with new local data.
    pub fn success_with_data(behavior_id: u128, data: D) -> (r: Self)
        ensures
            r == (BehaviorExecResult::<D> { behavior_id, success: true, error: None, updated_local_data: Some(data) }),
    {
        BehaviorExecResult { behavior_id, success: true, error: None, updated_local_data: Some(data) }
    }

    /// A failure with an error.
    pub fn failure(behavior_id: u128, error: String) -> (r: Self)
        ensures
            r == (BehaviorExecResult::<D> { behavior_id, success: false, error: Some(error), updated_local_data: None }),
    {
        BehaviorExecResult { behavior_id, success: false, error: Some(error), updated_local_data: None }
    }
}

/// What calling a hook of a behavior needs.
pub struct HookCall<D> {
    /// The behavior
    pub behavior_id: u128,
    /// The entity it is attached to
    pub entity_id: u128,
    /// The entity's type
    pub entity_type: EntityType,
    /// The sector for the script context (the nil identifier when the behavior has none)
    pub context_sector_id: u128,
    /// The tick
    pub tick: u64,
    /// A copy of the behavior's local data
    pub local_data: D,
    /// Script to call into
    pub script_path: String,
    /// Hook function to call
    pub hook_name: String,
    /// Permissions for the call
    pub permissions: AccessPermissions,
    /// Execution context for the call
    pub context: ScriptExecutionContext,
    /// The debug session to run under, if one watches the script for this manager's target
    pub debug_session: Option<u128>,
    /// The entity as the debugger shows it
    pub entity_context: EntityContext,
    /// The event the hook is told of (`on_event` gets one), if any
    pub event_data: Option<D>,
}

/// `got` is what a hook call carries of the event `event`: nothing without an event, else a
/// clone of it.
pub open spec fn event_passed<D: Clone>(event: Option<&D>, got: Option<D>) -> bool {
    match event {
        None => got is None,
        Some(e) => got matches Some(g) && cloned(*e, g),
    }
}

/// The entity as the debugger shows it: its type's name, its identifier, a name made of the
/// two, and its sector.
pub open spec fn entity_context_for<D, T>(ctx: EntityContext, b: EntityBehavior<D, T>) -> bool {
    &&& ctx.entity_type@ == entity_type_name(b.entity_type)
    &&& ctx.entity_id == b.entity_id
    &&& ctx.entity_name@ == entity_type_name(b.entity_type) + ":"@ + id_text_of(b.entity_id)
    &&& ctx.sector_id == b.sector_id
}

/// The name scripts see for an entity type.
pub open spec fn entity_type_name(t: EntityType) -> Seq<char> {
    match t {
        EntityType::Ship => "ship"@,
        EntityType::Station => "station"@,
    }
}

/// `call` is what calling `hook` of `b` at `tick` needs: its entity and script, NPC
/// permissions for its entity in its sector (the nil sector when it has none), a context with
/// its script, entity, tick and sector, and the first debug session in `sessions` (those
/// watching its script for the manager's target) when there is one.
pub open spec fn hook_call_for<D, T>(call: HookCall<D>, b: EntityBehavior<D, T>, hook: Seq<char>, tick: u64, sessions: Seq<u128>) -> bool {
    let sector = match b.sector_id { Some(s) => s, None => 0 };
    &&& call.behavior_id == b.id
    &&& call.entity_id == b.entity_id
    &&& call.entity_type == b.entity_type
    &&& call.context_sector_id == sector
    &&& call.tick == tick
    &&& call.script_path@ == b.script_path@
    &&& call.hook_name@ == hook
    &&& npc_permissions(call.permissions, b.entity_id, sector)
    &&& call.context.script_path@ == b.script_path@
    &&& call.context.owner_entity_id == Some(b.entity_id)
    &&& call.context.sector_id == b.sector_id
    &&& call.context.tick == tick
    &&& call.debug_session == (if sessions.len() > 0 { Some(sessions[0]) } else { None::<u128> })
    &&& entity_context_for(call.entity_context, b)
}

/// How a hook call went, as the code that ran it reports it.
pub enum HookOutcome<D> {
    /// The script could not be entered (another one is running); the error's text.
    NotEntered(String),
    /// The hook ran: the local data it returned, if any, or its error's text.
    Ran(Result<Option<D>, String>),
}

/// The result of a hook call: new local data when the hook returned some; a missing hook
/// function counts as success; any other error, or failing to enter the script, is a failure.
pub open spec fn hook_result_of<D>(behavior_id: u128, outcome: HookOutcome<D>) -> BehaviorExecResult<D> {
    match outcome {
        HookOutcome::NotEntered(e) => BehaviorExecResult { behavior_id, success: false, error: Some(e), updated_local_data: None },
        HookOutcome::Ran(Ok(Some(d))) => BehaviorExecResult { behavior_id, success: true, error: None, updated_local_data: Some(d) },
        HookOutcome::Ran(Ok(None)) => BehaviorExecResult { behavior_id, success: true, error: None, updated_local_data: None },
        HookOutcome::Ran(Err(e)) => if seq_contains(e@, "Function not found"@) {
            BehaviorExecResult { behavior_id, success: true, error: None, updated_local_data: None }
        } else {
            BehaviorExecResult { behavior_id, success: false, error: Some(e), updated_local_data: None }
        },
    }
}

/// The result of a hook call (see `hook_result_of`).
pub fn hook_result<D>(behavior_id: u128, outcome: HookOutcome<D>) -> (r: BehaviorExecResult<D>)
    ensures
        r == hook_result_of(behavior_id, outcome),
{
    match outcome {
        HookOutcome::NotEntered(e) => BehaviorExecResult::failure(behavior_id, e),
        HookOutcome::Ran(Ok(Some(d))) => BehaviorExecResult::success_with_data(behavior_id, d),
        HookOutcome::Ran(Ok(None)) => BehaviorExecResult::success(behavior_id),
        HookOutcome::Ran(Err(e)) => {
            if str_contains(e.as_str(), "Function not found") {
                BehaviorExecResult::success(behavior_id)
            } else {
                BehaviorExecResult::failure(behavior_id, e)
            }
        },
    }
}

/// What calling `hook_name` of `behavior` at `tick` needs (see `hook_call_for`). `debug`
/// holds the debug controller and this manager's target when debugging is set up.
pub fn hook_call<D: Clone, T>(
    behavior: &EntityBehavior<D, T>,
    hook_name: &str,
    event: Option<&D>,
    tick: u64,
    debug: Option<(&DebugController, DebugTarget)>,
) -> (r: HookCall<D>)
    requires
        debug matches Some((c, _)) ==> c.inv(),
    ensures
        hook_call_for(r, *behavior, hook_name@, tick, match debug {
            Some((c, t)) => session_ids_where(c.session_order(), c.sessions_view(), watching_for(behavior.script_path@, t)),
            None => Seq::empty(),
        }),
        cloned(behavior.local_data, r.local_data),
        event_passed(event, r.event_data),
{
    let sector = match behavior.sector_id { Some(s) => s, None => 0 };
    let permissions = AccessPermissions::npc_behavior(behavior.entity_id, sector);
    let mut context = ScriptExecutionContext::new()
        .with_script_path(behavior.script_path.as_str())
        .with_owner_entity(behavior.entity_id)
        .with_tick(tick);
    if let Some(s) = behavior.sector_id {
        context = context.with_sector(s);
    }
    let debug_session = match debug {
        Some((controller, target)) => {
            let sessions = controller.sessions_for_script_with_target(behavior.script_path.as_str(), &target);
            if sessions.len() > 0 { Some(sessions[0]) } else { None }
        },
        None => None,
    };
    let kind_name = behavior.entity_type.as_str();
    let mut entity_name = owned(kind_name);
    append_str(&mut entity_name, ":");
    append_str(&mut entity_name, id_text(behavior.entity_id).as_str());
    let entity_context = EntityContext {
        entity_type: owned(kind_name),
        entity_id: behavior.entity_id,
        entity_name,
        sector_id: behavior.sector_id,
    };
    HookCall {
        behavior_id: behavior.id,
        entity_id: behavior.entity_id,
        entity_type: behavior.entity_type,
        context_sector_id: sector,
        tick,
        local_data: behavior.local_data.clone(),
        script_path: behavior.script_path.clone(),
        hook_name: owned(hook_name),
        permissions,
        context,
        debug_session,
        entity_context,
        event_data: match event {
            Some(e) => Some(e.clone()),
            None => None,
        },
    }
}

} // verus!
