//! Dispatching client actions to the script handlers registered for them: which handler,
//! whether its requirements hold, what calling it needs, and how its return value reads.

use vstd::prelude::*;
use crate::actions::registry::{ActionHandler, ActionRegistry, ActionRequirement};
use crate::context::ScriptExecutionContext;
use crate::schema::{debug_string_list, format_debug_list};
use crate::state::{AccessPermissions, trusted_permissions};
use crate::text::{owned, append_str, str_eq};

verus! {

/// Context passed to action handlers. `P` is the type of the action's parameters.
#[derive(Debug)]
pub struct ActionContext<P> {
    /// The player executing this action
    pub player_id: u128,
    /// The player's ship
    pub ship_id: u128,
    /// The sector the player is in
    pub sector_id: u128,
    /// The action being executed
    pub action: String,
    /// Parameters for the action (from client)
    pub params: P,
}

/// Result from dispatching an action. `J` is the type of response data, `M` that of the
/// state mutations the handler queued.
#[derive(Debug)]
pub struct ActionResult<J, M> {
    /// Whether the action succeeded
    pub success: bool,
    /// Error message if failed
    pub error: Option<String>,
    /// Optional response data from the handler
    pub data: Option<J>,
    /// State mutations collected from the handler
    pub mutations: Vec<M>,
}

impl<J, M> ActionResult<J, M> {
    /// A success.
    pub fn success() -> (r: Self)
        ensures
            r.success,
            r.error is None,
            r.data is None,
            r.mutations@.len() == 0,
    {
        ActionResult { success: true, error: None, data: None, mutations: Vec::new() }
    }

    /// A success with data.
    pub fn success_with_data(data: J) -> (r: Self)
        ensures
            r.success,
            r.error is None,
            r.data == Some(data),
            r.mutations@.len() == 0,
    {
        ActionResult { success: true, error: None, data: Some(data), mutations: Vec::new() }
    }

    /// A failure with a message.
    pub fn error(message: &str) -> (r: Self)
        ensures
            !r.success,
            r.error matches Some(e) && e@ == message@,
            r.data is None,
            r.mutations@.len() == 0,
    {
        ActionResult { success: false, error: Some(owned(message)), data: None, mutations: Vec::new() }
    }

    /// The result with these mutations.
    pub fn with_mutations(self, mutations: Vec<M>) -> (r: Self)
        ensures
            r.success == self.success,
            r.error == self.error,
            r.data == self.data,
            r.mutations == mutations,
    {
        ActionResult { mutations, ..self }
    }
}

/// What a handler returned, as far as reading it goes.
#[derive(Debug)]
pub enum ReturnValue<J> {
    /// Nothing
    Unit,
    /// A boolean
    Bool(bool),
    /// A map, with its `success` entry if it is a boolean, its `error` entry if it is a
    /// string, and its `data` entry
    Table { success: Option<bool>, error: Option<String>, data: Option<J> },
    /// Anything else
    Other,
}

/// The success, error and data an action handler's return value gives: nothing or `true` is
/// a success, `false` a failure ("Action failed"); a map gives its `success` (true when
/// missing), its `error` and its `data`; anything else is a success.
pub open spec fn reads_as<J>(value: ReturnValue<J>, success: bool, error: Option<String>, data: Option<J>) -> bool {
    match value {
        ReturnValue::Unit => success && error is None && data is None,
        ReturnValue::Bool(b) => if b {
            success && error is None && data is None
        } else {
            !success && (error matches Some(e) && e@ == "Action failed"@) && data is None
        },
        ReturnValue::Table { success: s, error: e, data: d } => {
            &&& success == match s { Some(x) => x, None => true }
            &&& error == e
            &&& data == d
        },
        ReturnValue::Other => success && error is None && data is None,
    }
}

/// The result an action handler's return value gives (see `reads_as`), with no mutations.
pub open spec fn action_result_of<J, M>(value: ReturnValue<J>, r: ActionResult<J, M>) -> bool {
    &&& r.mutations@.len() == 0
    &&& reads_as(value, r.success, r.error, r.data)
}

/// The result of running a handler of the script at `path`, as `out` reports it: a missing
/// script or a script that could not be entered is a failure that says so, an error of the
/// handler a failure with its text, and a return value reads as `reads_as` says, with the
/// mutations the handler queued.
pub open spec fn run_result_of<J, M>(out: ActionRun<J, M>, path: Seq<char>, r: ActionResult<J, M>) -> bool {
    match out {
        ActionRun::ScriptMissing => !r.success && (r.error matches Some(e) && e@ == "Script not found: "@ + path)
            && r.data is None && r.mutations@.len() == 0,
        ActionRun::NotEntered(e) => !r.success && (r.error matches Some(m) && m@ == "Execution context error: "@ + e@)
            && r.data is None && r.mutations@.len() == 0,
        ActionRun::Ran(Err(e)) => !r.success && r.error == Some(e) && r.data is None && r.mutations@.len() == 0,
        ActionRun::Ran(Ok((value, mutations))) => reads_as(value, r.success, r.error, r.data) && r.mutations == mutations,
    }
}

/// Parse the return value of an action handler (see `action_result_of`).
pub fn parse_action_result<J, M>(value: ReturnValue<J>) -> (r: ActionResult<J, M>)
    ensures
        action_result_of(value, r),
{
    match value {
        ReturnValue::Unit => ActionResult::success(),
        ReturnValue::Bool(b) => if b { ActionResult::success() } else { ActionResult::error("Action failed") },
        ReturnValue::Table { success, error, data } => ActionResult {
            success: match success { Some(s) => s, None => true },
            error,
            data,
            mutations: Vec::new(),
        },
        ReturnValue::Other => ActionResult::success(),
    }
}

/// The first requirement, among `reqs`, that a ship in `status` (unknown when `None`) fails,
/// with its message; `None` when all hold. Requirements on the ship's status hold when the
/// status is unknown; the others are checked elsewhere (by the session or the script).
pub open spec fn first_failure(reqs: Seq<ActionRequirement>, status: Option<Seq<char>>) -> Option<Seq<char>>
    decreases reqs.len(),
{
    if reqs.len() == 0 {
        None
    } else {
        match requirement_failure(reqs[0], status) {
            Some(m) => Some(m),
            None => first_failure(reqs.drop_first(), status),
        }
    }
}

/// The message of a requirement that a ship in `status` fails, if it does.
pub open spec fn requirement_failure(req: ActionRequirement, status: Option<Seq<char>>) -> Option<Seq<char>> {
    match status {
        None => None,
        Some(s) => match req {
            ActionRequirement::ShipStatus(allowed) =>
                if allowed@.map_values(|a: String| a@).contains(s) {
                    None
                } else {
                    Some("Action requires ship status "@ + debug_string_list(allowed@.map_values(|a: String| a@)) + ", but ship is '"@ + s + "'"@)
                },
            ActionRequirement::MustBeDocked => if s != "docked"@ { Some("Must be docked to perform this action"@) } else { None },
            ActionRequirement::MustBeUndocked => if s == "docked"@ { Some("Cannot perform this action while docked"@) } else { None },
            ActionRequirement::NotInCombat => if s == "in_combat"@ { Some("Cannot perform this action during combat"@) } else { None },
            _ => None,
        },
    }
}

/// A ship whose status is known passes the requirements exactly when it passes each: it must
/// be docked for `MustBeDocked`, not docked for `MustBeUndocked`, not in combat for
/// `NotInCombat`, and in one of the listed statuses for `ShipStatus`; the other requirements
/// are not checked here. A ship whose status is unknown passes them all.
pub proof fn law_requirements_pass_exactly_when_each_holds(reqs: Seq<ActionRequirement>, s: Seq<char>)
    ensures
        first_failure(reqs, Some(s)) is None <==> forall|j: int| 0 <= j < reqs.len() ==> {
            &&& (#[trigger] reqs[j] is MustBeDocked ==> s == "docked"@)
            &&& (reqs[j] is MustBeUndocked ==> s != "docked"@)
            &&& (reqs[j] is NotInCombat ==> s != "in_combat"@)
            &&& (reqs[j] matches ActionRequirement::ShipStatus(a) ==> a@.map_values(|x: String| x@).contains(s))
        },
        first_failure(reqs, None) is None,
    decreases reqs.len(),
{
    if reqs.len() > 0 {
        law_requirements_pass_exactly_when_each_holds(reqs.drop_first(), s);
        assert forall|j: int| 0 <= j < reqs.len() - 1 implies #[trigger] reqs.drop_first()[j] == reqs[j + 1] by {}
        let holds = |r: ActionRequirement| {
            &&& (r is MustBeDocked ==> s == "docked"@)
            &&& (r is MustBeUndocked ==> s != "docked"@)
            &&& (r is NotInCombat ==> s != "in_combat"@)
            &&& (r matches ActionRequirement::ShipStatus(a) ==> a@.map_values(|x: String| x@).contains(s))
        };
        assert(requirement_failure(reqs[0], Some(s)) is None <==> holds(reqs[0]));
        if first_failure(reqs, Some(s)) is None {
            assert forall|j: int| 0 <= j < reqs.len() implies holds(#[trigger] reqs[j]) by {
                if j > 0 {
                    assert(reqs.drop_first()[j - 1] == reqs[j]);
                }
            }
        } else {
            if requirement_failure(reqs[0], Some(s)) is None {
                let j = choose|j: int| 0 <= j < reqs.drop_first().len() && !holds(#[trigger] reqs.drop_first()[j]);
                assert(reqs[j + 1] == reqs.drop_first()[j]);
            }
        }
    }
}

/// Whether `status` is among `allowed`.
fn status_allowed(allowed: &Vec<String>, status: &str) -> (r: bool)
    ensures
        r == allowed@.map_values(|a: String| a@).contains(status@),
{
    let mut i: usize = 0;
    while i < allowed.len()
        invariant
            i <= allowed@.len(),
            forall|j: int| 0 <= j < i ==> allowed@[j]@ != status@,
        decreases allowed@.len() - i,
    {
        if str_eq(allowed[i].as_str(), status) {
            assert(allowed@.map_values(|a: String| a@)[i as int] == status@);
            return true;
        }
        i = i + 1;
    }
    proof {
        let names = allowed@.map_values(|a: String| a@);
        if names.contains(status@) {
            let j = choose|j: int| 0 <= j < names.len() && #[trigger] names[j] == status@;
            assert(allowed@[j]@ == status@);
        }
    }
    false
}

/// Check the requirements of an action for a ship whose status is `ship_status` (unknown
/// when there is no state accessor or no such ship): the first one that fails gives the
/// error.
pub fn validate_requirements(requirements: &Vec<ActionRequirement>, ship_status: Option<&str>) -> (r: Result<(), String>)
    ensures
        match first_failure(requirements@, match ship_status { Some(s) => Some(s@), None => None }) {
            Some(m) => r matches Err(e) && e@ == m,
            None => r is Ok,
        },
{
    let ghost status = match ship_status { Some(s) => Some(s@), None => None::<Seq<char>> };
    assert(requirements@.skip(0) =~= requirements@);
    let mut i: usize = 0;
    while i < requirements.len()
        invariant
            status == match ship_status { Some(s) => Some(s@), None => None::<Seq<char>> },
            i <= requirements@.len(),
            first_failure(requirements@, status) == first_failure(requirements@.skip(i as int), status),
        decreases requirements@.len() - i,
    {
        proof {
            assert(requirements@.skip(i as int)[0] == requirements@[i as int]);
            assert(requirements@.skip(i as int).drop_first() =~= requirements@.skip(i as int + 1));
        }
        if let Some(s) = ship_status {
            match &requirements[i] {
                ActionRequirement::ShipStatus(allowed) => {
                    if !status_allowed(allowed, s) {
                        let mut m = owned("Action requires ship status ");
                        append_str(&mut m, format_debug_list(allowed).as_str());
                        append_str(&mut m, ", but ship is '");
                        append_str(&mut m, s);
                        append_str(&mut m, "'");
                        return Err(m);
                    }
                },
                ActionRequirement::MustBeDocked => {
                    if !str_eq(s, "docked") {
                        return Err(owned("Must be docked to perform this action"));
                    }
                },
                ActionRequirement::MustBeUndocked => {
                    if str_eq(s, "docked") {
                        return Err(owned("Cannot perform this action while docked"));
                    }
                },
                ActionRequirement::NotInCombat => {
                    if str_eq(s, "in_combat") {
                        return Err(owned("Cannot perform this action during combat"));
                    }
                },
                _ => {},
            }
        }
        i = i + 1;
    }
    proof {
        assert(requirements@.skip(i as int).len() == 0);
    }
    Ok(())
}

/// What calling an action handler needs.
pub struct ActionCall {
    /// Script to call into
    pub script_path: String,
    /// Function to call
    pub handler_function: String,
    /// Permissions for the call (player actions are trusted)
    pub permissions: AccessPermissions,
    /// Execution context for the call
    pub context: ScriptExecutionContext,
}

/// How running an action handler went, as the code that ran it reports it.
pub enum ActionRun<J, M> {
    /// The handler's script is not loaded.
    ScriptMissing,
    /// The script could not be entered; the error's text.
    NotEntered(String),
    /// The handler ran: what it returned and the mutations it queued, or its error's text.
    Ran(Result<(ReturnValue<J>, Vec<M>), String>),
}

/// Dispatches actions to script handlers.
pub struct ActionDispatcher {
    /// The registered handlers
    pub registry: ActionRegistry,
}

impl ActionDispatcher {
    /// A dispatcher over the given registry.
    pub fn new(registry: ActionRegistry) -> (r: Self)
        ensures
            r.registry == registry,
    {
        ActionDispatcher { registry }
    }

    /// Dispatch an action to its handler: an unknown or disabled action, or a requirement
    /// that fails for the ship in `ship_status`, gives an error; otherwise the handler is run
    /// through `run` with trusted permissions in a context of its script, the player's ship
    /// and sector, and its return value is read (see `parse_action_result`).
    pub fn dispatch<P, J, M, F>(&self, ctx: &ActionContext<P>, ship_status: Option<&str>, run: F) -> (r: ActionResult<J, M>)
        where F: Fn(ActionCall) -> ActionRun<J, M>,
        requires
            self.registry.wf(),
            forall|c: ActionCall| #[trigger] run.requires((c,)),
        ensures
            !self.registry.handlers().contains_key(ctx.action@) ==>
                !r.success && (r.error matches Some(e) && e@ == "Unknown action: "@ + ctx.action@),
            self.registry.handlers().contains_key(ctx.action@) && !self.registry.handlers()[ctx.action@].enabled ==>
                !r.success && (r.error matches Some(e) && e@ == "Action '"@ + ctx.action@ + "' is currently disabled"@),
            self.registry.handlers().contains_key(ctx.action@) && self.registry.handlers()[ctx.action@].enabled ==>
                match first_failure(self.registry.handlers()[ctx.action@].requirements@, match ship_status { Some(s) => Some(s@), None => None }) {
                    Some(m) => !r.success && (r.error matches Some(e) && e@ == m),
                    None => exists|call: ActionCall, out: ActionRun<J, M>|
                        action_call_for(call, self.registry.handlers()[ctx.action@], *ctx)
                        && #[trigger] run.ensures((call,), out)
                        && run_result_of(out, self.registry.handlers()[ctx.action@].script_path@, r),
                },
    {
        let handler = match self.registry.handler(ctx.action.as_str()) {
            Some(h) => h,
            None => {
                let mut m = owned("Unknown action: ");
                append_str(&mut m, ctx.action.as_str());
                return ActionResult { success: false, error: Some(m), data: None, mutations: Vec::new() };
            },
        };
        if !handler.enabled {
            let mut m = owned("Action '");
            append_str(&mut m, ctx.action.as_str());
            append_str(&mut m, "' is currently disabled");
            return ActionResult { success: false, error: Some(m), data: None, mutations: Vec::new() };
        }
        match validate_requirements(&handler.requirements, ship_status) {
            Err(e) => {
                return ActionResult { success: false, error: Some(e), data: None, mutations: Vec::new() };
            },
            Ok(()) => {},
        }
        let call = action_call(handler, ctx);
        match run(call) {
            ActionRun::ScriptMissing => {
                let mut m = owned("Script not found: ");
                append_str(&mut m, handler.script_path.as_str());
                ActionResult { success: false, error: Some(m), data: None, mutations: Vec::new() }
            },
            ActionRun::NotEntered(e) => {
                let mut m = owned("Execution context error: ");
                append_str(&mut m, e.as_str());
                ActionResult { success: false, error: Some(m), data: None, mutations: Vec::new() }
            },
            ActionRun::Ran(Err(e)) => ActionResult { success: false, error: Some(e), data: None, mutations: Vec::new() },
            ActionRun::Ran(Ok((value, mutations))) => parse_action_result(value).with_mutations(mutations),
        }
    }
}

/// `call` is what calling `handler` for `ctx` needs: its script and function, trusted
/// permissions, and a context with its script, the player's ship as owner and the sector.
pub open spec fn action_call_for<P>(call: ActionCall, handler: ActionHandler, ctx: ActionContext<P>) -> bool {
    &&& call.script_path@ == handler.script_path@
    &&& call.handler_function@ == handler.handler_function@
    &&& trusted_permissions(call.permissions)
    &&& call.context.script_path@ == handler.script_path@
    &&& call.context.owner_entity_id == Some(ctx.ship_id)
    &&& call.context.sector_id == Some(ctx.sector_id)
    &&& call.context.tick == 0
}

/// What calling `handler` for `ctx` needs (see `action_call_for`).
pub fn action_call<P>(handler: &ActionHandler, ctx: &ActionContext<P>) -> (r: ActionCall)
    ensures
        action_call_for(r, *handler, *ctx),
{
    let context = ScriptExecutionContext::new()
        .with_script_path(handler.script_path.as_str())
        .with_owner_entity(ctx.ship_id)
        .with_sector(ctx.sector_id);
    ActionCall {
        script_path: handler.script_path.clone(),
        handler_function: handler.handler_function.clone(),
        permissions: AccessPermissions::trusted(),
        context,
    }
}

} // verus!
