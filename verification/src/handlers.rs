//! Handlers in general: a registry mapping handler names to built-in or script handlers,
//! and a dispatcher that looks a handler up and reads what it returned.
//!
//! `B` is the type of built-in handlers, `D` that of handler data, `M` that of the state
//! mutations a handler queues.

use vstd::prelude::*;
use crate::actions::dispatcher::ActionContext;
use crate::actions::registry::{names, without, remove_keys, without_name};
use crate::context::ScriptExecutionContext;
use crate::ids::new_id;
use crate::maps::StrMap;
use crate::text::{owned, append_str};

verus! {

/// What a handler needs to know of its context.
pub trait HandlerContext {
    /// The sector for the state accessor, if any.
    fn sector_id(&self) -> Option<u128> {
        None
    }

    /// The entity the call acts for, for permissions, if any.
    fn owner_entity_id(&self) -> Option<u128> {
        None
    }
}

impl<P> HandlerContext for ActionContext<P> {
    fn sector_id(&self) -> Option<u128> {
        Some(self.sector_id)
    }

    fn owner_entity_id(&self) -> Option<u128> {
        Some(self.ship_id)
    }
}

/// The type of handler implementation.
#[derive(Debug)]
pub enum HandlerType<B> {
    /// Built-in handler.
    Builtin(B),
    /// Script-defined handler.
    Script { script_path: String, function_name: String },
}

/// A registered handler.
#[derive(Debug)]
pub struct Handler<B> {
    /// Unique ID for this handler registration.
    pub id: u128,
    /// Handler name (e.g., "dock", "shield_pierce").
    pub name: String,
    /// The handler implementation.
    pub handler_type: HandlerType<B>,
    /// Whether this handler is currently enabled.
    pub enabled: bool,
}

impl<B> Handler<B> {
    /// An enabled script handler with a fresh identifier.
    pub fn script(name: &str, script_path: &str, function_name: &str) -> (r: Self)
        ensures
            r.name@ == name@,
            r.handler_type matches HandlerType::Script { script_path: p, function_name: f } && p@ == script_path@ && f@ == function_name@,
            r.enabled,
    {
        Handler {
            id: new_id(),
            name: owned(name),
            handler_type: HandlerType::Script { script_path: owned(script_path), function_name: owned(function_name) },
            enabled: true,
        }
    }

    /// An enabled built-in handler with a fresh identifier.
    pub fn builtin(name: &str, handler: B) -> (r: Self)
        ensures
            r.name@ == name@,
            r.handler_type == HandlerType::Builtin(handler),
            r.enabled,
    {
        Handler { id: new_id(), name: owned(name), handler_type: HandlerType::Builtin(handler), enabled: true }
    }
}

/// Result from executing a handler.
#[derive(Debug)]
pub struct HandlerResult<D, M> {
    /// Whether the handler succeeded.
    pub success: bool,
    /// Error message if failed.
    pub error: Option<String>,
    /// Optional response data.
    pub data: Option<D>,
    /// State mutations collected during execution.
    pub mutations: Vec<M>,
}

impl<D, M> HandlerResult<D, M> {
    /// A success.
    pub fn success() -> (r: Self)
        ensures
            r.success && r.error is None && r.data is None && r.mutations@.len() == 0,
    {
        HandlerResult { success: true, error: None, data: None, mutations: Vec::new() }
    }

    /// A success with data.
    pub fn success_with_data(data: D) -> (r: Self)
        ensures
            r.success && r.error is None && r.data == Some(data) && r.mutations@.len() == 0,
    {
        HandlerResult { success: true, error: None, data: Some(data), mutations: Vec::new() }
    }

    /// A failure with a message.
    pub fn error(message: String) -> (r: Self)
        ensures
            !r.success && r.error == Some(message) && r.data is None && r.mutations@.len() == 0,
    {
        HandlerResult { success: false, error: Some(message), data: None, mutations: Vec::new() }
    }

    /// The result with these mutations.
    pub fn with_mutations(self, mutations: Vec<M>) -> (r: Self)
        ensures
            r.success == self.success && r.error == self.error && r.data == self.data && r.mutations == mutations,
    {
        HandlerResult { mutations, ..self }
    }
}

/// What a script handler returned, as far as reading it goes.
#[derive(Debug)]
pub enum HandlerReturn<D> {
    /// Nothing
    Unit,
    /// A boolean
    Bool(bool),
    /// A map, with its `success` entry if it is a boolean, its `error` entry if it is a
    /// string, and its `data` entry
    Table { success: Option<bool>, error: Option<String>, data: Option<D> },
    /// Anything else, kept as the data
    Other(D),
}

/// The success, error and data a script handler's return value gives: nothing or `true` is
/// a success, `false` a failure ("Handler returned false"); a map gives its `success` (true
/// when missing), its `error` and its `data`; anything else is a success with the value as
/// data.
pub open spec fn reads_as<D>(value: HandlerReturn<D>, success: bool, error: Option<String>, data: Option<D>) -> bool {
    match value {
        HandlerReturn::Unit => success && error is None && data is None,
        HandlerReturn::Bool(b) => if b {
            success && error is None && data is None
        } else {
            !success && (error matches Some(e) && e@ == "Handler returned false"@) && data is None
        },
        HandlerReturn::Table { success: s, error: e, data: d } => {
            &&& success == match s { Some(x) => x, None => true }
            &&& error == e
            &&& data == d
        },
        HandlerReturn::Other(v) => success && error is None && data == Some(v),
    }
}

/// The result a script handler's return value gives (see `reads_as`), with no mutations.
pub open spec fn handler_result_of<D, M>(value: HandlerReturn<D>, r: HandlerResult<D, M>) -> bool {
    &&& r.mutations@.len() == 0
    &&& reads_as(value, r.success, r.error, r.data)
}

/// The result of running a handler whose script (for a script handler) is at `path`, as `out`
/// reports it: a built-in handler's result stands, without mutations; a missing script or a
/// script that could not be entered is a failure that says so, an error of the handler a
/// failure with its text, and a return value reads as `reads_as` says, with the mutations the
/// handler queued.
pub open spec fn run_result_of<D, M>(out: HandlerRun<D, M>, path: Seq<char>, r: HandlerResult<D, M>) -> bool {
    match out {
        HandlerRun::Builtin(b) => r.success == b.success && r.error == b.error && r.data == b.data && r.mutations@.len() == 0,
        HandlerRun::ScriptMissing => !r.success && (r.error matches Some(e) && e@ == "Script not found: "@ + path)
            && r.data is None && r.mutations@.len() == 0,
        HandlerRun::NotEntered(e) => !r.success && (r.error matches Some(m) && m@ == "Execution context error: "@ + e@)
            && r.data is None && r.mutations@.len() == 0,
        HandlerRun::Ran(Err(e)) => !r.success && r.error == Some(e) && r.data is None && r.mutations@.len() == 0,
        HandlerRun::Ran(Ok((value, mutations))) => reads_as(value, r.success, r.error, r.data) && r.mutations == mutations,
    }
}

/// The script of a handler: its script's path for a script handler, empty for a built-in one.
pub open spec fn handler_script<B>(h: Handler<B>) -> Seq<char> {
    match h.handler_type {
        HandlerType::Script { script_path, .. } => script_path@,
        HandlerType::Builtin(_) => Seq::empty(),
    }
}

/// `call` is what running handler `h` needs: nothing for a built-in handler; for a script
/// handler its script and function, in a context with that script at tick 0.
pub open spec fn script_call_for<B>(call: Option<ScriptHandlerCall>, h: Handler<B>) -> bool {
    match h.handler_type {
        HandlerType::Builtin(_) => call is None,
        HandlerType::Script { script_path, function_name } => call matches Some(c)
            && c.script_path@ == script_path@ && c.function_name@ == function_name@
            && c.context.script_path@ == script_path@ && c.context.tick == 0,
    }
}

/// Parse the return value of a script handler (see `handler_result_of`).
pub fn parse_handler_result<D, M>(value: HandlerReturn<D>) -> (r: HandlerResult<D, M>)
    ensures
        handler_result_of(value, r),
{
    match value {
        HandlerReturn::Unit => HandlerResult::success(),
        HandlerReturn::Bool(b) => if b { HandlerResult::success() } else { HandlerResult::error(owned("Handler returned false")) },
        HandlerReturn::Table { success, error, data } => HandlerResult {
            success: match success { Some(s) => s, None => true },
            error,
            data,
            mutations: Vec::new(),
        },
        HandlerReturn::Other(v) => HandlerResult::success_with_data(v),
    }
}

/// Generic registry mapping handler names to handlers; it also lists, for each script, the
/// names of the handlers it registered.
pub struct HandlerRegistry<B> {
    handlers: StrMap<Handler<B>>,
    by_script: StrMap<Vec<String>>,
}

impl<B> HandlerRegistry<B> {
    /// The handlers by name.
    pub closed spec fn handlers(&self) -> Map<Seq<char>, Handler<B>> {
        self.handlers@
    }

    /// The handler names in registration order.
    pub closed spec fn name_order(&self) -> Seq<Seq<char>> {
        self.handlers.key_seq()
    }

    /// The names each script registered.
    pub closed spec fn by_script(&self) -> Map<Seq<char>, Seq<Seq<char>>> {
        Map::new(|s: Seq<char>| self.by_script@.contains_key(s), |s: Seq<char>| names(self.by_script@[s]))
    }

    /// The names `script` registered (empty when none).
    pub open spec fn script_names(&self, script: Seq<char>) -> Seq<Seq<char>> {
        if self.by_script().contains_key(script) { self.by_script()[script] } else { Seq::empty() }
    }

    /// The internal maps are well formed.
    pub closed spec fn wf(&self) -> bool {
        self.handlers.wf() && self.by_script.wf()
    }

    /// An empty registry.
    pub fn new() -> (r: Self)
        ensures
            r.wf(),
            r.handlers() == Map::<Seq<char>, Handler<B>>::empty(),
            r.by_script() == Map::<Seq<char>, Seq<Seq<char>>>::empty(),
    {
        let r = HandlerRegistry { handlers: StrMap::new(), by_script: StrMap::new() };
        assert(r.by_script() =~= Map::<Seq<char>, Seq<Seq<char>>>::empty());
        r
    }

    /// Register a handler under its name, replacing (and returning) the handler the name had.
    /// A script handler's name is also listed under its script.
    pub fn register(&mut self, handler: Handler<B>) -> (r: Option<Handler<B>>)
        requires
            old(self).wf(),
        ensures
            final(self).wf(),
            final(self).handlers() == old(self).handlers().insert(handler.name@, handler),
            match handler.handler_type {
                HandlerType::Script { script_path, .. } => final(self).by_script() == old(self).by_script().insert(script_path@,
                    old(self).script_names(script_path@).push(handler.name@)),
                HandlerType::Builtin(_) => final(self).by_script() == old(self).by_script(),
            },
            r matches Some(h) ==> old(self).handlers().contains_key(handler.name@) && h == old(self).handlers()[handler.name@],
            r is None ==> !old(self).handlers().contains_key(handler.name@),
    {
        let name = handler.name.clone();
        match &handler.handler_type {
            HandlerType::Script { script_path, .. } => {
                let path = script_path.clone();
                let mut list = match self.by_script.remove(path.as_str()) {
                    Some(l) => l,
                    None => Vec::new(),
                };
                let ghost before = names(list);
                proof {
                    assert(before == old(self).script_names(path@));
                }
                list.push(name.clone());
                assert(names(list) =~= before.push(name@));
                self.by_script.insert(path, list);
                proof {
                    assert(self.by_script() =~= old(self).by_script().insert(path@, old(self).script_names(path@).push(name@)));
                }
            },
            HandlerType::Builtin(_) => {},
        }
        self.handlers.insert(name, handler)
    }

    /// Remove a handler by name, returning it. A script handler's name is also dropped from
    /// its script's list.
    pub fn unregister(&mut self, name: &str) -> (r: Option<Handler<B>>)
        requires
            old(self).wf(),
        ensures
            final(self).wf(),
            final(self).handlers() == old(self).handlers().remove(name@),
            r matches Some(h) ==> old(self).handlers().contains_key(name@) && h == old(self).handlers()[name@]
                && final(self).by_script() == match h.handler_type {
                    HandlerType::Script { script_path, .. } => if old(self).by_script().contains_key(script_path@) {
                        old(self).by_script().insert(script_path@, without(old(self).by_script()[script_path@], name@))
                    } else {
                        old(self).by_script()
                    },
                    HandlerType::Builtin(_) => old(self).by_script(),
                },
            r is None ==> !old(self).handlers().contains_key(name@) && final(self).by_script() == old(self).by_script(),
    {
        let handler = self.handlers.remove(name);
        match handler {
            Some(h) => {
                match &h.handler_type {
                    HandlerType::Script { script_path, .. } => {
                        match self.by_script.remove(script_path.as_str()) {
                            Some(list) => {
                                let kept = without_name(&list, name);
                                self.by_script.insert(script_path.clone(), kept);
                                proof {
                                    assert(self.by_script() =~= old(self).by_script().insert(script_path@,
                                        without(old(self).by_script()[script_path@], name@)));
                                }
                            },
                            None => {
                                proof { assert(self.by_script() =~= old(self).by_script()); }
                            },
                        }
                    },
                    HandlerType::Builtin(_) => {},
                }
                Some(h)
            },
            None => None,
        }
    }

    /// Remove every handler whose name the script registered, and forget the script.
    pub fn unregister_for_script(&mut self, script_path: &str)
        requires
            old(self).wf(),
        ensures
            final(self).wf(),
            final(self).handlers() == remove_keys(old(self).handlers(), old(self).script_names(script_path@)),
            final(self).by_script() == old(self).by_script().remove(script_path@),
    {
        let listed = match self.by_script.remove(script_path) {
            Some(l) => l,
            None => Vec::new(),
        };
        proof {
            assert(self.by_script() =~= old(self).by_script().remove(script_path@));
            assert(names(listed) =~= old(self).script_names(script_path@));
        }
        let mut i: usize = 0;
        while i < listed.len()
            invariant
                self.wf(),
                i <= listed@.len(),
                self.handlers() == remove_keys(old(self).handlers(), names(listed).subrange(0, i as int)),
                self.by_script() == old(self).by_script().remove(script_path@),
            decreases listed@.len() - i,
        {
            assert(names(listed).subrange(0, i + 1).drop_last() =~= names(listed).subrange(0, i as int));
            self.handlers.remove(listed[i].as_str());
            i = i + 1;
        }
        assert(names(listed).subrange(0, i as int) =~= names(listed));
    }

    /// The handler registered under a name.
    pub fn get(&self, name: &str) -> (r: Option<&Handler<B>>)
        requires
            self.wf(),
        ensures
            r is None <==> !self.handlers().contains_key(name@),
            r matches Some(h) ==> *h == self.handlers()[name@],
    {
        self.handlers.get(name)
    }

    /// Whether a handler is registered under a name.
    pub fn is_registered(&self, name: &str) -> (r: bool)
        requires
            self.wf(),
        ensures
            r == self.handlers().contains_key(name@),
    {
        self.handlers.contains_key(name)
    }

    /// Enable or disable a handler; nothing happens when none has the name.
    pub fn set_enabled(&mut self, name: &str, enabled: bool)
        requires
            old(self).wf(),
        ensures
            final(self).wf(),
            old(self).handlers().contains_key(name@) ==> final(self).handlers() == old(self).handlers().insert(name@,
                Handler { enabled, ..old(self).handlers()[name@] }),
            !old(self).handlers().contains_key(name@) ==> final(self).handlers() == old(self).handlers(),
            final(self).by_script() == old(self).by_script(),
    {
        self.handlers.modify(name, |h: Handler<B>| -> (r: Handler<B>)
            ensures r == (Handler { enabled, ..h }),
            { Handler { enabled, ..h } });
    }

    /// Get count of registered handlers.
    pub fn count(&self) -> (r: usize)
        requires
            self.wf(),
        ensures
            r == self.handlers().len(),
    {
        self.handlers.len()
    }

    /// All registered handler names, in registration order.
    pub fn list_names(&self) -> (r: Vec<String>)
        requires
            self.wf(),
        ensures
            names(r) == self.name_order(),
    {
        self.handlers.keys()
    }
}

impl<B> Default for HandlerRegistry<B> {
    /// An empty registry.
    fn default() -> (r: Self)
        ensures
            r.wf(),
            r.handlers() == Map::<Seq<char>, Handler<B>>::empty(),
    {
        HandlerRegistry::new()
    }
}

/// What calling a script handler needs.
pub struct ScriptHandlerCall {
    /// Script to call into
    pub script_path: String,
    /// Function to call
    pub function_name: String,
    /// Execution context for the call
    pub context: ScriptExecutionContext,
}

/// How running a handler went, as the code that ran it reports it.
pub enum HandlerRun<D, M> {
    /// A built-in handler gave this result.
    Builtin(HandlerResult<D, M>),
    /// The script handler's script is not loaded.
    ScriptMissing,
    /// The script could not be entered; the error's text.
    NotEntered(String),
    /// The script handler ran: what it returned and the mutations it queued, or its error's
    /// text.
    Ran(Result<(HandlerReturn<D>, Vec<M>), String>),
}

/// Generic dispatcher that looks up and executes handlers.
pub struct HandlerDispatcher<B> {
    /// The handler registry.
    pub registry: HandlerRegistry<B>,
}

impl<B> HandlerDispatcher<B> {
    /// A dispatcher over the given registry.
    pub fn new(registry: HandlerRegistry<B>) -> (r: Self)
        ensures
            r.registry == registry,
    {
        HandlerDispatcher { registry }
    }

    /// The registry.
    pub fn registry(&self) -> (r: &HandlerRegistry<B>)
        ensures
            *r == self.registry,
    {
        &self.registry
    }

    /// Dispatch to a handler by name: an unknown or disabled handler gives an error;
    /// otherwise `run` runs it, given the handler and, for a script handler, the call to
    /// make (its script and function, in a context with the context's sector and owner).
    /// A built-in handler's result stands as it is, with no mutations; a script handler's
    /// return value is read (see `parse_handler_result`) and carries its mutations; failing to
    /// run gives an error.
    pub fn dispatch<C: HandlerContext, D, M, F>(&self, name: &str, ctx: &C, run: F) -> (r: HandlerResult<D, M>)
        where F: Fn(&Handler<B>, Option<ScriptHandlerCall>) -> HandlerRun<D, M>,
        requires
            self.registry.wf(),
            forall|h: &Handler<B>, c: Option<ScriptHandlerCall>| #[trigger] run.requires((h, c)),
        ensures
            !self.registry.handlers().contains_key(name@) ==>
                !r.success && (r.error matches Some(e) && e@ == "Unknown handler: "@ + name@),
            self.registry.handlers().contains_key(name@) && !self.registry.handlers()[name@].enabled ==>
                !r.success && (r.error matches Some(e) && e@ == "Handler '"@ + name@ + "' is currently disabled"@),
            self.registry.handlers().contains_key(name@) && self.registry.handlers()[name@].enabled ==>
                exists|call: Option<ScriptHandlerCall>, out: HandlerRun<D, M>|
                    script_call_for(call, self.registry.handlers()[name@])
                    && #[trigger] run.ensures((&self.registry.handlers()[name@], call), out)
                    && run_result_of(out, handler_script(self.registry.handlers()[name@]), r),
    {
        let handler = match self.registry.get(name) {
            Some(h) => h,
            None => {
                let mut m = owned("Unknown handler: ");
                append_str(&mut m, name);
                return HandlerResult::error(m);
            },
        };
        if !handler.enabled {
            let mut m = owned("Handler '");
            append_str(&mut m, name);
            append_str(&mut m, "' is currently disabled");
            return HandlerResult::error(m);
        }
        let call = match &handler.handler_type {
            HandlerType::Script { script_path, function_name } => {
                let mut context = ScriptExecutionContext::new().with_script_path(script_path.as_str());
                if let Some(s) = ctx.sector_id() {
                    context = context.with_sector(s);
                }
                if let Some(e) = ctx.owner_entity_id() {
                    context = context.with_owner_entity(e);
                }
                Some(ScriptHandlerCall { script_path: script_path.clone(), function_name: function_name.clone(), context })
            },
            HandlerType::Builtin(_) => None,
        };
        let script_path = match &handler.handler_type {
            HandlerType::Script { script_path, .. } => script_path.clone(),
            HandlerType::Builtin(_) => String::new(),
        };
        match run(handler, call) {
            HandlerRun::Builtin(result) => result.with_mutations(Vec::new()),
            HandlerRun::ScriptMissing => {
                let mut m = owned("Script not found: ");
                append_str(&mut m, script_path.as_str());
                HandlerResult::error(m)
            },
            HandlerRun::NotEntered(e) => {
                let mut m = owned("Execution context error: ");
                append_str(&mut m, e.as_str());
                HandlerResult::error(m)
            },
            HandlerRun::Ran(Err(e)) => HandlerResult::error(e),
            HandlerRun::Ran(Ok((value, mutations))) => parse_handler_result(value).with_mutations(mutations),
        }
    }
}

} // verus!
