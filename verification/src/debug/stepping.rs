//! What the debugger decides while a script runs: whether a debugger event pauses the
//! script, what a command from the client does once paused, which breakpoints the script
//! engine is given, and how values are shown.

use vstd::prelude::*;
use crate::debug::types::{enabled_breakpoints_in, Breakpoint, DebugCommand, EntityContext, PauseReason, PausedState, StackFrame, StepMode, Variable, script_breakpoints};
use crate::text::{owned, append_str, push_char, u64_to_decimal, decimal};

verus! {

/// An event the script engine's debugger reports.
#[derive(Debug, Clone)]
pub enum DebugEvent {
    /// Script execution starts.
    Start,
    /// A step is about to run.
    Step,
    /// The breakpoint with this index was reached.
    BreakPoint(usize),
    /// A function returned a value.
    FunctionExitWithValue,
    /// A function failed with this error.
    FunctionExitWithError(String),
    /// Script execution ends.
    End,
}

/// The stepping state of one debugged run.
#[derive(Debug, Clone, Copy, PartialEq, Eq)]
pub struct StepState {
    /// Current step mode
    pub step_mode: Option<StepMode>,
    /// Call depth when the step was asked for (for step-over and step-out)
    pub step_depth: usize,
}

/// What to do about a debugger event.
#[derive(Debug, Clone)]
pub enum EventDecision {
    /// Go on running.
    Continue,
    /// Pause, for this reason, and wait for a command.
    Pause(PauseReason),
}

/// Whether a pending step in `mode` ends at call level `level`: a step into ends at once, a
/// step over when back at the depth it started from or above, a step out above it.
pub open spec fn step_ends(mode: StepMode, level: usize, depth: usize) -> bool {
    match mode {
        StepMode::StepInto => true,
        StepMode::StepOver => level <= depth,
        StepMode::StepOut => level < depth,
    }
}

/// The identifier of the breakpoint at `index`, or the nil identifier when there is none.
pub open spec fn breakpoint_id_at(bps: Seq<Breakpoint>, index: usize) -> u128 {
    if index < bps.len() { bps[index as int].id } else { 0 }
}

/// The decision for `event` at call level `level` in state `s`, and the state after it: a
/// step that ends pauses (and is cleared), a breakpoint pauses, a step out ends when a
/// function returns above its depth, a failing function pauses with its error.
pub open spec fn event_outcome(s: StepState, level: usize, event: DebugEvent, bps: Seq<Breakpoint>) -> (StepState, Option<PauseReason>) {
    match event {
        DebugEvent::Step => match s.step_mode {
            Some(m) => if step_ends(m, level, s.step_depth) {
                (StepState { step_mode: None, ..s }, Some(PauseReason::Step))
            } else {
                (s, None)
            },
            None => (s, None),
        },
        DebugEvent::BreakPoint(i) => (s, Some(PauseReason::Breakpoint { breakpoint_id: breakpoint_id_at(bps, i) })),
        DebugEvent::FunctionExitWithValue => if s.step_mode == Some(StepMode::StepOut) && level < s.step_depth {
            (StepState { step_mode: None, ..s }, Some(PauseReason::Step))
        } else {
            (s, None)
        },
        DebugEvent::FunctionExitWithError(e) => (s, Some(PauseReason::Exception { message: e })),
        _ => (s, None),
    }
}

/// Decide what a debugger event does (see `event_outcome`).
pub fn decide_on_event(state: &mut StepState, call_level: usize, event: DebugEvent, breakpoints: &Vec<Breakpoint>) -> (r: EventDecision)
    ensures
        *final(state) == event_outcome(*old(state), call_level, event, breakpoints@).0,
        match event_outcome(*old(state), call_level, event, breakpoints@).1 {
            Some(reason) => r == EventDecision::Pause(reason),
            None => r == EventDecision::Continue,
        },
{
    match event {
        DebugEvent::Step => {
            if let Some(mode) = state.step_mode {
                let ends = match mode {
                    StepMode::StepInto => true,
                    StepMode::StepOver => call_level <= state.step_depth,
                    StepMode::StepOut => call_level < state.step_depth,
                };
                if ends {
                    state.step_mode = None;
                    return EventDecision::Pause(PauseReason::Step);
                }
            }
            EventDecision::Continue
        },
        DebugEvent::BreakPoint(i) => {
            let id = if i < breakpoints.len() { breakpoints[i].id } else { 0 };
            EventDecision::Pause(PauseReason::Breakpoint { breakpoint_id: id })
        },
        DebugEvent::FunctionExitWithValue => {
            if state.step_mode == Some(StepMode::StepOut) && call_level < state.step_depth {
                state.step_mode = None;
                EventDecision::Pause(PauseReason::Step)
            } else {
                EventDecision::Continue
            }
        },
        DebugEvent::FunctionExitWithError(e) => EventDecision::Pause(PauseReason::Exception { message: e }),
        DebugEvent::Start => EventDecision::Continue,
        DebugEvent::End => EventDecision::Continue,
    }
}

/// How the script engine resumes.
#[derive(Debug, Clone, Copy, PartialEq, Eq)]
pub enum ResumeCommand {
    /// Run on.
    Continue,
    /// Stop at the next step.
    StepInto,
    /// Stop at the next step at this level or above.
    StepOver,
}

/// What a command received while paused does.
#[derive(Debug, Clone, Copy, PartialEq, Eq)]
pub enum CommandOutcome {
    /// Resume the script.
    Resume(ResumeCommand),
    /// Stay paused and wait for the next command.
    Wait,
    /// The session ended: stop the script with an error.
    Terminated,
}

/// The outcome of `command` received while paused with a call stack `depth` deep, and the
/// stepping state after it. Step over and step out remember the depth; step out resumes
/// running and pauses later, when a function returns above it. A pause or an evaluation
/// request keeps waiting; no command (the session is gone) terminates.
pub open spec fn command_outcome(s: StepState, command: Option<DebugCommand>, depth: usize) -> (StepState, CommandOutcome) {
    match command {
        Some(DebugCommand::Continue) => (s, CommandOutcome::Resume(ResumeCommand::Continue)),
        Some(DebugCommand::StepInto) => (StepState { step_mode: Some(StepMode::StepInto), ..s }, CommandOutcome::Resume(ResumeCommand::StepInto)),
        Some(DebugCommand::StepOver) => (StepState { step_mode: Some(StepMode::StepOver), step_depth: depth }, CommandOutcome::Resume(ResumeCommand::StepOver)),
        Some(DebugCommand::StepOut) => (StepState { step_mode: Some(StepMode::StepOut), step_depth: depth }, CommandOutcome::Resume(ResumeCommand::Continue)),
        Some(DebugCommand::Pause) => (s, CommandOutcome::Wait),
        Some(DebugCommand::Evaluate { .. }) => (s, CommandOutcome::Wait),
        None => (s, CommandOutcome::Terminated),
    }
}

/// Apply a command received while paused (see `command_outcome`).
pub fn on_command(state: &mut StepState, command: Option<DebugCommand>, call_stack_depth: usize) -> (r: CommandOutcome)
    ensures
        (*final(state), r) == command_outcome(*old(state), command, call_stack_depth),
{
    match command {
        Some(DebugCommand::Continue) => CommandOutcome::Resume(ResumeCommand::Continue),
        Some(DebugCommand::StepInto) => {
            state.step_mode = Some(StepMode::StepInto);
            CommandOutcome::Resume(ResumeCommand::StepInto)
        },
        Some(DebugCommand::StepOver) => {
            state.step_mode = Some(StepMode::StepOver);
            state.step_depth = call_stack_depth;
            CommandOutcome::Resume(ResumeCommand::StepOver)
        },
        Some(DebugCommand::StepOut) => {
            state.step_mode = Some(StepMode::StepOut);
            state.step_depth = call_stack_depth;
            CommandOutcome::Resume(ResumeCommand::Continue)
        },
        Some(DebugCommand::Pause) => CommandOutcome::Wait,
        Some(DebugCommand::Evaluate { .. }) => CommandOutcome::Wait,
        None => CommandOutcome::Terminated,
    }
}

/// The paused state to report: the source the engine names (else the script being run),
/// the position (0 where unknown), the call stack, the entity, the reason and the time.
pub fn paused_state(
    source: Option<&str>,
    script_path: &str,
    line: Option<usize>,
    column: Option<usize>,
    call_stack: Vec<StackFrame>,
    entity_context: Option<EntityContext>,
    reason: PauseReason,
    paused_at_ms: u64,
) -> (r: PausedState)
    ensures
        r.script_path@ == match source { Some(s) => s@, None => script_path@ },
        r.line == match line { Some(l) => l, None => 0 },
        r.column == match column { Some(c) => c, None => 0 },
        r.call_stack == call_stack,
        r.local_variables@.len() == 0,
        r.entity_context == entity_context,
        r.reason == reason,
        r.paused_at_ms == paused_at_ms,
{
    let path = match source {
        Some(s) => owned(s),
        None => owned(script_path),
    };
    PausedState {
        script_path: path,
        line: match line { Some(l) => l, None => 0 },
        column: match column { Some(c) => c, None => 0 },
        call_stack,
        local_variables: Vec::new(),
        entity_context,
        reason,
        paused_at_ms,
    }
}

/// Stack frames for the named functions of the call stack, numbered in order, with no source
/// position.
pub fn stack_frames(function_names: Vec<String>) -> (r: Vec<StackFrame>)
    ensures
        r@.len() == function_names@.len(),
        forall|i: int| 0 <= i < r@.len() ==> {
            &&& #[trigger] r@[i].index == i
            &&& r@[i].function_name == function_names@[i]
            &&& r@[i].source is None
            &&& r@[i].line is None
            &&& r@[i].column is None
        },
{
    let mut r: Vec<StackFrame> = Vec::new();
    let mut i: usize = 0;
    while i < function_names.len()
        invariant
            i <= function_names@.len(),
            r@.len() == i,
            forall|k: int| 0 <= k < i ==> {
                &&& #[trigger] r@[k].index == k
                &&& r@[k].function_name == function_names@[k]
                &&& r@[k].source is None
                &&& r@[k].line is None
                &&& r@[k].column is None
            },
        decreases function_names@.len() - i,
    {
        r.push(StackFrame { index: i, function_name: function_names[i].clone(), source: None, line: None, column: None });
        i = i + 1;
    }
    r
}

/// A breakpoint as the script engine takes it: source, line and column.
#[derive(Debug, Clone)]
pub struct EngineBreakpoint {
    /// Script path
    pub source: String,
    /// Line
    pub line: usize,
    /// Column (1 when the breakpoint has none)
    pub column: usize,
}

/// The breakpoints to give the script engine for `script`: its enabled ones, in order, at
/// their column or column 1.
pub fn engine_breakpoints(breakpoints: &Vec<Breakpoint>, script: &str) -> (r: Vec<EngineBreakpoint>)
    ensures
        r@.len() == script_breakpoints(breakpoints@, script@).len(),
        forall|i: int| 0 <= i < r@.len() ==> {
            let b = script_breakpoints(breakpoints@, script@)[i];
            &&& #[trigger] r@[i].source@ == b.source@
            &&& r@[i].line == b.line
            &&& r@[i].column == match b.column { Some(c) => c, None => 1 }
        },
{
    let selected = enabled_breakpoints_in(breakpoints, script);
    let mut r: Vec<EngineBreakpoint> = Vec::new();
    let mut j: usize = 0;
    while j < selected.len()
        invariant
            selected@ == script_breakpoints(breakpoints@, script@),
            j <= selected@.len(),
            r@.len() == j,
            forall|i: int| 0 <= i < j ==> {
                let b = selected@[i];
                &&& #[trigger] r@[i].source@ == b.source@
                &&& r@[i].line == b.line
                &&& r@[i].column == match b.column { Some(c) => c, None => 1 }
            },
        decreases selected@.len() - j,
    {
        let b = &selected[j];
        let column = match b.column { Some(c) => c, None => 1 };
        r.push(EngineBreakpoint { source: b.source.clone(), line: b.line, column });
        j = j + 1;
    }
    r
}

/// The shape of a script value, as far as showing it goes. A float comes already written
/// with six decimals.
#[derive(Debug, Clone)]
pub enum ValueShape {
    /// The unit value
    Unit,
    /// A boolean
    Bool(bool),
    /// An integer
    Int(i64),
    /// A float, written with six decimals
    Float(String),
    /// A string
    Str(String),
    /// An array of this length
    Array(usize),
    /// A map with this many entries
    MapEntries(usize),
    /// Anything else, as the engine writes it
    Other(String),
}

/// An integer in decimal, with a minus sign when negative.
pub open spec fn int_text(n: int) -> Seq<char> {
    if n < 0 { "-"@ + decimal((-n) as nat) } else { decimal(n as nat) }
}

/// How a value of this shape is shown.
pub open spec fn shown(v: ValueShape) -> Seq<char> {
    match v {
        ValueShape::Unit => "()"@,
        ValueShape::Bool(b) => if b { "true"@ } else { "false"@ },
        ValueShape::Int(i) => int_text(i as int),
        ValueShape::Float(t) => t@,
        ValueShape::Str(s) => "\""@ + s@ + "\""@,
        ValueShape::Array(n) => "Array["@ + decimal(n as nat) + "]"@,
        ValueShape::MapEntries(n) => "Map{"@ + decimal(n as nat) + " entries}"@,
        ValueShape::Other(t) => t@,
    }
}

/// Writes an integer in decimal.
fn i64_text(n: i64) -> (r: String)
    ensures
        r@ == int_text(n as int),
{
    if n < 0 {
        let magnitude: u64 = if n == i64::MIN { 9223372036854775808u64 } else { (-n) as u64 };
        let mut r = owned("-");
        append_str(&mut r, u64_to_decimal(magnitude).as_str());
        r
    } else {
        u64_to_decimal(n as u64)
    }
}

/// How a value is shown.
pub fn show_value(v: &ValueShape) -> (r: String)
    ensures
        r@ == shown(*v),
{
    match v {
        ValueShape::Unit => owned("()"),
        ValueShape::Bool(b) => if *b { owned("true") } else { owned("false") },
        ValueShape::Int(i) => i64_text(*i),
        ValueShape::Float(t) => t.clone(),
        ValueShape::Str(s) => {
            let mut r = owned("\"");
            append_str(&mut r, s.as_str());
            append_str(&mut r, "\"");
            r
        },
        ValueShape::Array(n) => {
            let mut r = owned("Array[");
            append_str(&mut r, u64_to_decimal(*n as u64).as_str());
            append_str(&mut r, "]");
            r
        },
        ValueShape::MapEntries(n) => {
            let mut r = owned("Map{");
            append_str(&mut r, u64_to_decimal(*n as u64).as_str());
            append_str(&mut r, " entries}");
            r
        },
        ValueShape::Other(t) => t.clone(),
    }
}

/// A variable for display: its name, the value shown, its type, whether it can be
/// expanded (an array or a map), and its path.
pub fn dynamic_to_variable(name: &str, type_label: &str, value: &ValueShape, path: &str) -> (r: Variable)
    ensures
        r.name@ == name@,
        r.value@ == shown(*value),
        r.type_label@ == type_label@,
        r.expandable == (value is Array || value is MapEntries),
        r.path@ == path@,
        r.children is None,
{
    let expandable = match value {
        ValueShape::Array(_) => true,
        ValueShape::MapEntries(_) => true,
        _ => false,
    };
    Variable {
        name: owned(name),
        value: show_value(value),
        type_label: owned(type_label),
        expandable,
        path: owned(path),
        children: None,
    }
}

/// The name of the array element at `i`: its index in brackets.
pub open spec fn element_name(i: nat) -> Seq<char> {
    "["@ + decimal(i) + "]"@
}

/// The children of an array variable at `parent_path`: each element named by its index in
/// brackets, its path the parent's followed by that name. `elements` holds each element's
/// type and shape.
pub fn expand_array(elements: &Vec<(String, ValueShape)>, parent_path: &str) -> (r: Vec<Variable>)
    ensures
        r@.len() == elements@.len(),
        forall|i: int| 0 <= i < r@.len() ==> {
            &&& #[trigger] r@[i].name@ == element_name(i as nat)
            &&& r@[i].path@ == parent_path@ + element_name(i as nat)
            &&& r@[i].value@ == shown(elements@[i].1)
            &&& r@[i].type_label@ == elements@[i].0@
            &&& r@[i].expandable == (elements@[i].1 is Array || elements@[i].1 is MapEntries)
        },
{
    let mut r: Vec<Variable> = Vec::new();
    let mut i: usize = 0;
    while i < elements.len()
        invariant
            i <= elements@.len(),
            r@.len() == i,
            forall|k: int| 0 <= k < i ==> {
                &&& #[trigger] r@[k].name@ == element_name(k as nat)
                &&& r@[k].path@ == parent_path@ + element_name(k as nat)
                &&& r@[k].value@ == shown(elements@[k].1)
                &&& r@[k].type_label@ == elements@[k].0@
                &&& r@[k].expandable == (elements@[k].1 is Array || elements@[k].1 is MapEntries)
            },
        decreases elements@.len() - i,
    {
        let mut name = owned("[");
        append_str(&mut name, u64_to_decimal(i as u64).as_str());
        append_str(&mut name, "]");
        let mut path = owned(parent_path);
        append_str(&mut path, name.as_str());
        assert(path@ =~= parent_path@ + element_name(i as nat));
        let e = &elements[i];
        r.push(dynamic_to_variable(name.as_str(), e.0.as_str(), &e.1, path.as_str()));
        i = i + 1;
    }
    r
}

/// The children of a map variable at `parent_path`: each entry named by its key, its path
/// the parent's, a dot and the key. `entries` holds each entry's key, type and shape.
pub fn expand_map(entries: &Vec<(String, String, ValueShape)>, parent_path: &str) -> (r: Vec<Variable>)
    ensures
        r@.len() == entries@.len(),
        forall|i: int| 0 <= i < r@.len() ==> {
            &&& #[trigger] r@[i].name@ == entries@[i].0@
            &&& r@[i].path@ == parent_path@ + "."@ + entries@[i].0@
            &&& r@[i].value@ == shown(entries@[i].2)
            &&& r@[i].type_label@ == entries@[i].1@
            &&& r@[i].expandable == (entries@[i].2 is Array || entries@[i].2 is MapEntries)
        },
{
    let mut r: Vec<Variable> = Vec::new();
    let mut i: usize = 0;
    while i < entries.len()
        invariant
            i <= entries@.len(),
            r@.len() == i,
            forall|k: int| 0 <= k < i ==> {
                &&& #[trigger] r@[k].name@ == entries@[k].0@
                &&& r@[k].path@ == parent_path@ + "."@ + entries@[k].0@
                &&& r@[k].value@ == shown(entries@[k].2)
                &&& r@[k].type_label@ == entries@[k].1@
                &&& r@[k].expandable == (entries@[k].2 is Array || entries@[k].2 is MapEntries)
            },
        decreases entries@.len() - i,
    {
        let e = &entries[i];
        let mut path = owned(parent_path);
        append_str(&mut path, ".");
        append_str(&mut path, e.0.as_str());
        r.push(dynamic_to_variable(e.0.as_str(), e.1.as_str(), &e.2, path.as_str()));
        i = i + 1;
    }
    r
}

/// After a step-into command, the next step pauses, at whatever call level it runs.
pub proof fn law_step_into_pauses_next_step(s: StepState, depth: usize, level: usize, bps: Seq<Breakpoint>)
    ensures
        event_outcome(command_outcome(s, Some(DebugCommand::StepInto), depth).0, level, DebugEvent::Step, bps).1 == Some(PauseReason::Step),
{
}

/// After a step-over command given `depth` deep, a step pauses exactly when it runs at that
/// depth or above; the pause clears the step, so the steps after it run on.
pub proof fn law_step_over_pauses_at_depth(s: StepState, depth: usize, level: usize, later: usize, bps: Seq<Breakpoint>)
    ensures
        ({
            let s1 = command_outcome(s, Some(DebugCommand::StepOver), depth).0;
            let (s2, pause) = event_outcome(s1, level, DebugEvent::Step, bps);
            &&& (pause == Some(PauseReason::Step)) == (level <= depth)
            &&& pause is Some ==> event_outcome(s2, later, DebugEvent::Step, bps).1 is None
        }),
{
}

/// After a step-out command given `depth` deep, steps run on; a function that returns above
/// that depth pauses.
pub proof fn law_step_out_pauses_on_return(s: StepState, depth: usize, level: usize, step_level: usize, bps: Seq<Breakpoint>)
    requires
        level < depth,
        step_level >= depth,
    ensures
        ({
            let s1 = command_outcome(s, Some(DebugCommand::StepOut), depth).0;
            &&& event_outcome(s1, step_level, DebugEvent::Step, bps).1 is None
            &&& event_outcome(s1, level, DebugEvent::FunctionExitWithValue, bps).1 == Some(PauseReason::Step)
        }),
{
}

} // verus!
