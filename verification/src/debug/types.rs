//! Debug types: breakpoints, sessions, stack frames and variables.

use vstd::prelude::*;
use crate::ids::new_id;
use crate::text::{owned, str_eq};

verus! {

/// A source-line breakpoint.
#[derive(Debug)]
pub struct Breakpoint {
    /// Unique identifier.
    pub id: u128,
    /// Script path (relative to the scripts root).
    pub source: String,
    /// Line number (1-based).
    pub line: usize,
    /// Optional column (1-based).
    pub column: Option<usize>,
    /// Optional condition expression.
    pub condition: Option<String>,
    /// Number of times this breakpoint has been hit.
    pub hit_count: u64,
    /// Whether the breakpoint is enabled.
    pub enabled: bool,
}

fn clone_opt_string(s: &Option<String>) -> (r: Option<String>)
    ensures
        r == *s,
{
    match s {
        Some(v) => Some(v.clone()),
        None => None,
    }
}

impl Clone for Breakpoint {
    fn clone(&self) -> (r: Self)
        ensures
            r == *self,
    {
        Breakpoint {
            id: self.id,
            source: self.source.clone(),
            line: self.line,
            column: self.column,
            condition: clone_opt_string(&self.condition),
            hit_count: self.hit_count,
            enabled: self.enabled,
        }
    }
}

impl Breakpoint {
    /// An enabled breakpoint at a line, with a fresh identifier and no condition.
    pub fn at_line(source: &str, line: usize) -> (r: Self)
        ensures
            r.source@ == source@,
            r.line == line,
            r.column is None,
            r.condition is None,
            r.hit_count == 0,
            r.enabled,
    {
        Breakpoint {
            id: new_id(),
            source: owned(source),
            line,
            column: None,
            condition: None,
            hit_count: 0,
            enabled: true,
        }
    }

    /// An enabled conditional breakpoint at a line, with a fresh identifier.
    pub fn at_line_with_condition(source: &str, line: usize, condition: &str) -> (r: Self)
        ensures
            r.source@ == source@,
            r.line == line,
            r.column is None,
            r.condition matches Some(c) && c@ == condition@,
            r.hit_count == 0,
            r.enabled,
    {
        Breakpoint {
            id: new_id(),
            source: owned(source),
            line,
            column: None,
            condition: Some(owned(condition)),
            hit_count: 0,
            enabled: true,
        }
    }

    /// Set a condition.
    pub fn with_condition(self, condition: &str) -> (r: Self)
        ensures
            r.condition matches Some(c) && c@ == condition@,
            r.id == self.id,
            r.source == self.source,
            r.line == self.line,
            r.column == self.column,
            r.hit_count == self.hit_count,
            r.enabled == self.enabled,
    {
        Breakpoint { condition: Some(owned(condition)), ..self }
    }

    /// Set enabled state.
    pub fn with_enabled(self, enabled: bool) -> (r: Self)
        ensures
            r == (Breakpoint { enabled, ..self }),
    {
        Breakpoint { enabled, ..self }
    }
}

/// A function breakpoint (break on function entry/exit).
#[derive(Debug)]
pub struct FunctionBreakpoint {
    /// Unique identifier.
    pub id: u128,
    /// Function name to break on.
    pub function_name: String,
    /// Break on entry.
    pub break_on_entry: bool,
    /// Break on exit.
    pub break_on_exit: bool,
    /// Whether enabled.
    pub enabled: bool,
}

impl FunctionBreakpoint {
    /// An enabled breakpoint on entry to a function, with a fresh identifier.
    pub fn new(function_name: &str) -> (r: Self)
        ensures
            r.function_name@ == function_name@,
            r.break_on_entry,
            !r.break_on_exit,
            r.enabled,
    {
        FunctionBreakpoint {
            id: new_id(),
            function_name: owned(function_name),
            break_on_entry: true,
            break_on_exit: false,
            enabled: true,
        }
    }

    /// Also break on exit.
    pub fn with_exit(self) -> (r: Self)
        ensures
            r == (FunctionBreakpoint { break_on_exit: true, ..self }),
    {
        FunctionBreakpoint { break_on_exit: true, ..self }
    }
}

/// Target for debugging.
#[derive(Debug, Clone, Copy, PartialEq, Eq, Structural)]
pub enum DebugTarget {
    /// Debug a specific playtest session.
    Playtest(u128),
    /// Debug live server (all script executions).
    Live,
}

/// Stack frame information.
#[derive(Debug, Clone)]
pub struct StackFrame {
    /// Frame index (0 = innermost).
    pub index: usize,
    /// Function name.
    pub function_name: String,
    /// Source file (if known).
    pub source: Option<String>,
    /// Line number (if known).
    pub line: Option<usize>,
    /// Column (if known).
    pub column: Option<usize>,
}

/// Variable information for inspection.
#[derive(Debug)]
pub struct Variable {
    /// Variable name.
    pub name: String,
    /// Value as a display string.
    pub value: String,
    /// Type name.
    pub type_label: String,
    /// Whether this variable can be expanded (map, array, object).
    pub expandable: bool,
    /// Path for expansion (e.g. "player.ship.cargo").
    pub path: String,
    /// Child variables (if expanded).
    pub children: Option<Vec<Variable>>,
}

impl Variable {
    /// A non-expandable variable whose path is its name.
    pub fn simple(name: &str, value: &str, type_label: &str) -> (r: Self)
        ensures
            r.name@ == name@,
            r.path@ == name@,
            r.value@ == value@,
            r.type_label@ == type_label@,
            !r.expandable,
            r.children is None,
    {
        Variable {
            path: owned(name),
            name: owned(name),
            value: owned(value),
            type_label: owned(type_label),
            expandable: false,
            children: None,
        }
    }

    /// An expandable variable whose path is its name.
    pub fn expandable(name: &str, value: &str, type_label: &str) -> (r: Self)
        ensures
            r.name@ == name@,
            r.path@ == name@,
            r.value@ == value@,
            r.type_label@ == type_label@,
            r.expandable,
            r.children is None,
    {
        Variable {
            path: owned(name),
            name: owned(name),
            value: owned(value),
            type_label: owned(type_label),
            expandable: true,
            children: None,
        }
    }

    /// Set the expansion path.
    pub fn with_path(self, path: &str) -> (r: Self)
        ensures
            r.path@ == path@,
            r.name == self.name,
            r.value == self.value,
            r.type_label == self.type_label,
            r.expandable == self.expandable,
            r.children == self.children,
    {
        Variable { path: owned(path), ..self }
    }
}

/// Entity context for debugging.
#[derive(Debug, Clone)]
pub struct EntityContext {
    /// Entity type (e.g., "ship", "station").
    pub entity_type: String,
    /// Entity ID.
    pub entity_id: u128,
    /// Entity name.
    pub entity_name: String,
    /// Sector ID.
    pub sector_id: Option<u128>,
}

/// Reason for pausing.
#[derive(Debug, Clone)]
pub enum PauseReason {
    /// Hit a breakpoint.
    Breakpoint { breakpoint_id: u128 },
    /// Function entry breakpoint.
    FunctionEntry { function_name: String },
    /// Function exit breakpoint.
    FunctionExit { function_name: String },
    /// Step completed.
    Step,
    /// Manual pause request.
    Pause,
    /// Exception occurred.
    Exception { message: String },
}

/// Information about where execution is paused.
#[derive(Debug)]
pub struct PausedState {
    /// Script path.
    pub script_path: String,
    /// Current line.
    pub line: usize,
    /// Current column.
    pub column: usize,
    /// Call stack (innermost first).
    pub call_stack: Vec<StackFrame>,
    /// Local variables in current scope.
    pub local_variables: Vec<Variable>,
    /// Entity context (if executing for a specific entity).
    pub entity_context: Option<EntityContext>,
    /// Reason for pause.
    pub reason: PauseReason,
    /// Timestamp when paused (milliseconds since epoch).
    pub paused_at_ms: u64,
}

/// Debug commands from client.
#[derive(Debug, Clone)]
pub enum DebugCommand {
    /// Continue execution until next breakpoint.
    Continue,
    /// Step into function calls.
    StepInto,
    /// Step over function calls.
    StepOver,
    /// Step out of current function.
    StepOut,
    /// Pause execution.
    Pause,
    /// Evaluate an expression in the current frame.
    Evaluate {
        expression: String,
        frame_index: usize,
    },
}

/// Step mode for stepping commands.
#[derive(Debug, Clone, Copy, PartialEq, Eq, Structural)]
pub enum StepMode {
    StepInto,
    StepOver,
    StepOut,
}

/// Result of evaluating an expression.
#[derive(Debug, Clone)]
pub struct EvaluationResult {
    /// The expression that was evaluated.
    pub expression: String,
    /// Result value as string.
    pub result: String,
    /// Type of the result.
    pub type_label: String,
    /// Whether evaluation succeeded.
    pub success: bool,
    /// Error message if failed.
    pub error: Option<String>,
}

/// A debug session attached to scripts.
#[derive(Debug)]
pub struct DebugSession {
    /// Unique session ID.
    pub id: u128,
    /// What we're debugging.
    pub target: DebugTarget,
    /// User who owns this session.
    pub owner_id: u128,
    /// Line breakpoints.
    pub breakpoints: Vec<Breakpoint>,
    /// Function breakpoints.
    pub function_breakpoints: Vec<FunctionBreakpoint>,
    /// Where execution is paused, if paused.
    pub paused_at: Option<PausedState>,
    /// Whether the session is active.
    pub active: bool,
    /// Timeout for paused state (seconds).
    pub pause_timeout_secs: u32,
}

/// Index of the first breakpoint with identifier `id`, or -1.
pub open spec fn first_bp(bps: Seq<Breakpoint>, id: u128) -> int
    decreases bps.len(),
{
    if bps.len() == 0 {
        -1
    } else {
        let r = first_bp(bps.drop_last(), id);
        if r >= 0 { r } else if bps.last().id == id { bps.len() - 1 } else { -1 }
    }
}

proof fn lemma_first_bp(bps: Seq<Breakpoint>, id: u128)
    ensures
        -1 <= first_bp(bps, id) < bps.len(),
        first_bp(bps, id) >= 0 ==> bps[first_bp(bps, id)].id == id,
        first_bp(bps, id) >= 0 ==> forall|j: int| 0 <= j < first_bp(bps, id) ==> bps[j].id != id,
        first_bp(bps, id) < 0 ==> forall|j: int| 0 <= j < bps.len() ==> bps[j].id != id,
    decreases bps.len(),
{
    if bps.len() > 0 {
        lemma_first_bp(bps.drop_last(), id);
        assert(forall|j: int| 0 <= j < bps.len() - 1 ==> bps.drop_last()[j] == bps[j]);
    }
}

/// The enabled breakpoints of a script, in order.
pub open spec fn script_breakpoints(bps: Seq<Breakpoint>, script: Seq<char>) -> Seq<Breakpoint>
    decreases bps.len(),
{
    if bps.len() == 0 {
        Seq::empty()
    } else {
        let r = script_breakpoints(bps.drop_last(), script);
        if bps.last().source@ == script && bps.last().enabled { r.push(bps.last()) } else { r }
    }
}

/// Clones of the enabled breakpoints of `script`, in order.
pub fn enabled_breakpoints_in(breakpoints: &Vec<Breakpoint>, script: &str) -> (r: Vec<Breakpoint>)
    ensures
        r@ == script_breakpoints(breakpoints@, script@),
{
    let mut r: Vec<Breakpoint> = Vec::new();
    let mut i: usize = 0;
    while i < breakpoints.len()
        invariant
            i <= breakpoints@.len(),
            r@ == script_breakpoints(breakpoints@.subrange(0, i as int), script@),
        decreases breakpoints@.len() - i,
    {
        assert(breakpoints@.subrange(0, i + 1).drop_last() =~= breakpoints@.subrange(0, i as int));
        let bp = &breakpoints[i];
        if str_eq(bp.source.as_str(), script) && bp.enabled {
            r.push(bp.clone());
        }
        i = i + 1;
    }
    assert(breakpoints@.subrange(0, i as int) =~= breakpoints@);
    r
}

impl DebugSession {
    /// An active session with no breakpoints, not paused, with a 30 second pause timeout.
    pub fn new(owner_id: u128, target: DebugTarget) -> (r: Self)
        ensures
            r.target == target,
            r.owner_id == owner_id,
            r.breakpoints@.len() == 0,
            r.function_breakpoints@.len() == 0,
            r.paused_at is None,
            r.active,
            r.pause_timeout_secs == 30,
    {
        DebugSession {
            id: new_id(),
            target,
            owner_id,
            breakpoints: Vec::new(),
            function_breakpoints: Vec::new(),
            paused_at: None,
            active: true,
            pause_timeout_secs: 30,
        }
    }

    /// Add a breakpoint after the existing ones.
    pub fn add_breakpoint(&mut self, bp: Breakpoint)
        ensures
            final(self).breakpoints@ == old(self).breakpoints@.push(bp),
            *final(self) == (DebugSession { breakpoints: final(self).breakpoints, ..*old(self) }),
    {
        self.breakpoints.push(bp);
    }

    /// Remove the first breakpoint with identifier `id`; false when there is none.
    pub fn remove_breakpoint(&mut self, id: u128) -> (r: bool)
        ensures
            r == (first_bp(old(self).breakpoints@, id) >= 0),
            r ==> final(self).breakpoints@ == old(self).breakpoints@.remove(first_bp(old(self).breakpoints@, id)),
            *final(self) == (DebugSession { breakpoints: final(self).breakpoints, ..*old(self) }),
            !r ==> *final(self) == *old(self),
    {
        proof { lemma_first_bp(self.breakpoints@, id); }
        match self.position_of(id) {
            Some(i) => {
                self.breakpoints.remove(i);
                true
            },
            None => false,
        }
    }

    fn position_of(&self, id: u128) -> (r: Option<usize>)
        ensures
            r is None <==> first_bp(self.breakpoints@, id) < 0,
            r matches Some(i) ==> i == first_bp(self.breakpoints@, id) && i < self.breakpoints@.len(),
    {
        proof { lemma_first_bp(self.breakpoints@, id); }
        let mut i: usize = 0;
        while i < self.breakpoints.len()
            invariant
                i <= self.breakpoints@.len(),
                forall|j: int| 0 <= j < i ==> self.breakpoints@[j].id != id,
            decreases self.breakpoints@.len() - i,
        {
            if self.breakpoints[i].id == id {
                proof { lemma_first_bp(self.breakpoints@, id); }
                return Some(i);
            }
            i = i + 1;
        }
        proof { lemma_first_bp(self.breakpoints@, id); }
        None
    }

    /// The first breakpoint with identifier `id`.
    pub fn get_breakpoint(&self, id: u128) -> (r: Option<Breakpoint>)
        ensures
            first_bp(self.breakpoints@, id) < 0 ==> r is None,
            first_bp(self.breakpoints@, id) >= 0 ==> r == Some(self.breakpoints@[first_bp(self.breakpoints@, id)]),
    {
        match self.position_of(id) {
            Some(i) => Some(self.breakpoints[i].clone()),
            None => None,
        }
    }

    /// Enable or disable the first breakpoint with identifier `id`; false when there is none.
    pub fn set_breakpoint_enabled(&mut self, id: u128, enabled: bool) -> (r: bool)
        ensures
            r == (first_bp(old(self).breakpoints@, id) >= 0),
            r ==> final(self).breakpoints@ == old(self).breakpoints@.update(first_bp(old(self).breakpoints@, id),
                Breakpoint { enabled, ..old(self).breakpoints@[first_bp(old(self).breakpoints@, id)] }),
            *final(self) == (DebugSession { breakpoints: final(self).breakpoints, ..*old(self) }),
            !r ==> *final(self) == *old(self),
    {
        match self.position_of(id) {
            Some(i) => {
                let bp = self.breakpoints.remove(i);
                self.breakpoints.insert(i, bp.with_enabled(enabled));
                proof {
                    assert(self.breakpoints@ =~= old(self).breakpoints@.update(i as int,
                        Breakpoint { enabled, ..old(self).breakpoints@[i as int] }));
                }
                true
            },
            None => false,
        }
    }

    /// The enabled breakpoints of `script`, in order.
    pub fn breakpoints_for_script(&self, script: &str) -> (r: Vec<Breakpoint>)
        ensures
            r@ == script_breakpoints(self.breakpoints@, script@),
    {
        enabled_breakpoints_in(&self.breakpoints, script)
    }

    /// Whether execution is paused.
    pub fn is_paused(&self) -> (r: bool)
        ensures
            r == self.paused_at is Some,
    {
        self.paused_at.is_some()
    }
}

} // verus!
