//! Script error accumulator.
//!
//! Scripts report recoverable errors into an `ErrorLog`, a bounded buffer that keeps the
//! most recent `MAX_ERRORS` entries. The log also remembers which script is running and
//! the current server tick, and fills those into errors that do not carry them.

use vstd::prelude::*;
use crate::text::owned;

verus! {

/// Maximum number of errors the log retains.
pub const MAX_ERRORS: usize = 100;

/// A script error with context for debugging.
#[derive(Debug)]
pub struct ScriptError {
    /// The script file where the error occurred.
    pub script: String,
    /// The function that generated the error.
    pub function: String,
    /// Human-readable error message.
    pub message: String,
    /// Line number in the script (0 if unknown).
    pub line: usize,
    /// Column number in the script (0 if unknown).
    pub column: usize,
    /// Server tick when the error occurred.
    pub tick: u64,
}

impl Clone for ScriptError {
    fn clone(&self) -> (r: Self)
        ensures
            r == *self,
    {
        ScriptError {
            script: self.script.clone(),
            function: self.function.clone(),
            message: self.message.clone(),
            line: self.line,
            column: self.column,
            tick: self.tick,
        }
    }
}

impl Default for ScriptError {
    fn default() -> (r: Self)
        ensures
            r.script@.len() == 0,
            r.function@.len() == 0,
            r.message@.len() == 0,
            r.line == 0,
            r.column == 0,
            r.tick == 0,
    {
        ScriptError {
            script: String::new(),
            function: String::new(),
            message: String::new(),
            line: 0,
            column: 0,
            tick: 0,
        }
    }
}

impl ScriptError {
    /// Create a new script error with a function name and message; every other field empty or zero.
    pub fn new(function: &str, message: &str) -> (r: Self)
        ensures
            r.function@ == function@,
            r.message@ == message@,
            r.script@.len() == 0,
            r.line == 0,
            r.column == 0,
            r.tick == 0,
    {
        ScriptError {
            script: String::new(),
            function: owned(function),
            message: owned(message),
            line: 0,
            column: 0,
            tick: 0,
        }
    }

    /// Set the script path.
    pub fn with_script(self, script: &str) -> (r: Self)
        ensures
            r.script@ == script@,
            r.function == self.function,
            r.message == self.message,
            r.line == self.line,
            r.column == self.column,
            r.tick == self.tick,
    {
        ScriptError { script: owned(script), ..self }
    }

    /// Set the line and column.
    pub fn with_position(self, line: usize, column: usize) -> (r: Self)
        ensures
            r.line == line,
            r.column == column,
            r.script == self.script,
            r.function == self.function,
            r.message == self.message,
            r.tick == self.tick,
    {
        ScriptError { line, column, ..self }
    }

    /// Set the tick.
    pub fn with_tick(self, tick: u64) -> (r: Self)
        ensures
            r.tick == tick,
            r.script == self.script,
            r.function == self.function,
            r.message == self.message,
            r.line == self.line,
            r.column == self.column,
    {
        ScriptError { tick, ..self }
    }
}

/// The error buffer together with the current script and tick used as defaults.
pub struct ErrorLog {
    buffer: Vec<ScriptError>,
    current_script: String,
    current_tick: u64,
}

/// `e` with its script and tick filled in from the log's context where they are unset.
pub open spec fn filled(e: ScriptError, script: String, tick: u64) -> ScriptError {
    ScriptError {
        script: if e.script@.len() == 0 { script } else { e.script },
        tick: if e.tick == 0 { tick } else { e.tick },
        ..e
    }
}

/// The buffer after pushing `e` onto `errors`: the oldest entry leaves when the buffer is full.
pub open spec fn pushed(errors: Seq<ScriptError>, e: ScriptError) -> Seq<ScriptError> {
    if errors.len() >= MAX_ERRORS {
        errors.drop_first().push(e)
    } else {
        errors.push(e)
    }
}

/// The last `MAX_ERRORS` entries of `s` (all of them when there are fewer).
pub open spec fn latest(s: Seq<ScriptError>) -> Seq<ScriptError> {
    if s.len() > MAX_ERRORS {
        s.subrange(s.len() - MAX_ERRORS, s.len() as int)
    } else {
        s
    }
}

impl ErrorLog {
    /// The retained errors, oldest first.
    pub closed spec fn errors(&self) -> Seq<ScriptError> {
        self.buffer@
    }

    /// The script path used for errors that carry none.
    pub closed spec fn script(&self) -> String {
        self.current_script
    }

    /// The tick used for errors that carry none.
    pub closed spec fn tick(&self) -> u64 {
        self.current_tick
    }

    /// The buffer never holds more than `MAX_ERRORS` entries.
    pub closed spec fn wf(&self) -> bool {
        self.buffer@.len() <= MAX_ERRORS
    }

    /// An empty log with no current script and tick 0.
    pub fn new() -> (log: Self)
        ensures
            log.wf(),
            log.errors().len() == 0,
            log.script()@.len() == 0,
            log.tick() == 0,
    {
        ErrorLog { buffer: Vec::new(), current_script: String::new(), current_tick: 0 }
    }
}

/// Push an error to the log, filling in the current script and tick where the error has none.
/// When the log is full the oldest error is dropped.
pub fn push_error(log: &mut ErrorLog, error: ScriptError)
    requires
        old(log).wf(),
    ensures
        final(log).wf(),
        final(log).errors() == pushed(old(log).errors(), filled(error, old(log).script(), old(log).tick())),
        final(log).script() == old(log).script(),
        final(log).tick() == old(log).tick(),
{
    let ghost original = error;
    let mut error = error;
    if error.script.as_str().is_empty() {
        error.script = log.current_script.clone();
    }
    if error.tick == 0 {
        error.tick = log.current_tick;
    }
    if log.buffer.len() >= MAX_ERRORS {
        log.buffer.remove(0);
    }
    log.buffer.push(error);
    proof {
        assert(error == filled(original, old(log).script(), old(log).tick()));
        assert(log.buffer@ =~= pushed(old(log).errors(), filled(original, old(log).script(), old(log).tick())));
    }
}

/// Take all errors from the log, leaving it empty.
pub fn take_errors(log: &mut ErrorLog) -> (r: Vec<ScriptError>)
    requires
        old(log).wf(),
    ensures
        final(log).wf(),
        r@ == old(log).errors(),
        final(log).errors().len() == 0,
        final(log).script() == old(log).script(),
        final(log).tick() == old(log).tick(),
{
    let mut taken: Vec<ScriptError> = Vec::new();
    std::mem::swap(&mut taken, &mut log.buffer);
    taken
}

/// The most recent error, without removing it.
pub fn last_error(log: &ErrorLog) -> (r: Option<ScriptError>)
    ensures
        log.errors().len() == 0 ==> r is None,
        log.errors().len() > 0 ==> r == Some(log.errors().last()),
{
    let n = log.buffer.len();
    if n == 0 {
        None
    } else {
        Some(log.buffer[n - 1].clone())
    }
}

/// The most recent error message, or an empty string when there is none.
pub fn last_error_message(log: &ErrorLog) -> (r: String)
    ensures
        log.errors().len() == 0 ==> r@.len() == 0,
        log.errors().len() > 0 ==> r@ == log.errors().last().message@,
{
    match last_error(log) {
        Some(e) => e.message,
        None => String::new(),
    }
}

/// Whether the log holds any error.
pub fn has_errors(log: &ErrorLog) -> (r: bool)
    ensures
        r == (log.errors().len() > 0),
{
    !log.buffer.is_empty()
}

/// Remove every error, keeping the current script and tick.
pub fn clear_errors(log: &mut ErrorLog)
    ensures
        final(log).wf(),
        final(log).errors().len() == 0,
        final(log).script() == old(log).script(),
        final(log).tick() == old(log).tick(),
{
    log.buffer.clear();
}

/// Number of errors held.
pub fn error_count(log: &ErrorLog) -> (r: usize)
    ensures
        r == log.errors().len(),
        log.wf() ==> r <= MAX_ERRORS,
{
    log.buffer.len()
}

/// Set the current script path used as error context.
pub fn set_current_script(log: &mut ErrorLog, script: &str)
    requires
        old(log).wf(),
    ensures
        final(log).wf(),
        final(log).script()@ == script@,
        final(log).errors() == old(log).errors(),
        final(log).tick() == old(log).tick(),
{
    log.current_script = owned(script);
}

/// The current script path.
pub fn get_current_script(log: &ErrorLog) -> (r: String)
    ensures
        r == log.script(),
{
    log.current_script.clone()
}

/// Clear the current script path.
pub fn clear_current_script(log: &mut ErrorLog)
    requires
        old(log).wf(),
    ensures
        final(log).wf(),
        final(log).script()@.len() == 0,
        final(log).errors() == old(log).errors(),
        final(log).tick() == old(log).tick(),
{
    log.current_script = String::new();
}

/// Set the current tick used as error context.
pub fn set_current_tick(log: &mut ErrorLog, tick: u64)
    requires
        old(log).wf(),
    ensures
        final(log).wf(),
        final(log).tick() == tick,
        final(log).errors() == old(log).errors(),
        final(log).script() == old(log).script(),
{
    log.current_tick = tick;
}

/// The current tick.
pub fn get_current_tick(log: &ErrorLog) -> (r: u64)
    ensures
        r == log.tick(),
{
    log.current_tick
}

/// A scope in which errors are attributed to one script; ending it restores the previous one.
pub struct ScriptErrorContext {
    previous: String,
}

impl ScriptErrorContext {
    /// The script that was current when the scope began.
    pub closed spec fn previous(&self) -> String {
        self.previous
    }

    /// Begin a scope for `script`: it becomes the current script.
    pub fn new(log: &mut ErrorLog, script: &str) -> (ctx: Self)
        requires
            old(log).wf(),
        ensures
            final(log).wf(),
            ctx.previous() == old(log).script(),
            final(log).script()@ == script@,
            final(log).errors() == old(log).errors(),
            final(log).tick() == old(log).tick(),
    {
        let previous = get_current_script(log);
        set_current_script(log, script);
        ScriptErrorContext { previous }
    }

    /// End the scope: the script that was current before it becomes current again.
    pub fn end(self, log: &mut ErrorLog)
        requires
            old(log).wf(),
        ensures
            final(log).wf(),
            final(log).script() == self.previous(),
            final(log).errors() == old(log).errors(),
            final(log).tick() == old(log).tick(),
    {
        log.current_script = self.previous;
    }
}

/// Pushing keeps exactly the most recent errors: after pushing `e` onto a log holding the
/// latest entries of some history, the log holds the latest entries of that history
/// extended by `e`.
pub proof fn law_error_log_keeps_latest(history: Seq<ScriptError>, e: ScriptError)
    ensures
        pushed(latest(history), e) == latest(history.push(e)),
        latest(history).len() <= MAX_ERRORS,
{
    let h = history;
    if h.len() > MAX_ERRORS {
        assert(pushed(latest(h), e) =~= latest(h.push(e)));
    } else if h.len() == MAX_ERRORS {
        assert(pushed(latest(h), e) =~= latest(h.push(e)));
    } else {
        assert(pushed(latest(h), e) =~= latest(h.push(e)));
    }
}

/// The error count is never above `MAX_ERRORS`: every log that `new` makes and the other
/// functions keep (all keep `wf`) holds at most that many errors.
pub proof fn law_error_count_at_most_max(log: ErrorLog)
    requires
        log.wf(),
    ensures
        log.errors().len() <= MAX_ERRORS,
{
}

/// The buffer after pushing each of `es` in turn onto `start`.
pub open spec fn pushed_all(start: Seq<ScriptError>, es: Seq<ScriptError>) -> Seq<ScriptError>
    decreases es.len(),
{
    if es.len() == 0 {
        start
    } else {
        pushed(pushed_all(start, es.drop_last()), es.last())
    }
}

/// The error count is bounded: starting from an empty log (after `new`, `clear_errors` or
/// `take_errors`), pushing `k` errors leaves the latest `min(k, MAX_ERRORS)` of them.
pub proof fn law_error_count_bounded(es: Seq<ScriptError>)
    ensures
        pushed_all(Seq::empty(), es) == latest(es),
        pushed_all(Seq::empty(), es).len() == if es.len() <= MAX_ERRORS { es.len() } else { MAX_ERRORS as nat },
    decreases es.len(),
{
    if es.len() > 0 {
        law_error_count_bounded(es.drop_last());
        law_error_log_keeps_latest(es.drop_last(), es.last());
        assert(es.drop_last().push(es.last()) =~= es);
    }
}

} // verus!
