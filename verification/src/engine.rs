//! Errors of the scripting engine.

use vstd::prelude::*;
use crate::text::{owned, append_str};

verus! {

/// Scripting engine errors.
#[derive(Debug, Clone, PartialEq, Eq)]
pub enum ScriptError {
    /// Script not found
    NotFound(String),
    /// Compilation error
    CompileError(String),
    /// Runtime error
    RuntimeError(String),
    /// IO error, with the system's message
    IoError(String),
    /// No result returned from script
    NoResult,
}

/// The text that describes an engine error.
pub open spec fn script_error_text(e: ScriptError) -> Seq<char> {
    match e {
        ScriptError::NotFound(s) => "Script not found: "@ + s@,
        ScriptError::CompileError(s) => "Compilation error: "@ + s@,
        ScriptError::RuntimeError(s) => "Runtime error: "@ + s@,
        ScriptError::IoError(s) => "IO error: "@ + s@,
        ScriptError::NoResult => "No result returned from script"@,
    }
}

impl ScriptError {
    /// The error's text, as it is shown to users and recorded in logs.
    pub fn message(&self) -> (r: String)
        ensures
            r@ == script_error_text(*self),
    {
        let (prefix, detail): (&str, &String) = match self {
            ScriptError::NotFound(s) => ("Script not found: ", s),
            ScriptError::CompileError(s) => ("Compilation error: ", s),
            ScriptError::RuntimeError(s) => ("Runtime error: ", s),
            ScriptError::IoError(s) => ("IO error: ", s),
            ScriptError::NoResult => { return owned("No result returned from script"); },
        };
        let mut r = owned(prefix);
        append_str(&mut r, detail.as_str());
        r
    }
}

} // verus!
