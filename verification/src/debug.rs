//! Debugger bookkeeping: breakpoints, sessions and what is shown while paused.

pub mod types;
pub mod controller;
pub mod stepping;
