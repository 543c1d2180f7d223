//! Scripting support for a space game: script errors, schemas, script contracts,
//! persistent script state, execution context, transactions, coroutine scheduling,
//! action and event registries, and debugger bookkeeping.

pub mod text;
pub mod maps;
pub mod errors;
pub mod schema;
pub mod schema_traits;
pub mod validation;
pub mod persistence;
pub mod context;
pub mod transaction;
pub mod mission_runner;
pub mod archetypes;
pub mod ids;
pub mod debug;
pub mod actions;
pub mod engine;
pub mod coroutines;
pub mod state;
pub mod events;
pub mod behaviors;
pub mod handlers;
pub mod loader;
pub mod bindings;
pub mod data;
pub mod ships;
pub mod overlay;
