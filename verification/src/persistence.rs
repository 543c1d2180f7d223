//! Persistent script state: storage backends and the key scheme scripts use.

pub mod store;
pub mod bindings;
