//! Actions that scripts register handlers for, and their dispatch.

pub mod registry;
pub mod dispatcher;
