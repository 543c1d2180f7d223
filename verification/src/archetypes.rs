//! Archetype definitions that scripts declare: abilities and effects, and the outcome of
//! loading catalogues of them.

pub mod ability_archetype;
pub mod effect_archetype;
pub mod registry;
