//! A small in-memory key-value store whose add/get operations are mediated by
//! transformation hooks: a built-in rule set validates and formats values for
//! two reserved key classes (an identifier class with check digits and a
//! calendar-date class), and an externally loaded Lua rule set can replace it.

pub mod date;
pub mod engine;
pub mod identifier;
pub mod laws;
pub mod ops;
pub mod rules;
pub mod store;
pub mod transform;

pub use engine::Engine;
pub use ops::apply_add;
pub use ops::apply_get;
pub use ops::AddOutcome;
pub use ops::GetOutcome;
pub use store::Store;
pub use transform::TransformResult;
