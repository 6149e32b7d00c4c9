//! Small helpers shared by the engine and its callers.

pub mod shortcut;
pub mod text;
