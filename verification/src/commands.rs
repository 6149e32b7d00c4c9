//! What the commands of the game decide before anything is shown.

pub mod commands_fn;
