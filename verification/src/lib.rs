//! Scan and collection engine of a small text adventure.
//!
//! A location is classified into a difficulty tier, a scan of it samples a
//! monster population from the bestiary and sums it into a threat level, the
//! scan is remembered per location, and a later collection attempt is a
//! single trial whose chance depends on weather and threat.
//!
//! Randomness always comes from a generator that the caller hands in. Every
//! function that draws from it states what holds of any outcome, and the
//! decision that follows a draw is a function of its own that takes the draw
//! as an argument.

pub mod commands;
pub mod models;
pub mod random;
pub mod utils;
