//! Data model and rules of the scan and collection engine.

pub mod collect_credits;
pub mod label_map;
pub mod lists;
pub mod scan_cache;
pub mod scan_logic;
pub mod types;
