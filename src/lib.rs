//! Grammar analysis and correction engine: pattern-based detection, merging
//! of linguistic-engine findings, confidence-ranked correction planning,
//! offset-safe text patching, a time-bounded result cache and text statistics.

pub mod error;
pub mod extensions;
pub mod finding;
pub mod records;
pub mod sizes;
pub mod text;
pub mod patcher;
pub mod planner;
pub mod patterns;
pub mod engine;
pub mod stats;
pub mod cache;
pub mod service;
