//! Verified core of a Kaspa kHeavyHash miner: the XoShiRo256++ matrix
//! generator, the heavy-hash matrix product, target comparison, stratum
//! message framing and parsing, configuration validation and the small
//! decision procedures that drive the miner, GPU supervisor and fleet report.

pub mod bytes;
pub mod config;
pub mod fleet;
pub mod gpu;
pub mod hashes;
pub mod kheavyhash;
pub mod matrix;
pub mod miner;
pub mod stats;
pub mod stratum;
pub mod text;
pub mod tui;
pub mod xoshiro;
