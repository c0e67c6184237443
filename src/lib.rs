//! Deterministic rollback core of a two-player arena shooter.
//!
//! Positions are fixed-point integers in thousandths of a world unit, so every
//! peer computes bit-identical worlds from identical inputs.

pub mod consts;
pub mod input;
pub mod rng;
pub mod world;
pub mod step;
pub mod map;
pub mod checksum;
pub mod timeline;
pub mod snapshot;
pub mod session;
pub mod laws;
pub mod roster;
