//! Recovers the hidden origin of a deterministic coordinate hash from
//! offsets observed at positions recorded relative to that origin.
pub mod geometry;
pub mod hash;
pub mod score;
pub mod search;
pub mod samples;
