//! Shrinking engine for property-based testing: lazily generated sequences
//! of candidate values, and a per-type protocol that orders the candidates
//! from simplest to least simple.

pub mod model;
pub mod lazy;
pub mod shrink;
