//! Weighted random selection over collections of probability-bearing items.
//!
//! Each item reports a probability weight in parts per million
//! ([`rand::WEIGHT_ONE`] stands for the whole probability mass, 1.0).
//! A collection is a valid distribution when its weights sum to exactly
//! `WEIGHT_ONE`; selection draws a uniform value below `WEIGHT_ONE` and walks
//! the cumulative distribution to find the chosen index.

/// The error type returned when a collection cannot be sampled.
pub mod error;

/// Helpers that adapt plain collections for use with this crate.
pub mod helper;

/// The re-exports that most users of the crate want.
pub mod prelude;

/// The probability model, the distribution validator and the samplers.
pub mod rand;
