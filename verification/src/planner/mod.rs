//! Deterministic capability planning primitives: bounded graph limits,
//! plan normalization limits, replay validation, and recall tokenization.

pub mod graph;
pub mod normalize;
pub mod plan;
pub mod rank;
pub mod recall;
pub mod canonical;
pub mod steps;
