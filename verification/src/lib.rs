//! Weighted selection of entities ("horses") with probability proportional
//! to inverse odds: a cumulative distribution is built from integer
//! fixed-point odds, uniform random draws are mapped onto it, and a bounded
//! retry driver re-samples under a wall-clock budget.

pub mod distribution;
pub mod driver;
pub mod entity;
pub mod sampler;
