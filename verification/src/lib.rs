//! Canary deployments for GPU kernel versions with a ternary health verdict.
//!
//! A [`CanaryRelease`] sends a growing share of traffic to a candidate kernel.
//! A [`CanaryManager`] keeps rolling windows of [`Metrics`] for the stable and the candidate
//! kernel, compares their averages under [`Thresholds`] and answers with a [`Verdict`]:
//! `+1` (healthy), `0` (monitoring) or `-1` (rollback).
//!
//! Everything is generic over the [`Number`] in which measurements are taken. [`Decimal`] is a
//! fixed-point number whose arithmetic is fully specified.

pub mod decimal;
pub mod decimal_laws;
pub mod laws;
pub mod manager;
pub mod metrics;
pub mod number;
pub mod operation_laws;
pub mod order;
pub mod order_laws;
pub mod release;
pub mod thresholds;
pub mod verdict;

pub use decimal::Decimal;
pub use manager::CanaryManager;
pub use metrics::Metrics;
pub use number::Number;
pub use order::OrderedNumber;
pub use release::{CanaryRelease, ROLLOUT_STAGES};
pub use thresholds::Thresholds;
pub use verdict::Verdict;
