//! Core of a continuous-benchmarking platform: adapters that parse raw
//! benchmark tool output into a canonical metric map, fixed-point metric
//! arithmetic, historical baselines (mean / standard deviation), and a
//! statistical threshold engine that turns new measurements into alerts.
//!
//! Measurements are fixed-point decimals: an unsigned integer counting
//! units of 1/10_000, so `32_470_000` stands for 3247.0 nanoseconds.

pub mod adapter_json;
pub mod adapter_rust;
pub mod baseline;
pub mod benchmarks;
pub mod cli;
pub mod config;
pub mod error;
pub mod latency;
pub mod metric;
pub mod rbac;
pub mod report;
pub mod testbed;
pub mod text;
pub mod threshold;
pub mod token;
pub mod trusted;

use vstd::prelude::*;

verus! {

/// Fixed-point scale: all measurement values count units of `1/SCALE`.
pub const SCALE: u64 = 10000;

} // verus!
