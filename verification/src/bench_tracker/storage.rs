//! Benchmark measurements and baselines.
use vstd::prelude::*;
use std::collections::HashMap;

verus! {

/// A single benchmark measurement.
#[derive(Debug, Clone, PartialEq, Eq)]
pub struct BenchmarkResult {
    /// Name of the benchmark.
    pub name: String,
    /// Mean execution time in nanoseconds.
    pub mean_ns: u64,
    /// Standard deviation in nanoseconds.
    pub stddev_ns: u64,
    /// Minimum execution time in nanoseconds.
    pub min_ns: u64,
    /// Maximum execution time in nanoseconds.
    pub max_ns: u64,
    /// Number of iterations performed.
    pub iterations: u64,
    /// Unix timestamp when measured.
    pub timestamp: u64,
}

/// A stored set of benchmark results.
#[derive(Debug)]
pub struct BenchmarkBaseline {
    /// Version identifier.
    pub version: String,
    /// Unix timestamp of the baseline.
    pub timestamp: u64,
    /// Git commit hash if available.
    pub git_commit: Option<String>,
    /// Benchmark results by name.
    pub results: HashMap<String, BenchmarkResult>,
}

} // verus!
