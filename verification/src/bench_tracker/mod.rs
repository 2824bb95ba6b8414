//! Benchmark tracking: baseline records, and the formatting of timings and ages
//! in comparison reports.
pub mod age;
pub mod reporter;
pub mod storage;
