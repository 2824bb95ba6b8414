//! Verified core of a WASM bundle-size optimizer: the rules that classify
//! dependencies, features, panic sites and assets, the parsers of tool output,
//! the budget and history checks, and the report formatting they share.
pub mod analyzer;
pub mod bench_tracker;
pub mod cicd;
pub mod clock;
pub mod cmd;
pub mod text;
