//! Size analysis of WASM projects: dependencies, features, panics, assets and
//! binary reports.
pub mod allocator;
pub mod deps;
pub mod deps_types;
pub mod deps_report;
pub mod heavy_deps;
pub mod report_utils;
pub mod twiggy;
pub mod bloat;
pub mod bloat_report;
pub mod feature_report;
pub mod twiggy_report;
pub mod features;
pub mod asset_types;
pub mod asset_visitor;
pub mod assets;
pub mod panics;
pub mod panic_advisor;
pub mod panic_report;
pub mod applicator;
pub mod manifest;
