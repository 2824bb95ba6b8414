//! The build workflow's results and its budget check.
//!
//! A build optimizes the `Cargo.toml` files, runs the WASM build pipeline and
//! checks the result against the configured size budget.
use vstd::prelude::*;
use vstd::string::*;
use std::path::PathBuf;
use crate::text::{dec, push_dec, push_str};

verus! {

broadcast use vstd::string::group_string_axioms;

#[verifier::external_type_specification]
#[verifier::external_body]
pub struct ExPathBuf(PathBuf);


/// Sizes of a build before and after optimization.
#[derive(Debug, Clone, Copy, PartialEq, Eq)]
pub struct SizeMetrics {
    /// Size before optimization, in bytes.
    pub before_bytes: u64,
    /// Size after optimization, in bytes.
    pub after_bytes: u64,
}

/// Result of the complete build workflow.
#[derive(Debug)]
pub struct BuildResult {
    /// Changes made during `Cargo.toml` optimization.
    pub cargo_changes: Vec<String>,
    /// Build metrics (sizes).
    pub metrics: SizeMetrics,
    /// Whether the size budget check passed, if one was made.
    pub budget_check_passed: Option<bool>,
    /// Size budget threshold in bytes, if configured.
    pub budget_threshold: Option<u64>,
    /// Whether this was a dry run.
    pub dry_run: bool,
    /// Files that would be optimized in a dry run.
    pub dry_run_files: Vec<String>,
}

/// The changes made, the files a dry run would touch, and the backups taken
/// (each file's path with its original content).
pub type OptimizationResult = (Vec<String>, Vec<String>, Vec<(PathBuf, String)>);

/// Errors of the build workflow's checks.
#[derive(Debug, Clone, Copy, PartialEq, Eq)]
pub enum WorkflowError {
    /// The bundle is larger than the maximum: its size and the maximum, in bytes.
    BudgetExceeded(u64, u64),
}

impl WorkflowError {
    /// The error message.
    pub fn to_string(&self) -> (r: String)
        ensures
            r@ == match *self {
                WorkflowError::BudgetExceeded(size, max) => "WASM bundle size ("@ + dec(size as nat)
                    + " bytes) exceeds maximum ("@ + dec(max as nat) + " bytes)"@,
            },
    {
        match self {
            WorkflowError::BudgetExceeded(size, max) => {
                let mut s = String::from_str("WASM bundle size (");
                push_dec(&mut s, *size);
                push_str(&mut s, " bytes) exceeds maximum (");
                push_dec(&mut s, *max);
                push_str(&mut s, " bytes)");
                s
            },
        }
    }
}

/// Build workflow orchestrator of one project.
pub struct BuildWorkflow {
    /// The project's root directory.
    pub project_root: String,
}

impl BuildWorkflow {
    /// A workflow for the project at `project_root`.
    pub fn new(project_root: &str) -> (r: Self)
        ensures
            r.project_root@ == project_root@,
    {
        BuildWorkflow { project_root: String::from_str(project_root) }
    }

    /// The budget check of a build: without a configured maximum nothing is
    /// checked; else the bundle passes when it is at most the maximum (in KB,
    /// taken as bytes times 1024) and fails with `BudgetExceeded` otherwise.
    pub fn check_budget(&self, max_size_kb: Option<u64>, metrics: &SizeMetrics) -> (r: Result<
        (Option<bool>, Option<u64>),
        WorkflowError,
    >)
        requires
            max_size_kb matches Some(m) ==> m * 1024 <= u64::MAX,
        ensures
            max_size_kb is None ==> r == Ok::<(Option<bool>, Option<u64>), WorkflowError>((None, None)),
            max_size_kb matches Some(m) ==> (metrics.after_bytes <= m * 1024 ==> r == Ok::<
                (Option<bool>, Option<u64>),
                WorkflowError,
            >((Some(true), Some((m * 1024) as u64)))),
            max_size_kb matches Some(m) ==> (metrics.after_bytes > m * 1024 ==> r == Err::<
                (Option<bool>, Option<u64>),
                WorkflowError,
            >(WorkflowError::BudgetExceeded(metrics.after_bytes, (m * 1024) as u64))),
    {
        match max_size_kb {
            Some(m) => {
                let max_size = m * 1024;
                let passed = metrics.after_bytes <= max_size;
                if !passed {
                    return Err(WorkflowError::BudgetExceeded(metrics.after_bytes, max_size));
                }
                Ok((Some(passed), Some(max_size)))
            },
            None => Ok((None, None)),
        }
    }
}

} // verus!
