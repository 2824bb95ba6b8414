//! The decisions of the command-line commands: which analysis to run, the
//! checks before a comparison, the budget check of a build and its messages.
pub mod analyze;
pub mod build_cmd;
pub mod compare;
pub mod workflow;
