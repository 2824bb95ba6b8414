//! CI/CD integration: size budgets and build history.
pub mod budget;
pub mod history;
