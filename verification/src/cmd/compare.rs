//! The checks before comparing two WASM builds.
use vstd::prelude::*;
use vstd::string::*;
use crate::text::push_str;

verus! {

broadcast use vstd::string::group_string_axioms;

/// Errors of the `compare` command's inputs.
#[derive(Debug, Clone, PartialEq, Eq)]
pub enum CompareError {
    /// The baseline file does not exist.
    BaselineNotFound(String),
    /// The file to compare does not exist.
    ComparisonNotFound(String),
}

impl CompareError {
    /// The error message.
    pub fn to_string(&self) -> (r: String)
        ensures
            r@ == match *self {
                CompareError::BaselineNotFound(f) => "Baseline file not found: "@ + f@
                    + ". Run a build first to create a baseline."@,
                CompareError::ComparisonNotFound(f) => "Comparison file not found: "@ + f@,
            },
    {
        match self {
            CompareError::BaselineNotFound(f) => {
                let mut s = String::from_str("Baseline file not found: ");
                push_str(&mut s, f.as_str());
                push_str(&mut s, ". Run a build first to create a baseline.");
                s
            },
            CompareError::ComparisonNotFound(f) => {
                let mut s = String::from_str("Comparison file not found: ");
                push_str(&mut s, f.as_str());
                s
            },
        }
    }
}

/// Checks the files of `wasm-slim compare before after`, given whether each
/// exists: the baseline is checked first.
pub fn cmd_compare(before: &str, after: &str, before_exists: bool, after_exists: bool) -> (r: Result<
    (),
    CompareError,
>)
    ensures
        !before_exists ==> (r matches Err(CompareError::BaselineNotFound(f)) && f@ == before@),
        before_exists && !after_exists ==> (r matches Err(CompareError::ComparisonNotFound(f))
            && f@ == after@),
        before_exists && after_exists ==> r is Ok,
{
    if !before_exists {
        return Err(CompareError::BaselineNotFound(String::from_str(before)));
    }
    if !after_exists {
        return Err(CompareError::ComparisonNotFound(String::from_str(after)));
    }
    Ok(())
}

} // verus!
