//! The messages of the build command.
use vstd::prelude::*;
use vstd::string::*;
use crate::analyzer::report_utils::{bytes_text, format_bytes};
use crate::text::push_str;

verus! {

broadcast use vstd::string::group_string_axioms;

/// The budget line of a build report: shown when a budget was checked and
/// passed, naming its threshold.
pub fn present_budget_check(passed: Option<bool>, threshold: Option<u64>) -> (r: Option<String>)
    ensures
        match (passed, threshold) {
            (Some(true), Some(t)) => r matches Some(line) && line@ == "Size within threshold ("@
                + bytes_text(t) + ")"@,
            _ => r is None,
        },
{
    match (passed, threshold) {
        (Some(true), Some(t)) => {
            let mut line = String::from_str("Size within threshold (");
            let b = format_bytes(t);
            push_str(&mut line, b.as_str());
            push_str(&mut line, ")");
            Some(line)
        },
        _ => None,
    }
}

} // verus!
