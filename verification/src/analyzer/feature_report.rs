//! Formatting helpers of the feature report.
use vstd::prelude::*;
use crate::analyzer::report_utils::{cut_ok, truncate_str, truncated};

verus! {

/// Labels cut to `max_len` bytes, as `report_utils::truncate_str` cuts them.
pub fn truncate(s: &str, max_len: usize) -> (r: String)
    requires
        cut_ok(s@, max_len as nat),
    ensures
        r@ == truncated(s@, max_len as nat),
{
    truncate_str(s, max_len)
}

} // verus!
