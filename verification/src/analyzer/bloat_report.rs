//! Formatting helpers of the cargo-bloat report.
use vstd::prelude::*;
use crate::analyzer::report_utils::{bytes_text, cut_ok, truncate_str, truncated};

verus! {

/// Byte sizes in the report, as `report_utils::format_bytes` writes them.
pub fn format_bytes(bytes: u64) -> (r: String)
    ensures
        r@ == bytes_text(bytes),
{
    crate::analyzer::report_utils::format_bytes(bytes)
}

/// Symbols cut to `max_len` bytes, as `report_utils::truncate_str` cuts them.
pub fn truncate_symbol(symbol: &str, max_len: usize) -> (r: String)
    requires
        cut_ok(symbol@, max_len as nat),
    ensures
        r@ == truncated(symbol@, max_len as nat),
{
    truncate_str(symbol, max_len)
}

} // verus!
