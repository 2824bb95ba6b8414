//! Formatting of benchmark comparisons.
use vstd::prelude::*;
use vstd::string::*;
use vstd::utf8::*;
use crate::analyzer::report_utils::{cut_ok, f64_of, f64_of_exec, float2, lemma_p2_values, push_float2, truncate_str, truncated};
use crate::text::{dec, push_dec, push_str};

verus! {

broadcast use vstd::string::group_string_axioms;

/// Prints benchmark comparisons.
#[derive(Debug, Clone, Copy)]
pub struct BenchmarkReporter;

impl BenchmarkReporter {
    /// A reporter.
    pub fn new() -> (r: Self) {
        BenchmarkReporter
    }
}

impl Default for BenchmarkReporter {
    fn default() -> (r: Self) {
        Self::new()
    }
}

/// How `format_ns` writes a duration of `ns` nanoseconds: whole nanoseconds
/// below a microsecond, else microseconds, milliseconds or seconds with two
/// decimals, as `{:.2}` writes the `f64` quotient.
pub open spec fn ns_text(ns: u64) -> Seq<char> {
    if ns < 1_000 {
        dec(ns as nat) + " ns"@
    } else if ns < 1_000_000 {
        float2(ns as nat, 1_000) + " µs"@
    } else if ns < 1_000_000_000 {
        float2(ns as nat, 1_000_000) + " ms"@
    } else {
        float2(f64_of(ns as nat), 1_000_000_000) + " s"@
    }
}

/// Format nanoseconds as a human-readable time.
///
/// `format_ns(500)` is `"500 ns"`, `format_ns(1_500)` is `"1.50 µs"`.
pub fn format_ns(ns: u64) -> (r: String)
    ensures
        r@ == ns_text(ns),
{
    proof {
        lemma_p2_values();
    }
    let mut s = String::new();
    if ns < 1_000 {
        push_dec(&mut s, ns);
        push_str(&mut s, " ns");
    } else if ns < 1_000_000 {
        push_float2(&mut s, ns as u128, 1_000);
        push_str(&mut s, " µs");
    } else if ns < 1_000_000_000 {
        push_float2(&mut s, ns as u128, 1_000_000);
        push_str(&mut s, " ms");
    } else {
        let p = f64_of_exec(ns);
        push_float2(&mut s, p, 1_000_000_000);
        push_str(&mut s, " s");
    }
    s
}

/// Truncate a name to `max_len` bytes, the last three of them `...`. A name
/// that needs cutting needs `max_len` of at least 3.
pub fn truncate(s: &str, max_len: usize) -> (r: String)
    requires
        encode_utf8(s@).len() > max_len ==> max_len >= 3,
        cut_ok(s@, max_len as nat),
    ensures
        r@ == truncated(s@, max_len as nat),
{
    truncate_str(s, max_len)
}

} // verus!
