//! How long ago a Unix timestamp lies, in words.
use vstd::prelude::*;
use vstd::string::*;
use crate::clock::unix_now;
use crate::text::{dec, push_dec, push_str};

verus! {

broadcast use vstd::string::group_string_axioms;

/// How a time `timestamp` (whole seconds since the epoch) is described at the
/// moment `now_secs` seconds and `now_nanos` nanoseconds after the epoch: times
/// not before now are in the future, else the elapsed whole seconds give "just
/// now" under a minute, then whole minutes, hours or days.
pub open spec fn elapsed_text(timestamp: u64, now_secs: u64, now_nanos: u32) -> Seq<char> {
    if timestamp > now_secs || (timestamp == now_secs && now_nanos == 0) {
        "future"@
    } else {
        let e = (now_secs - timestamp) as nat;
        if e < 60 {
            "just now"@
        } else if e < 3600 {
            dec(e / 60) + " minutes ago"@
        } else if e < 86400 {
            dec(e / 3600) + " hours ago"@
        } else {
            dec(e / 86400) + " days ago"@
        }
    }
}

/// Describes `timestamp` as seen at the moment `now_secs` + `now_nanos`.
pub fn describe_elapsed(timestamp: u64, now_secs: u64, now_nanos: u32) -> (r: String)
    ensures
        r@ == elapsed_text(timestamp, now_secs, now_nanos),
{
    if timestamp > now_secs || (timestamp == now_secs && now_nanos == 0) {
        return String::from_str("future");
    }
    let e = now_secs - timestamp;
    if e < 60 {
        String::from_str("just now")
    } else {
        let mut s = String::new();
        if e < 3600 {
            push_dec(&mut s, e / 60);
            push_str(&mut s, " minutes ago");
        } else if e < 86400 {
            push_dec(&mut s, e / 3600);
            push_str(&mut s, " hours ago");
        } else {
            push_dec(&mut s, e / 86400);
            push_str(&mut s, " days ago");
        }
        s
    }
}

/// Describes how long ago `timestamp` was, by the system clock. A clock set
/// before 1970 puts every timestamp in the future.
pub fn format_timestamp(timestamp: u64) -> (r: String)
    requires
        timestamp <= i64::MAX,
    ensures
        r@ == "future"@ || exists|now_secs: u64, now_nanos: u32|
            now_nanos < 1_000_000_000 && r@ == elapsed_text(timestamp, now_secs, now_nanos),
{
    match unix_now() {
        Ok((secs, nanos)) => describe_elapsed(timestamp, secs, nanos),
        Err(_) => String::from_str("future"),
    }
}

} // verus!
