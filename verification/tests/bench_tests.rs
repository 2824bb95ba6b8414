use std::time::SystemTime;
use wasm_slim::bench_tracker::age::{describe_elapsed, format_timestamp};
use wasm_slim::bench_tracker::reporter::{format_ns, truncate, BenchmarkReporter};

fn now_secs() -> u64 {
    SystemTime::now()
        .duration_since(SystemTime::UNIX_EPOCH)
        .unwrap()
        .as_secs()
}

#[test]
fn test_format_ns_converts_to_readable_time_units() {
    assert_eq!(format_ns(500), "500 ns");
    assert_eq!(format_ns(1_500), "1.50 µs");
    assert_eq!(format_ns(1_500_000), "1.50 ms");
    assert_eq!(format_ns(1_500_000_000), "1.50 s");
}

#[test]
fn reporter_test_truncate_with_long_string_adds_ellipsis() {
    assert_eq!(truncate("short", 10), "short");
    assert_eq!(truncate("this is a very long string", 10), "this is...");
}

#[test]
fn test_reporter_new() {
    let _reporter = BenchmarkReporter::new();
}

#[test]
fn test_reporter_default() {
    let _reporter = BenchmarkReporter;
    let _other = BenchmarkReporter::default();
}

#[test]
fn test_format_ns_all_units() {
    assert_eq!(format_ns(0), "0 ns");
    assert_eq!(format_ns(1), "1 ns");
    assert_eq!(format_ns(999), "999 ns");
    assert_eq!(format_ns(1_000), "1.00 µs");
    assert_eq!(format_ns(123_456), "123.46 µs");
    assert_eq!(format_ns(1_000_000), "1.00 ms");
    assert_eq!(format_ns(123_456_789), "123.46 ms");
    assert_eq!(format_ns(1_000_000_000), "1.00 s");
    assert_eq!(format_ns(5_000_000_000), "5.00 s");
}

#[test]
fn test_truncate_edge_cases() {
    assert_eq!(truncate("", 10), "");
    assert_eq!(truncate("abc", 3), "abc");
    assert_eq!(truncate("abcd", 3), "...");
    assert_eq!(truncate("abcdef", 5), "ab...");
}

#[test]
fn test_format_timestamp_future() {
    let future = now_secs() + 86400;
    assert_eq!(format_timestamp(future), "future");
}

#[test]
fn test_format_timestamp_just_now() {
    let result = format_timestamp(now_secs());
    assert_eq!(result, "just now");
}

#[test]
fn test_format_timestamp_minutes() {
    let result = format_timestamp(now_secs() - 120);
    assert!(result.contains("minutes ago"));
}

#[test]
fn test_format_timestamp_hours() {
    let result = format_timestamp(now_secs() - 7200);
    assert!(result.contains("hours ago"));
}

#[test]
fn test_format_timestamp_days() {
    let result = format_timestamp(now_secs() - 172800);
    assert!(result.contains("days ago"));
}

#[test]
fn test_format_ns_nanoseconds() {
    assert_eq!(format_ns(500), "500 ns");
    assert_eq!(format_ns(999), "999 ns");
}

#[test]
fn test_format_ns_microseconds() {
    assert_eq!(format_ns(1_000), "1.00 µs");
    assert_eq!(format_ns(1_500), "1.50 µs");
    assert_eq!(format_ns(999_999), "1000.00 µs");
}

#[test]
fn test_format_ns_milliseconds() {
    assert_eq!(format_ns(1_000_000), "1.00 ms");
    assert_eq!(format_ns(1_500_000), "1.50 ms");
    assert_eq!(format_ns(999_999_999), "1000.00 ms");
}

#[test]
fn test_format_ns_seconds() {
    assert_eq!(format_ns(1_000_000_000), "1.00 s");
    assert_eq!(format_ns(2_500_000_000), "2.50 s");
}

#[test]
fn test_format_ns_boundary_values() {
    assert_eq!(format_ns(0), "0 ns");
    assert_eq!(format_ns(1), "1 ns");
}

#[test]
fn test_describe_elapsed_exact_values() {
    assert_eq!(describe_elapsed(1_000, 1_000, 5), "just now");
    assert_eq!(describe_elapsed(1_000, 1_000, 0), "future");
    assert_eq!(describe_elapsed(1_001, 1_000, 5), "future");
    assert_eq!(describe_elapsed(1_000, 1_059, 0), "just now");
    assert_eq!(describe_elapsed(1_000, 1_060, 0), "1 minutes ago");
    assert_eq!(describe_elapsed(0, 3_599, 0), "59 minutes ago");
    assert_eq!(describe_elapsed(0, 3_600, 0), "1 hours ago");
    assert_eq!(describe_elapsed(0, 86_399, 0), "23 hours ago");
    assert_eq!(describe_elapsed(0, 86_400 * 3 + 5, 0), "3 days ago");
}

#[test]
fn test_format_ns_rounds_the_f64_quotient() {
    assert_eq!(format_ns(1015), "1.01 µs");
    assert_eq!(format_ns(1025), "1.02 µs");
    assert_eq!(format_ns(1005), "1.00 µs");
    assert_eq!(format_ns(2_675), "2.67 µs");
    assert_eq!(format_ns(999_999), "1000.00 µs");
    assert_eq!(format_ns(1_005_000), "1.00 ms");
    assert_eq!(format_ns(1_015_000), "1.01 ms");
    assert_eq!(format_ns(999_999_999), "1000.00 ms");
    assert_eq!(format_ns(1_015_000_000), "1.01 s");
    assert_eq!(format_ns(1_005_000_000), "1.00 s");
    assert_eq!(format_ns(9_007_199_254_740_993), "9007199.25 s");
    assert_eq!(format_ns(u64::MAX), "18446744073.71 s");
}
