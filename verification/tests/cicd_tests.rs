use wasm_slim::cicd::budget::{BudgetChecker, BudgetStatus, SizeBudget};
use wasm_slim::cicd::history::{timestamp_from_secs, BuildHistory, BuildRecord};

fn full_budget() -> SizeBudget {
    SizeBudget {
        max_size_kb: Some(1000),
        warn_threshold_kb: Some(800),
        target_size_kb: Some(500),
    }
}

#[test]
fn test_check_budget_under_target_returns_success() {
    let checker = BudgetChecker::new(full_budget());
    let result = checker.check(400 * 1024);
    assert_eq!(result.status, BudgetStatus::UnderTarget);
    assert_eq!(result.exit_code(), 0);
}

#[test]
fn test_check_budget_above_target_but_within_max_returns_warning() {
    let checker = BudgetChecker::new(full_budget());
    let result = checker.check(600 * 1024);
    assert_eq!(result.status, BudgetStatus::AboveTarget);
    assert_eq!(result.exit_code(), 0);
}

#[test]
fn test_check_budget_at_warning_threshold_returns_warning() {
    let checker = BudgetChecker::new(full_budget());
    let result = checker.check(900 * 1024);
    assert_eq!(result.status, BudgetStatus::Warning);
    assert_eq!(result.exit_code(), 0);
}

#[test]
fn test_check_budget_exceeded_max_returns_failure() {
    let checker = BudgetChecker::new(full_budget());
    let result = checker.check(1100 * 1024);
    assert_eq!(result.status, BudgetStatus::OverBudget);
    assert_eq!(result.exit_code(), 1);
}

#[test]
fn test_check_budget_with_no_limits_returns_success() {
    let checker = BudgetChecker::new(SizeBudget {
        max_size_kb: None,
        warn_threshold_kb: None,
        target_size_kb: None,
    });
    let result = checker.check(5000 * 1024);
    assert_eq!(result.status, BudgetStatus::UnderTarget);
    assert_eq!(result.exit_code(), 0);
}

#[test]
fn test_check_budget_with_only_max_limit_returns_correct_status() {
    let checker = BudgetChecker::new(SizeBudget {
        max_size_kb: Some(1000),
        warn_threshold_kb: None,
        target_size_kb: None,
    });
    let result_ok = checker.check(800 * 1024);
    assert_eq!(result_ok.status, BudgetStatus::AboveTarget);
    assert_eq!(result_ok.exit_code(), 0);
    let result_fail = checker.check(1200 * 1024);
    assert_eq!(result_fail.status, BudgetStatus::OverBudget);
    assert_eq!(result_fail.exit_code(), 1);
}

#[test]
fn test_check_budget_under_target_has_success_message() {
    let checker = BudgetChecker::new(full_budget());
    let result = checker.check(400 * 1024);
    assert!(result.message.contains("Under target"));
    assert!(result.message.contains("KB"));
    assert!(result.message.contains("100") || result.message.contains("by"));
    assert_eq!(result.message, "Under target by 100.00 KB");
}

#[test]
fn test_check_budget_above_target_has_warning_message() {
    let checker = BudgetChecker::new(full_budget());
    let result = checker.check(600 * 1024);
    assert!(result.message.contains("Above target"));
    assert!(result.message.contains("within limits"));
    assert!(result.message.contains("KB"));
    assert_eq!(result.message, "Above target by 100.00 KB (still within limits)");
}

#[test]
fn test_check_budget_at_warning_threshold_has_warning_message() {
    let checker = BudgetChecker::new(full_budget());
    let result = checker.check(900 * 1024);
    assert!(result.message.contains("Warning"));
    assert!(result.message.contains("over threshold"));
    assert!(result.message.contains("optimizing"));
    assert!(result.message.contains("KB"));
    assert_eq!(result.message, "Warning: 100 KB over threshold (consider optimizing)");
}

#[test]
fn test_check_budget_exceeded_has_failure_message() {
    let checker = BudgetChecker::new(full_budget());
    let result = checker.check(1100 * 1024);
    assert!(result.message.contains("FAILED"));
    assert!(result.message.contains("over budget"));
    assert!(result.message.contains("optimization required"));
    assert!(result.message.contains("KB"));
    assert_eq!(result.message, "FAILED: 100 KB over budget (optimization required)");
}

#[test]
fn test_check_budget_with_no_limits_has_success_message() {
    let checker = BudgetChecker::new(SizeBudget {
        max_size_kb: None,
        warn_threshold_kb: None,
        target_size_kb: None,
    });
    let result = checker.check(5000 * 1024);
    assert!(result.message.contains("Size OK") || result.message.contains("OK"));
}

#[test]
fn test_budget_result_fields_have_correct_values() {
    let checker = BudgetChecker::new(full_budget());
    let result = checker.check(600 * 1024);
    assert_eq!(result.size_bytes as f64 / 1024.0, 600.0);
    assert_eq!(result.target_kb, Some(500));
    assert_eq!(result.warn_threshold_kb, Some(800));
    assert_eq!(result.max_size_kb, Some(1000));
    assert!(!result.message.is_empty());
}

#[test]
fn test_check_budget_exactly_at_target_returns_success() {
    let checker = BudgetChecker::new(full_budget());
    let result = checker.check(500 * 1024);
    assert_eq!(result.status, BudgetStatus::UnderTarget);
    assert!(result.message.contains("Under target"));
}

#[test]
fn test_check_budget_exactly_at_warning_threshold_returns_warning() {
    let checker = BudgetChecker::new(full_budget());
    let result = checker.check(800 * 1024);
    assert_eq!(result.status, BudgetStatus::AboveTarget);
}

#[test]
fn test_check_budget_exactly_at_max_returns_failure() {
    let checker = BudgetChecker::new(full_budget());
    let result = checker.check(1000 * 1024);
    assert_eq!(result.status, BudgetStatus::Warning);
    assert_eq!(result.exit_code(), 0);
}

#[test]
fn test_check_budget_with_only_target_no_other_limits_works_correctly() {
    let checker = BudgetChecker::new(SizeBudget {
        max_size_kb: None,
        warn_threshold_kb: None,
        target_size_kb: Some(500),
    });
    let result_under = checker.check(400 * 1024);
    assert_eq!(result_under.status, BudgetStatus::UnderTarget);
    assert!(result_under.message.contains("Under target"));
    let result_over = checker.check(600 * 1024);
    assert_eq!(result_over.status, BudgetStatus::AboveTarget);
    assert!(result_over.message.contains("Above target"));
}

#[test]
fn test_budget_status_grows_with_size() {
    let checker = BudgetChecker {
        budget: SizeBudget {
            target_size_kb: Some(100),
            warn_threshold_kb: Some(200),
            max_size_kb: Some(300),
        },
    };
    let rank = |s: BudgetStatus| match s {
        BudgetStatus::UnderTarget => 0,
        BudgetStatus::AboveTarget => 1,
        BudgetStatus::Warning => 2,
        BudgetStatus::OverBudget => 3,
    };
    let mut last = 0;
    for kb in 0..400u64 {
        let r = checker.check(kb * 1024 + 7);
        assert!(rank(r.status) >= last);
        last = rank(r.status);
        assert_eq!(r.exit_code() == 1, r.status == BudgetStatus::OverBudget);
        assert!(r.message.len() > 5);
    }
    assert_eq!(checker.check(0).status, BudgetStatus::UnderTarget);
    assert_eq!(checker.determine_status(150 * 1024), BudgetStatus::AboveTarget);
}

#[test]
fn test_budget_message_fraction_digits() {
    let checker = BudgetChecker::new(full_budget());
    assert_eq!(checker.check(500 * 1024 + 512).message, "Above target by 0.50 KB (still within limits)");
    assert_eq!(checker.check(0).message, "Under target by 500.00 KB");
}

#[test]
fn test_build_record_new_creates_with_current_timestamp() {
    let record = BuildRecord::new(500 * 1024, None, None).unwrap();
    assert_eq!(record.size_bytes, 500 * 1024);
    assert!(!record.timestamp.is_empty());
}

#[test]
fn test_build_history_add_record_and_get_latest_works() {
    let mut history = BuildHistory::new();
    assert!(history.latest().is_none());
    let record1 = BuildRecord::new(500 * 1024, None, None).unwrap();
    history.add_record(record1.clone());
    assert_eq!(history.latest().unwrap().size_bytes, 500 * 1024);
    let record2 = BuildRecord::new(600 * 1024, None, None).unwrap();
    history.add_record(record2.clone());
    assert_eq!(history.latest().unwrap().size_bytes, 600 * 1024);
    assert_eq!(history.records[1].size_bytes, 500 * 1024);
}

#[test]
fn test_build_history_check_regression_detects_size_increases() {
    let mut history = BuildHistory::new();
    history.add_record(BuildRecord::new(500 * 1024, None, None).unwrap());

    let res = history.check_regression(520 * 1024).unwrap();
    assert!(!res.is_regression);
    assert_eq!(res.previous_size, 500 * 1024);

    let res = history.check_regression(550 * 1024).unwrap();
    assert!(res.is_regression);
    assert_eq!(res.previous_size, 500 * 1024);

    let res = history.check_regression(450 * 1024).unwrap();
    assert!(!res.is_regression);
    assert_eq!(res.previous_size, 500 * 1024);
    assert_eq!(res.size_diff, -50 * 1024);
}

#[test]
fn test_build_history_add_record_maintains_max_records_limit() {
    let mut history = BuildHistory::new();
    for i in 0..150 {
        history.add_record(BuildRecord::new((i + 1) * 1024, None, None).unwrap());
    }
    assert_eq!(history.records.len(), BuildHistory::MAX_RECORDS);
    assert_eq!(history.latest().unwrap().size_bytes, 150 * 1024);
}

#[test]
fn test_build_history_concurrent_add_record_works_correctly() {
    let mut history = BuildHistory::new();
    let record1 = BuildRecord::new(100 * 1024, None, None).unwrap();
    let record2 = BuildRecord::new(200 * 1024, None, None).unwrap();
    let record3 = BuildRecord::new(300 * 1024, None, None).unwrap();
    history.add_record(record1);
    history.add_record(record2);
    history.add_record(record3);
    assert_eq!(history.latest().unwrap().size_bytes, 300 * 1024);
    assert_eq!(history.records[1].size_bytes, 200 * 1024);
    assert_eq!(history.records[2].size_bytes, 100 * 1024);
}

#[test]
fn test_build_history_check_regression_with_empty_history_returns_none() {
    let history = BuildHistory::new();
    assert!(history.check_regression(100 * 1024).is_none());
}

#[test]
fn test_build_history_check_regression_at_5_percent_threshold_returns_none() {
    let mut history = BuildHistory::new();
    history.add_record(BuildRecord::new(1000 * 1024, None, None).unwrap());
    let result = history.check_regression(1050 * 1024).unwrap();
    assert!(!result.is_regression);
    assert_eq!(result.size_diff * 100, 5 * (1000 * 1024));
}

#[test]
fn test_build_history_check_regression_just_over_5_percent_returns_regression() {
    let mut history = BuildHistory::new();
    history.add_record(BuildRecord::new(1000 * 1024, None, None).unwrap());
    let result = history.check_regression(1051 * 1024).unwrap();
    assert!(result.is_regression);
    assert!(result.size_diff * 100 > 5 * (1000 * 1024));
}

#[test]
fn test_build_record_keeps_git_fields() {
    let record = BuildRecord::new(1, Some("abc123".to_string()), Some("main".to_string())).unwrap();
    assert_eq!(record.size_bytes, 1);
    assert_eq!(record.commit_hash.as_deref(), Some("abc123"));
    assert_eq!(record.branch.as_deref(), Some("main"));
    let bare = BuildRecord::new(2, None, None).unwrap();
    assert_eq!(bare.commit_hash, None);
    assert_eq!(bare.branch, None);
}

#[test]
fn test_build_record_timestamp_is_iso8601() {
    let record = BuildRecord::new(1, None, None).unwrap();
    let t = record.timestamp.as_bytes();
    assert_eq!(t.len(), 20);
    assert_eq!(t[4], b'-');
    assert_eq!(t[7], b'-');
    assert_eq!(t[10], b'T');
    assert_eq!(t[13], b':');
    assert_eq!(t[16], b':');
    assert_eq!(t[19], b'Z');
}

#[test]
fn test_timestamp_from_secs_iso8601() {
    assert_eq!(timestamp_from_secs(0), "1970-01-01T00:00:00Z");
    assert_eq!(timestamp_from_secs(42), "1970-01-01T00:00:42Z");
    assert_eq!(timestamp_from_secs(86400), "1970-01-02T00:00:00Z");
    assert_eq!(timestamp_from_secs(951_782_400), "2000-02-29T00:00:00Z");
    assert_eq!(timestamp_from_secs(951_868_799), "2000-02-29T23:59:59Z");
    assert_eq!(timestamp_from_secs(1_700_000_000), "2023-11-14T22:13:20Z");
    assert_eq!(timestamp_from_secs(4_107_542_400), "2100-03-01T00:00:00Z");
    assert_eq!(timestamp_from_secs(4_107_455_999), "2100-02-27T23:59:59Z");
    assert_eq!(timestamp_from_secs(4_107_542_399), "2100-02-28T23:59:59Z");
}

#[test]
fn test_check_regression_from_empty_build() {
    let mut history = BuildHistory::default();
    history.add_record(BuildRecord::new(0, None, None).unwrap());
    assert!(history.check_regression(1).unwrap().is_regression);
    assert!(!history.check_regression(0).unwrap().is_regression);
}
