use std::path::PathBuf;
use wasm_slim::analyzer::report_utils::format_bytes;
use wasm_slim::analyzer::twiggy::AnalysisMode;
use wasm_slim::cmd::analyze::{cmd_analyze, AnalyzeCommand, AnalyzeError};
use wasm_slim::cmd::build_cmd::present_budget_check;
use wasm_slim::cmd::compare::{cmd_compare, CompareError};
use wasm_slim::cmd::workflow::{
    BuildResult, BuildWorkflow, OptimizationResult, SizeMetrics, WorkflowError,
};

fn err_text(r: Result<AnalyzeCommand, AnalyzeError>) -> Option<String> {
    r.err().map(|e| e.to_string())
}

#[test]
fn test_cmd_analyze_unknown_mode() {
    let result = cmd_analyze(&None, "unknown_mode", false, false, false, false);
    assert!(result.is_err());
    assert!(err_text(result).unwrap().contains("Unknown analysis mode"));
}

#[test]
fn test_cmd_analyze_valid_modes() {
    let modes = vec![
        "assets",
        "deps",
        "bloat",
        "features",
        "panics",
        "top",
        "dominators",
        "dead",
        "monos",
    ];
    for mode in modes {
        let result = cmd_analyze(&None, mode, false, false, false, false);
        if let Some(e) = err_text(result) {
            assert!(!e.contains("Unknown analysis mode"));
        }
    }
}

#[test]
fn test_cmd_analyze_wasm_binary_modes_require_file() {
    for mode in ["top", "dominators", "dead", "monos"] {
        let result = cmd_analyze(&None, mode, false, false, false, false);
        assert!(result.is_err());
        let error_msg = err_text(result).unwrap();
        assert!(error_msg.contains("WASM file required") || error_msg.contains("twiggy"));
    }
}

#[test]
fn test_cmd_analyze_with_file_parameter() {
    let file = Some("test.wasm".to_string());
    let result = cmd_analyze(&file, "top", false, false, false, false);
    if let Some(e) = err_text(result.clone()) {
        assert!(!e.contains("WASM file required"));
    }
    assert_eq!(
        result,
        Ok(AnalyzeCommand::WasmBinary {
            file: "test.wasm".to_string(),
            mode: AnalysisMode::Top,
            json: false
        })
    );
}

#[test]
fn test_analyze_wasm_binary_requires_file() {
    let result = cmd_analyze(&None, "top", false, false, false, false);
    assert!(result.is_err());
    assert!(err_text(result).unwrap().contains("WASM file required"));
}

#[test]
fn test_analyze_wasm_binary_with_file() {
    let file = Some("/path/to/test.wasm".to_string());
    let result = cmd_analyze(&file, "top", false, false, false, false);
    if let Some(e) = err_text(result) {
        assert!(!e.contains("WASM file required"));
    }
}

#[test]
fn test_analyze_wasm_binary_all_modes() {
    let file = Some("test.wasm".to_string());
    let expected = [
        ("top", AnalysisMode::Top),
        ("dominators", AnalysisMode::Dominators),
        ("dead", AnalysisMode::Dead),
        ("monos", AnalysisMode::Monos),
    ];
    for (mode, m) in expected {
        let result = cmd_analyze(&file, mode, false, false, false, true);
        assert_eq!(
            result,
            Ok(AnalyzeCommand::WasmBinary {
                file: "test.wasm".to_string(),
                mode: m,
                json: true
            })
        );
    }
}

#[test]
fn test_cmd_analyze_error_message_includes_valid_modes() {
    let result = cmd_analyze(&None, "invalid", false, false, false, false);
    assert!(result.is_err());
    let error = err_text(result).unwrap();
    for m in [
        "assets",
        "deps",
        "bloat",
        "features",
        "panics",
        "top",
        "dominators",
        "dead",
        "monos",
    ] {
        assert!(error.contains(m));
    }
}

#[test]
fn test_cmd_analyze_case_sensitive() {
    let result = cmd_analyze(&None, "ASSETS", false, false, false, false);
    assert!(result.is_err());
    assert!(err_text(result).unwrap().contains("Unknown analysis mode"));
}

#[test]
fn test_cmd_analyze_with_fix_flag() {
    let result = cmd_analyze(&None, "deps", true, false, false, false);
    if let Some(e) = err_text(result.clone()) {
        assert!(!e.contains("Unknown analysis mode"));
    }
    assert_eq!(
        result,
        Ok(AnalyzeCommand::Dependencies {
            fix: true,
            dry_run: false,
            json: false
        })
    );
}

#[test]
fn test_cmd_analyze_with_dry_run_flag() {
    let result = cmd_analyze(&None, "deps", false, true, false, false);
    if let Some(e) = err_text(result) {
        assert!(!e.contains("Unknown analysis mode"));
    }
}

#[test]
fn test_cmd_analyze_with_guide_flag() {
    let result = cmd_analyze(&None, "assets", false, false, true, false);
    if let Some(e) = err_text(result.clone()) {
        assert!(!e.contains("Unknown analysis mode"));
    }
    assert_eq!(result, Ok(AnalyzeCommand::Assets { guide: true, json: false }));
}

#[test]
fn test_cmd_analyze_with_json_flag() {
    let result = cmd_analyze(&None, "features", false, false, false, true);
    if let Some(e) = err_text(result.clone()) {
        assert!(!e.contains("Unknown analysis mode"));
    }
    assert_eq!(result, Ok(AnalyzeCommand::Features { json: true }));
}

#[test]
fn test_cmd_analyze_multiple_flags() {
    let result = cmd_analyze(&None, "deps", true, true, false, true);
    if let Some(e) = err_text(result) {
        assert!(!e.contains("Unknown analysis mode"));
    }
}

#[test]
fn test_cmd_analyze_empty_mode_string() {
    let result = cmd_analyze(&None, "", false, false, false, false);
    assert!(result.is_err());
    assert!(err_text(result).unwrap().contains("Unknown analysis mode"));
}

#[test]
fn test_cmd_analyze_whitespace_mode() {
    let result = cmd_analyze(&None, "   ", false, false, false, false);
    assert!(result.is_err());
    assert!(err_text(result).unwrap().contains("Unknown analysis mode"));
}

#[test]
fn test_cmd_analyze_mode_with_whitespace() {
    let result = cmd_analyze(&None, " assets ", false, false, false, false);
    assert!(result.is_err());
    assert!(err_text(result).unwrap().contains("Unknown analysis mode"));
}

#[test]
fn test_cmd_analyze_error_values() {
    assert_eq!(
        cmd_analyze(&None, "nope", false, false, false, false),
        Err(AnalyzeError::UnknownMode("nope".to_string()))
    );
    assert_eq!(
        cmd_analyze(&None, "monos", false, false, false, false),
        Err(AnalyzeError::WasmFileRequired)
    );
    assert_eq!(
        AnalyzeError::WasmFileRequired.to_string(),
        "WASM file required for binary analysis mode (top/dominators/dead/monos)"
    );
    assert_eq!(
        cmd_analyze(&None, "bloat", false, false, false, true),
        Ok(AnalyzeCommand::Bloat { json: true })
    );
    assert_eq!(
        cmd_analyze(&None, "panics", false, false, false, false),
        Ok(AnalyzeCommand::Panics { json: false })
    );
}

#[test]
fn test_present_budget_check_with_passed() {
    assert_eq!(
        present_budget_check(Some(true), Some(2000)),
        Some("Size within threshold (1.95 KB)".to_string())
    );
}

#[test]
fn test_present_budget_check_with_none() {
    assert_eq!(present_budget_check(None, None), None);
    assert_eq!(present_budget_check(Some(false), Some(2000)), None);
}

#[test]
fn test_format_bytes_via_shared_module() {
    assert_eq!(format_bytes(512), "512 B");
    assert_eq!(format_bytes(1024), "1.00 KB");
    assert_eq!(format_bytes(1536), "1.50 KB");
    assert_eq!(format_bytes(1_048_576), "1.00 MB");
    assert_eq!(format_bytes(2_621_440), "2.50 MB");
}

#[test]
fn test_compare_with_missing_baseline_file() {
    let result = cmd_compare("/tmp/x/nonexistent_baseline.wasm", "/tmp/x/after.wasm", false, true);
    let err_msg = result.unwrap_err().to_string();
    assert!(err_msg.contains("Baseline file not found"));
    assert!(err_msg.contains("nonexistent_baseline.wasm"));
}

#[test]
fn test_compare_with_missing_comparison_file() {
    let result = cmd_compare("/tmp/x/baseline.wasm", "/tmp/x/nonexistent_after.wasm", true, false);
    let err_msg = result.unwrap_err().to_string();
    assert!(err_msg.contains("Comparison file not found"));
    assert!(err_msg.contains("nonexistent_after.wasm"));
}

#[test]
fn test_compare_with_both_files_missing() {
    let result = cmd_compare("nonexistent1.wasm", "nonexistent2.wasm", false, false);
    assert!(result.is_err());
    assert!(result.unwrap_err().to_string().contains("Baseline file not found"));
}

#[test]
fn test_compare_validates_baseline_before_comparison() {
    let result = cmd_compare("missing_baseline.wasm", "missing_after.wasm", false, false);
    let err_msg = result.unwrap_err().to_string();
    assert!(err_msg.contains("Baseline"));
    assert!(!err_msg.contains("Comparison file not found"));
}

#[test]
fn test_compare_error_message_includes_file_path() {
    let baseline_path = "/some/path/to/baseline.wasm";
    let after_path = "/some/path/to/after.wasm";
    let result = cmd_compare(baseline_path, after_path, false, false);
    assert_eq!(
        result,
        Err(CompareError::BaselineNotFound(baseline_path.to_string()))
    );
    assert!(result.unwrap_err().to_string().contains(baseline_path));
    assert_eq!(cmd_compare("a", "b", true, true), Ok(()));
}

#[test]
fn test_build_workflow_new_with_different_paths() {
    let paths = vec!["/tmp", "/home/user/project", ".", "./relative/path"];
    for path in paths {
        let workflow = BuildWorkflow::new(path);
        assert_eq!(workflow.project_root, path);
    }
}

#[test]
fn test_build_workflow_stores_project_root() {
    let root = "/test/project";
    let workflow = BuildWorkflow::new(root);
    assert_eq!(workflow.project_root, root);
}

fn build_result(
    cargo_changes: Vec<String>,
    before: u64,
    after: u64,
    passed: Option<bool>,
    threshold: Option<u64>,
    dry_run: bool,
    files: Vec<String>,
) -> BuildResult {
    BuildResult {
        cargo_changes,
        metrics: SizeMetrics {
            before_bytes: before,
            after_bytes: after,
        },
        budget_check_passed: passed,
        budget_threshold: threshold,
        dry_run,
        dry_run_files: files,
    }
}

#[test]
fn test_build_result_can_be_created() {
    let result = build_result(vec!["test".to_string()], 1000, 800, None, None, false, vec![]);
    assert_eq!(result.cargo_changes.len(), 1);
    assert_eq!(result.metrics.before_bytes, 1000);
    assert_eq!(result.metrics.after_bytes, 800);
}

#[test]
fn test_build_result_with_budget_check() {
    let result = build_result(vec![], 2000, 1500, Some(true), Some(2000), false, vec![]);
    assert_eq!(result.budget_check_passed, Some(true));
    assert_eq!(result.budget_threshold, Some(2000));
}

#[test]
fn test_build_result_with_failed_budget() {
    let result = build_result(vec![], 1000, 2500, Some(false), Some(2000), false, vec![]);
    assert_eq!(result.budget_check_passed, Some(false));
    assert!(result.metrics.after_bytes > result.budget_threshold.unwrap());
}

#[test]
fn test_build_result_dry_run_mode() {
    let result = build_result(
        vec![],
        1000,
        1000,
        None,
        None,
        true,
        vec!["file1.toml".to_string(), "file2.toml".to_string()],
    );
    assert!(result.dry_run);
    assert_eq!(result.dry_run_files.len(), 2);
}

#[test]
fn test_build_result_with_multiple_cargo_changes() {
    let result = build_result(
        vec![
            "change1".to_string(),
            "change2".to_string(),
            "change3".to_string(),
        ],
        2000,
        1000,
        None,
        None,
        false,
        vec![],
    );
    assert_eq!(result.cargo_changes.len(), 3);
    assert!(result.metrics.before_bytes > result.metrics.after_bytes);
}

#[test]
fn test_optimization_result_empty_tuple() {
    let result: OptimizationResult = (vec![], vec![], vec![]);
    assert!(result.0.is_empty());
    assert!(result.1.is_empty());
    assert!(result.2.is_empty());
}

#[test]
fn test_optimization_result_with_changes() {
    let result: OptimizationResult = (
        vec!["change1".to_string(), "change2".to_string()],
        vec![],
        vec![],
    );
    assert_eq!(result.0.len(), 2);
    assert!(result.1.is_empty());
    assert!(result.2.is_empty());
}

#[test]
fn test_optimization_result_with_dry_run_files() {
    let result: OptimizationResult = (
        vec![],
        vec!["file1.toml".to_string(), "file2.toml".to_string()],
        vec![],
    );
    assert!(result.0.is_empty());
    assert_eq!(result.1.len(), 2);
    assert!(result.2.is_empty());
}

#[test]
fn test_optimization_result_with_backups() {
    let result: OptimizationResult = (
        vec![],
        vec![],
        vec![
            (PathBuf::from("/path/backup1"), "content1".to_string()),
            (PathBuf::from("/path/backup2"), "content2".to_string()),
        ],
    );
    assert!(result.0.is_empty());
    assert!(result.1.is_empty());
    assert_eq!(result.2.len(), 2);
}

#[test]
fn test_optimization_result_complete() {
    let result: OptimizationResult = (
        vec!["change".to_string()],
        vec!["file.toml".to_string()],
        vec![(PathBuf::from("/backup"), "content".to_string())],
    );
    assert_eq!(result.0.len(), 1);
    assert_eq!(result.1.len(), 1);
    assert_eq!(result.2.len(), 1);
}

#[test]
fn test_build_workflow_can_be_created() {
    let workflow = BuildWorkflow::new("/tmp");
    assert_eq!(workflow.project_root, "/tmp");
}

#[test]
fn test_build_result_debug_format() {
    let result = build_result(vec!["test".to_string()], 1000, 800, None, None, false, vec![]);
    let debug_str = format!("{:?}", result);
    assert!(debug_str.contains("BuildResult"));
}

#[test]
fn test_build_result_all_fields() {
    let result = build_result(
        vec!["opt-level=z".to_string(), "lto=true".to_string()],
        5000,
        3000,
        Some(true),
        Some(4000),
        true,
        vec!["Cargo.toml".to_string()],
    );
    assert_eq!(result.cargo_changes.len(), 2);
    assert_eq!(result.metrics.before_bytes, 5000);
    assert_eq!(result.metrics.after_bytes, 3000);
    assert_eq!(result.budget_check_passed, Some(true));
    assert_eq!(result.budget_threshold, Some(4000));
    assert!(result.dry_run);
    assert_eq!(result.dry_run_files.len(), 1);
}

#[test]
fn test_optimization_result_type_alias() {
    let _result: OptimizationResult = (
        vec!["change".to_string()],
        vec!["file.toml".to_string()],
        vec![(PathBuf::from("/backup"), "content".to_string())],
    );
}

#[test]
fn test_check_budget_outcomes() {
    let wf = BuildWorkflow::new(".");
    let m = SizeMetrics {
        before_bytes: 5000,
        after_bytes: 2048,
    };
    assert_eq!(wf.check_budget(None, &m), Ok((None, None)));
    assert_eq!(wf.check_budget(Some(2), &m), Ok((Some(true), Some(2048))));
    assert_eq!(
        wf.check_budget(Some(1), &m),
        Err(WorkflowError::BudgetExceeded(2048, 1024))
    );
    assert_eq!(
        WorkflowError::BudgetExceeded(2048, 1024).to_string(),
        "WASM bundle size (2048 bytes) exceeds maximum (1024 bytes)"
    );
}
