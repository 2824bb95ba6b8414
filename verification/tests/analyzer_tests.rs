use wasm_slim::analyzer::allocator::AllocatorDetector;
use wasm_slim::analyzer::applicator::SuggestionApplicator;
use wasm_slim::analyzer::asset_visitor::AssetVisitor;
use wasm_slim::analyzer::bloat_report::{format_bytes as bloat_format_bytes, truncate_symbol};
use wasm_slim::analyzer::deps::DependencyAnalyzer;
use wasm_slim::analyzer::deps_types::{DependencyIssue, DependencyReport, IssueSeverity};
use wasm_slim::analyzer::feature_report::truncate as feature_truncate;
use wasm_slim::analyzer::features::{FeatureAnalyzer, UnusedFeature};
use wasm_slim::analyzer::heavy_deps::{
    get_heavy_dependency_info, init_heavy_deps_database, AlternativeType,
};
use wasm_slim::analyzer::report_utils::{format_bytes, format_number, truncate_str};
use wasm_slim::analyzer::twiggy_report::format_number as twiggy_format_number;

#[test]
fn test_is_allocation_heavy_detects_known_crates() {
    assert!(AllocatorDetector::is_allocation_heavy("regex"));
    assert!(AllocatorDetector::is_allocation_heavy("serde_json"));
    assert!(AllocatorDetector::is_allocation_heavy("syn"));
    assert!(AllocatorDetector::is_allocation_heavy("clap"));
    assert!(!AllocatorDetector::is_allocation_heavy("unknown-crate"));
}

#[test]
fn test_estimate_allocator_savings_scales_with_deps() {
    let detector = AllocatorDetector::new(".");

    let (min_5, max_5) = detector.estimate_allocator_savings(5);
    assert!(min_5 >= 10);
    assert!(max_5 <= 40);
    assert!(min_5 < max_5);

    let (min_20, max_20) = detector.estimate_allocator_savings(20);
    assert!(min_20 > min_5);
    assert!(max_20 > max_5);

    let (min_100, max_100) = detector.estimate_allocator_savings(100);
    assert!(min_100 <= 50);
    assert!(max_100 <= 100);
}

#[test]
fn test_get_minimal_features_with_known_packages_returns_features() {
    let applicator = SuggestionApplicator::new(".");
    assert_eq!(
        applicator.get_minimal_features("lopdf"),
        Some(vec!["pom_parser"])
    );
    assert_eq!(applicator.get_minimal_features("image"), Some(vec!["png"]));
    assert_eq!(applicator.get_minimal_features("unknown-package"), None);
}

#[test]
fn test_get_wasm_features_with_known_packages_returns_features() {
    let applicator = SuggestionApplicator::new(".");
    assert_eq!(
        applicator.get_wasm_features("getrandom", None),
        Some(vec!["wasm_js"])
    );
    assert_eq!(
        applicator.get_wasm_features("getrandom", Some("0.3")),
        Some(vec!["wasm_js"])
    );
    assert_eq!(
        applicator.get_wasm_features("getrandom", Some("0.2")),
        Some(vec!["js"])
    );
    assert_eq!(
        applicator.get_wasm_features("getrandom", Some("^0.2")),
        Some(vec!["js"])
    );
    assert_eq!(applicator.get_wasm_features("unknown-package", None), None);
}

#[test]
fn test_extract_string_literal_valid_strings_extracts_content() {
    assert_eq!(
        AssetVisitor::extract_string_literal(r#""path/to/file.png""#),
        Some("path/to/file.png".to_string())
    );
    assert_eq!(
        AssetVisitor::extract_string_literal(r#"  "file.txt"  "#),
        Some("file.txt".to_string())
    );
}

#[test]
fn test_extract_string_literal_invalid_formats_returns_none() {
    assert_eq!(AssetVisitor::extract_string_literal(""), None);
    assert_eq!(AssetVisitor::extract_string_literal(r#""""#), None);
    assert_eq!(AssetVisitor::extract_string_literal("   "), None);
}

#[test]
fn test_format_bytes_converts_to_readable_units() {
    assert_eq!(bloat_format_bytes(500), "500 B");
    assert_eq!(bloat_format_bytes(1536), "1.50 KB");
    assert_eq!(bloat_format_bytes(1572864), "1.50 MB");
}

#[test]
fn test_truncate_symbol_with_long_name_adds_ellipsis() {
    assert_eq!(truncate_symbol("short", 10), "short");
    assert_eq!(
        truncate_symbol("very_long_symbol_name_that_exceeds_limit", 20),
        "very_long_symbol_..."
    );
}

#[test]
fn test_determine_severity_edge_cases() {
    let analyzer = DependencyAnalyzer::new(".");
    assert_eq!(
        analyzer.determine_severity(Some((30, 30))),
        IssueSeverity::Critical
    );
    assert_eq!(analyzer.determine_severity(Some((0, 0))), IssueSeverity::Low);
    assert_eq!(
        analyzer.determine_severity(Some((100, 200))),
        IssueSeverity::Critical
    );
}

#[test]
fn test_determine_severity_returns_correct_level_for_size_ranges() {
    let analyzer = DependencyAnalyzer::new(".");
    assert_eq!(
        analyzer.determine_severity(Some((30, 40))),
        IssueSeverity::Critical
    );
    assert_eq!(
        analyzer.determine_severity(Some((20, 25))),
        IssueSeverity::High
    );
    assert_eq!(
        analyzer.determine_severity(Some((10, 15))),
        IssueSeverity::Medium
    );
    assert_eq!(analyzer.determine_severity(Some((5, 8))), IssueSeverity::Low);
    assert_eq!(analyzer.determine_severity(None), IssueSeverity::Low);
}

#[test]
fn test_issue_severity_display_format() {
    assert_eq!(IssueSeverity::Critical.to_string(), "P0");
    assert_eq!(IssueSeverity::High.to_string(), "P1");
    assert_eq!(IssueSeverity::Medium.to_string(), "P2");
    assert_eq!(IssueSeverity::Low.to_string(), "P3");
}

#[test]
fn test_issue_severity_ordering() {
    assert!(IssueSeverity::Critical < IssueSeverity::High);
    assert!(IssueSeverity::High < IssueSeverity::Medium);
    assert!(IssueSeverity::Medium < IssueSeverity::Low);
}

fn issue(package: &str, severity: IssueSeverity, size: Option<(u32, u32)>, pct: Option<u8>) -> DependencyIssue {
    DependencyIssue {
        package: package.to_string(),
        version: "1.0".to_string(),
        severity,
        issue: "test".to_string(),
        suggestion: "test".to_string(),
        size_impact_kb: size,
        savings_percent: pct,
    }
}

#[test]
fn test_dependency_report_issues_by_severity() {
    let report = DependencyReport {
        total_deps: 10,
        direct_deps: 5,
        issues: vec![
            issue("test1", IssueSeverity::Critical, None, None),
            issue("test2", IssueSeverity::Low, None, None),
        ],
        duplicates: Vec::new(),
    };

    let critical = report.issues_by_severity(IssueSeverity::Critical);
    assert_eq!(critical.len(), 1);
    assert_eq!(critical[0].package, "test1");
}

#[test]
fn test_dependency_report_total_estimated_savings() {
    let report = DependencyReport {
        total_deps: 10,
        direct_deps: 5,
        issues: vec![
            issue("test1", IssueSeverity::Critical, Some((100, 200)), Some(50)),
            issue("test2", IssueSeverity::Low, Some((50, 100)), Some(20)),
        ],
        duplicates: Vec::new(),
    };

    let (min, max) = report.total_estimated_savings_kb();
    assert_eq!(min, 150);
    assert_eq!(max, 300);
}

#[test]
fn feature_report_test_truncate_with_long_string_adds_ellipsis() {
    assert_eq!(feature_truncate("short", 10), "short");
    assert_eq!(feature_truncate("very_long_string_here", 10), "very_lo...");
}

#[test]
fn test_is_commonly_unused_feature_identifies_known_features() {
    let analyzer = FeatureAnalyzer::new(".");
    assert!(analyzer.is_commonly_unused_feature("regex", "unicode"));
    assert!(analyzer.is_commonly_unused_feature("tokio", "fs"));
    assert!(!analyzer.is_commonly_unused_feature("serde", "derive"));
}

#[test]
fn test_estimate_feature_impact_returns_size_estimate() {
    let analyzer = FeatureAnalyzer::new(".");
    let impact = analyzer.estimate_feature_impact("regex", "unicode");
    assert!(impact > 100);
    let default_impact = analyzer.estimate_feature_impact("unknown", "default");
    assert!(default_impact > 0);
}

#[test]
fn test_get_confidence_level_returns_correct_level() {
    let analyzer = FeatureAnalyzer::new(".");
    assert_eq!(analyzer.get_confidence_level("regex", "unicode"), "High");
    assert_eq!(analyzer.get_confidence_level("unknown", "default"), "Medium");
}

#[test]
fn test_generate_recommendations_creates_actionable_suggestions() {
    let analyzer = FeatureAnalyzer::new(".");
    let unused = vec![UnusedFeature {
        package: "serde".to_string(),
        feature: "default".to_string(),
        enabled_by: "implicit".to_string(),
        estimated_impact_kb: 50,
        confidence: "Medium".to_string(),
    }];
    let recs = analyzer.generate_recommendations(&unused);
    assert!(!recs.is_empty());
    assert!(recs[0].contains("default-features = false"));
}

#[test]
fn test_get_heavy_dependency_info_swc_core_has_split_alternatives() {
    let swc = get_heavy_dependency_info("swc_core").expect("should have swc_core info");
    assert!(!swc.alternatives.is_empty());
    assert!(swc
        .alternatives
        .iter()
        .any(|a| a.alt_type == AlternativeType::Split));
}

#[test]
fn test_get_heavy_dependency_info_printpdf_has_replacement_alternatives() {
    let printpdf = get_heavy_dependency_info("printpdf").expect("should have printpdf info");
    assert!(printpdf
        .alternatives
        .iter()
        .any(|a| a.alt_type == AlternativeType::Replacement));
    assert!(printpdf
        .alternatives
        .iter()
        .any(|a| a.crate_name == Some("pdf-writer")));
}

#[test]
fn test_get_heavy_dependency_info_lopdf_has_lighter_alternative() {
    let lopdf = get_heavy_dependency_info("lopdf").expect("should have lopdf info");
    assert!(!lopdf.alternatives.is_empty());
    assert!(lopdf
        .alternatives
        .iter()
        .any(|a| a.alt_type == AlternativeType::FeatureMinimization));
}

#[test]
fn test_get_heavy_dependency_info_tokio_has_wasm_alternative() {
    let tokio = get_heavy_dependency_info("tokio").expect("should have tokio info");
    assert!(tokio
        .alternatives
        .iter()
        .any(|a| a.alt_type == AlternativeType::WasmFix));
    assert!(tokio
        .alternatives
        .iter()
        .any(|a| a.crate_name == Some("wasm-bindgen-futures")));
}

#[test]
fn test_get_heavy_dependency_info_async_std_has_wasm_alternative() {
    let async_std = get_heavy_dependency_info("async-std").expect("should have async-std info");
    assert!(async_std
        .alternatives
        .iter()
        .any(|a| a.alt_type == AlternativeType::WasmFix));
    assert!(async_std
        .alternatives
        .iter()
        .any(|a| a.crate_name == Some("wasm-bindgen-futures")));
}

#[test]
fn test_get_heavy_dependency_info_rustybuzz_can_be_made_optional() {
    let rustybuzz = get_heavy_dependency_info("rustybuzz").expect("should have rustybuzz info");
    assert!(rustybuzz
        .alternatives
        .iter()
        .any(|a| a.alt_type == AlternativeType::Optional));
    assert!(rustybuzz
        .alternatives
        .iter()
        .any(|a| a.savings_percent == 100));
}

#[test]
fn test_get_heavy_dependency_info_chrono_has_lighter_alternatives() {
    let chrono = get_heavy_dependency_info("chrono").expect("should have chrono info");
    assert!(chrono
        .alternatives
        .iter()
        .any(|a| a.alt_type == AlternativeType::Replacement));
}

#[test]
fn test_get_heavy_dependency_info_regex_supports_feature_minimization() {
    let regex = get_heavy_dependency_info("regex").expect("should have regex info");
    assert!(regex
        .alternatives
        .iter()
        .any(|a| a.alt_type == AlternativeType::FeatureMinimization));
    assert!(regex.alternatives.iter().any(|a| a.savings_percent >= 50));
}

#[test]
fn test_get_heavy_dependency_info_image_supports_feature_minimization() {
    let image = get_heavy_dependency_info("image").expect("should have image info");
    assert!(image
        .alternatives
        .iter()
        .any(|a| a.alt_type == AlternativeType::FeatureMinimization));
}

const ALL_DEPS: [&str; 10] = [
    "swc_core",
    "printpdf",
    "lopdf",
    "tokio",
    "async-std",
    "rustybuzz",
    "chrono",
    "regex",
    "image",
    "getrandom",
];

#[test]
fn test_database_all_alternative_types_represented() {
    let mut found_types = std::collections::HashSet::new();
    for dep in ALL_DEPS {
        let info = get_heavy_dependency_info(dep).unwrap();
        for alt in &info.alternatives {
            found_types.insert(alt.alt_type);
        }
    }
    assert!(found_types.contains(&AlternativeType::FeatureMinimization));
    assert!(found_types.contains(&AlternativeType::WasmFix));
}

#[test]
fn test_database_size_ranges_consistent_with_savings() {
    for dep in ALL_DEPS {
        let info = get_heavy_dependency_info(dep).unwrap();
        let original_min = info.size_kb.0;
        for alt in &info.alternatives {
            if let Some((alt_min, alt_max)) = alt.size_kb {
                assert!(
                    alt_max <= original_min * 2,
                    "{} alternative size ({}-{}) not significantly smaller than original ({})",
                    dep,
                    alt_min,
                    alt_max,
                    original_min
                );
            }
        }
    }
}

#[test]
fn test_database_bundle_percentages_within_valid_range() {
    for dep in ALL_DEPS {
        let info = get_heavy_dependency_info(dep).unwrap();
        if let Some((min_pct, max_pct)) = info.bundle_percent {
            assert!(min_pct > 0 && min_pct <= 100, "{} min bundle % must be 1-100", dep);
            assert!(
                max_pct >= min_pct && max_pct <= 100,
                "{} max bundle % must be >= min and <= 100",
                dep
            );
        }
    }
}

#[test]
fn test_database_initialization_has_entries() {
    let db = init_heavy_deps_database();
    assert!(db.len() >= 10, "Database should have at least 10 entries");
}

#[test]
fn test_format_bytes_with_bytes_shows_b_unit() {
    assert_eq!(format_bytes(512), "512 B");
    assert_eq!(format_bytes(0), "0 B");
    assert_eq!(format_bytes(1023), "1023 B");
}

#[test]
fn test_format_bytes_with_kilobytes_shows_kb_unit() {
    assert_eq!(format_bytes(1024), "1.00 KB");
    assert_eq!(format_bytes(2048), "2.00 KB");
    assert_eq!(format_bytes(1024 * 512), "512.00 KB");
}

#[test]
fn test_format_bytes_with_megabytes_shows_mb_unit() {
    assert_eq!(format_bytes(1024 * 1024), "1.00 MB");
    assert_eq!(format_bytes(2 * 1024 * 1024), "2.00 MB");
}

#[test]
fn test_format_bytes_with_gigabytes_shows_gb_unit() {
    assert_eq!(format_bytes(1024 * 1024 * 1024), "1.00 GB");
}

#[test]
fn test_truncate_str_short_string_returns_unchanged() {
    assert_eq!(truncate_str("short", 10), "short");
    assert_eq!(truncate_str("test", 4), "test");
}

#[test]
fn test_truncate_str_long_string_adds_ellipsis() {
    assert_eq!(truncate_str("very_long_symbol_name", 12), "very_long...");
    assert_eq!(truncate_str("abcdefghij", 8), "abcde...");
}

#[test]
fn test_truncate_str_max_len_less_than_3_handles_edge_case() {
    assert_eq!(truncate_str("test", 2), "...");
    assert_eq!(truncate_str("a", 1), "a");
}

#[test]
fn report_utils_test_format_number_adds_thousand_separators() {
    assert_eq!(format_number(1234567), "1,234,567");
    assert_eq!(format_number(1000), "1,000");
    assert_eq!(format_number(999), "999");
}

#[test]
fn twiggy_report_test_format_number_adds_thousand_separators() {
    assert_eq!(twiggy_format_number(123), "123");
    assert_eq!(twiggy_format_number(1234), "1,234");
    assert_eq!(twiggy_format_number(1234567), "1,234,567");
}

#[test]
fn test_format_number_edge_cases() {
    assert_eq!(twiggy_format_number(0), "0");
    assert_eq!(twiggy_format_number(1), "1");
    assert_eq!(twiggy_format_number(999), "999");
    assert_eq!(twiggy_format_number(1000), "1,000");
}

#[test]
fn test_format_bytes_large_values_follow_f64() {
    assert_eq!(format_bytes(u64::MAX), "17179869184.00 GB");
    assert_eq!(format_bytes(9_007_199_254_740_993), "8388608.00 GB");
    assert_eq!(format_bytes(3_226_594_181), "3.00 GB");
    assert_eq!(format_bytes(1536), "1.50 KB");
}
