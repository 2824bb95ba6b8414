use wasm_slim::analyzer::allocator::AllocatorDetector;
use wasm_slim::analyzer::applicator::{DepEntry, EntryKeys, FeaturesKey, FixAction, SuggestionApplicator};
use wasm_slim::analyzer::deps::{DependencyAnalysisError, DependencyAnalyzer, PackageInfo};
use wasm_slim::analyzer::deps_types::{DependencyIssue, DependencyReport, IssueSeverity};
use wasm_slim::analyzer::features::{parse_feature_tree, FeatureAnalyzer, FeaturePackage};
use wasm_slim::analyzer::manifest::{apply_action, read_entry, ApplyError};
use wasm_slim::analyzer::heavy_deps::AlternativeType;

fn names(v: &[&str]) -> Vec<String> {
    v.iter().map(|s| s.to_string()).collect()
}

#[test]
fn test_check_allocator_optimization_with_custom_allocator_returns_none() {
    let detector = AllocatorDetector::new(".");
    let result = detector.check_allocator_for_packages(&names(&["wee_alloc", "regex"]));
    assert!(result.is_none());
}

#[test]
fn test_check_allocator_optimization_with_few_deps_returns_none() {
    let detector = AllocatorDetector::new(".");
    let result = detector.check_allocator_for_packages(&names(&["regex", "serde_json"]));
    assert!(result.is_none());
}

#[test]
fn test_check_allocator_optimization_with_many_deps_returns_issue() {
    let detector = AllocatorDetector::new(".");
    let result = detector.check_allocator_for_packages(&names(&[
        "regex",
        "serde_json",
        "toml",
        "syn",
        "clap",
        "html5ever",
    ]));
    assert!(result.is_some());
    let issue = result.unwrap();
    assert_eq!(issue.package, "wasm-allocator");
    assert_eq!(issue.severity, IssueSeverity::Medium);
    assert!(issue.suggestion.contains("wee_alloc"));
    assert!(issue.size_impact_kb.is_some());
    assert_eq!(issue.savings_percent, Some(3));
    assert_eq!(
        issue.issue,
        "No custom allocator detected. Project has 6 allocation-heavy dependencies using default system allocator."
    );
}

#[test]
fn test_allocator_detection_recognizes_all_variants() {
    let detector = AllocatorDetector::new(".");
    assert!(detector
        .check_allocator_for_packages(&names(&["lol_alloc"]))
        .is_none());
    assert!(AllocatorDetector::is_custom_allocator("wee_alloc"));
    assert!(AllocatorDetector::is_custom_allocator("lol_alloc"));
}

#[test]
fn test_count_allocation_heavy_deps_accuracy() {
    let detector = AllocatorDetector::new(".");
    let count =
        detector.count_allocation_heavy_deps(&names(&["regex", "serde", "serde_json", "anyhow"]));
    assert_eq!(count, 2);
}

fn keys(has_default_features: bool, features: FeaturesKey, version: Option<&str>) -> EntryKeys {
    EntryKeys {
        has_default_features,
        features,
        version: version.map(|s| s.to_string()),
    }
}

const PACKAGE_HEADER: &str = "\n[package]\nname = \"test-crate\"\nversion = \"0.1.0\"\n";

fn with_deps(deps: &str) -> String {
    format!("{}\n{}", PACKAGE_HEADER, deps)
}

/// Reads the entry of `package` from `content`, plans the feature
/// minimization and carries it out on the text.
fn minimize(content: &str, package: &str) -> (bool, String) {
    let applicator = SuggestionApplicator::new(".");
    let entry = read_entry(content, package).expect("parses");
    let (changed, action) = applicator.plan_feature_minimization(package, &entry);
    (changed, apply_action(content, package, &action).expect("parses"))
}

fn wasm_fix(content: &str, package: &str) -> (bool, String) {
    let applicator = SuggestionApplicator::new(".");
    let entry = read_entry(content, package).expect("parses");
    let (changed, action) = applicator.plan_wasm_fix(package, &entry);
    (changed, apply_action(content, package, &action).expect("parses"))
}

#[test]
fn test_apply_feature_minimization_adds_default_features_false() {
    let (changed, updated) = minimize(&with_deps("[dependencies]\nregex = \"1.10\"\n"), "regex");
    assert!(changed);
    assert!(updated.contains("default-features = false"));
    let (changed, updated) = minimize(&with_deps("[dependencies]\nlopdf = \"0.32\"\n"), "lopdf");
    assert!(changed);
    assert!(updated.contains("pom_parser"));
}

#[test]
fn test_apply_wasm_fix_for_getrandom_adds_wasm_js_feature() {
    let (changed, updated) = wasm_fix(&with_deps("[dependencies]\ngetrandom = \"0.3\"\n"), "getrandom");
    assert!(changed);
    assert!(updated.contains("wasm_js"));
}

#[test]
fn test_apply_feature_minimization_with_no_dependencies_table_returns_false() {
    let content = PACKAGE_HEADER.to_string();
    let (changed, updated) = minimize(&content, "regex");
    assert!(!changed);
    assert_eq!(updated, content);
}

#[test]
fn test_apply_feature_minimization_with_nonexistent_package_returns_false() {
    let (changed, _) = minimize(&with_deps("[dependencies]\nother-package = \"1.0\"\n"), "non-existent");
    assert!(!changed);
}

#[test]
fn test_apply_feature_minimization_with_existing_default_features_false_returns_false() {
    let content = with_deps("[dependencies]\nregex = { version = \"1.10\", default-features = false }\n");
    let (changed, updated) = minimize(&content, "regex");
    assert!(!changed);
    assert!(updated.contains("default-features = false"));
    assert_eq!(updated.matches("default-features").count(), 1);
}

#[test]
fn test_apply_wasm_fix_with_no_dependencies_table_returns_false() {
    let (changed, _) = wasm_fix(PACKAGE_HEADER, "getrandom");
    assert!(!changed);
}

#[test]
fn test_apply_wasm_fix_with_nonexistent_package_returns_false() {
    let (changed, _) = wasm_fix(&with_deps("[dependencies]\nother-package = \"1.0\"\n"), "getrandom");
    assert!(!changed);
}

#[test]
fn test_apply_wasm_fix_with_existing_wasm_js_feature_does_not_duplicate() {
    let content = with_deps("[dependencies]\ngetrandom = { version = \"0.3\", features = [\"wasm_js\"] }\n");
    let (_, updated) = wasm_fix(&content, "getrandom");
    assert_eq!(updated.matches("wasm_js").count(), 1);

    let content = with_deps("[dependencies.getrandom]\nversion = \"0.2.15\"\nfeatures = [\"std\"]\n");
    let (changed, updated) = wasm_fix(&content, "getrandom");
    assert!(changed);
    assert!(updated.contains("features = [\"std\", \"js\"]"), "{}", updated);
}

#[test]
fn test_apply_feature_minimization_with_inline_table_converts_to_regular_table() {
    let (changed, updated) = minimize(&with_deps("[dependencies]\nregex = { version = \"1.10\" }\n"), "regex");
    assert!(changed, "Inline table format should now be supported");
    assert!(!updated.contains("{ version = \"1.10\" }"), "Should convert from inline table");
    assert!(updated.contains("default-features = false"), "Should add default-features");
    assert!(updated.contains("version = \"1.10\""), "Should preserve version");
}

#[test]
fn test_apply_feature_minimization_with_multiline_table_adds_default_features() {
    let (changed, updated) = minimize(&with_deps("[dependencies.regex]\nversion = \"1.10\"\n"), "regex");
    assert!(changed);
    assert!(updated.contains("default-features = false"));
}

#[test]
fn test_apply_suggestions_with_dry_run_does_not_modify_file() {
    let content = with_deps("[dependencies]\nregex = \"1.10\"\n");
    let report = DependencyReport { total_deps: 1, direct_deps: 1, issues: vec![], duplicates: vec![] };
    let (edited, fixed) = SuggestionApplicator::new(".").apply_fixes_to_manifest(&content, &report).unwrap();
    assert_eq!(edited, content);
    assert!(fixed.is_empty());
}

#[test]
fn test_apply_fixes_to_manifest_edits_and_counts() {
    let content = with_deps("[dependencies]\nregex = \"1.10\"\ngetrandom = \"0.2\"\nserde = \"1\"\n");
    let issue = |p: &str| DependencyIssue {
        package: p.to_string(),
        version: "1".to_string(),
        severity: IssueSeverity::Medium,
        issue: String::new(),
        suggestion: String::new(),
        size_impact_kb: None,
        savings_percent: None,
    };
    let report = DependencyReport {
        total_deps: 3,
        direct_deps: 3,
        issues: vec![issue("regex"), issue("getrandom"), issue("regex")],
        duplicates: vec![],
    };
    let (edited, fixed) = SuggestionApplicator::new(".").apply_fixes_to_manifest(&content, &report).unwrap();
    assert_eq!(fixed.len(), 2);
    assert_eq!(fixed[0].0, "regex");
    assert_eq!(fixed[1].0, "getrandom");
    assert!(edited.contains("[dependencies.regex"), "{}", edited);
    assert!(edited.contains("default-features = false"));
    assert!(edited.contains("features = [\"js\"]"), "{}", edited);
    assert!(edited.contains("serde = \"1\""));
}

#[test]
fn test_apply_fixes_to_manifest_rejects_invalid_toml() {
    let report = DependencyReport { total_deps: 0, direct_deps: 0, issues: vec![], duplicates: vec![] };
    let r = SuggestionApplicator::new(".").apply_fixes_to_manifest("[dependencies\nregex = ", &report);
    assert_eq!(r.unwrap_err(), ApplyError::Parse);
}

#[test]
fn test_plan_fix_by_alternative_kind() {
    let applicator = SuggestionApplicator::new(".");
    let entry = DepEntry::Version("1".to_string());
    assert!(applicator.plan_fix("regex", AlternativeType::FeatureMinimization, &entry).0);
    assert!(!applicator.plan_fix("regex", AlternativeType::Replacement, &entry).0);
    assert!(applicator.plan_fix("getrandom", AlternativeType::WasmFix, &entry).0);
}

fn pkg(name: &str, version: &str, member: bool) -> PackageInfo {
    PackageInfo {
        name: name.to_string(),
        version: version.to_string(),
        workspace_member: member,
    }
}

#[test]
fn test_analyze_packages_reports_heavy_crates_and_duplicates() {
    let analyzer = DependencyAnalyzer::new(".");
    let packages = vec![
        pkg("my-app", "0.1.0", true),
        pkg("regex", "1.10.2", false),
        pkg("syn", "2.0.1", false),
        pkg("syn", "1.0.109", false),
        pkg("serde", "1.0.0", false),
    ];
    let report = analyzer
        .analyze_packages(&packages, Some(5), Some(2))
        .unwrap();
    assert_eq!(report.total_deps, 5);
    assert_eq!(report.direct_deps, 2);
    assert!(!report.issues.is_empty());
    assert!(report.issues.iter().all(|i| i.package == "regex"));
    assert_eq!(report.issues[0].version, "1.10.2");
    assert_eq!(
        report.duplicates,
        vec![(
            "syn".to_string(),
            vec!["1.0.109".to_string(), "2.0.1".to_string()]
        )]
    );
}

#[test]
fn test_analyze_packages_errors() {
    let analyzer = DependencyAnalyzer::new(".");
    let packages = vec![pkg("regex", "1.0.0", false)];
    assert_eq!(
        analyzer.analyze_packages(&packages, None, Some(1)).err(),
        Some(DependencyAnalysisError::NoResolution)
    );
    assert_eq!(
        analyzer.analyze_packages(&packages, Some(1), None).err(),
        Some(DependencyAnalysisError::NoRootPackage)
    );
}

#[test]
fn test_fix_targets_take_best_alternative_per_package() {
    let applicator = SuggestionApplicator::new(".");
    let issue = |p: &str| DependencyIssue {
        package: p.to_string(),
        version: "1".to_string(),
        severity: IssueSeverity::Low,
        issue: String::new(),
        suggestion: String::new(),
        size_impact_kb: None,
        savings_percent: None,
    };
    let report = DependencyReport {
        total_deps: 3,
        direct_deps: 3,
        issues: vec![issue("getrandom"), issue("not-a-known-crate"), issue("getrandom")],
        duplicates: Vec::new(),
    };
    let targets = applicator.fix_targets(&report);
    assert_eq!(targets.len(), 1);
    assert_eq!(targets[0].0, "getrandom");
    assert_eq!(targets[0].1, AlternativeType::WasmFix);
}

#[test]
fn test_parse_feature_tree_pairs() {
    let out = "regex v1.10.2 perf,unicode\nserde v1.0.0 default,derive,std\nlonely\nregex v1.10.2 unicode,std\n";
    let pairs = parse_feature_tree(out);
    let p = |a: &str, b: &str| (a.to_string(), b.to_string());
    assert_eq!(
        pairs,
        vec![
            p("regex", "perf"),
            p("regex", "unicode"),
            p("serde", "default"),
            p("serde", "derive"),
            p("serde", "std"),
            p("regex", "std"),
        ]
    );
}

#[test]
fn test_parse_feature_tree_keeps_every_listed_feature() {
    let pairs = parse_feature_tree("regex v1.10.0 perf,unicode\nopenssl v0.10.0 vendored, ,v2\nbare v1.0.0\n");
    let p = |a: &str, b: &str| (a.to_string(), b.to_string());
    assert_eq!(
        pairs,
        vec![p("regex", "perf"), p("regex", "unicode"), p("openssl", "vendored"), p("openssl", "v2")]
    );
}

#[test]
fn test_analyze_feature_packages() {
    let analyzer = FeatureAnalyzer::new(".");
    let packages = vec![
        FeaturePackage {
            name: "regex".to_string(),
            workspace_member: false,
            features: vec![("default".to_string(), vec!["std".to_string()])],
        },
        FeaturePackage {
            name: "app".to_string(),
            workspace_member: true,
            features: vec![],
        },
    ];
    let p = |a: &str, b: &str| (a.to_string(), b.to_string());
    let pairs = vec![p("regex", "default"), p("regex", "unicode"), p("app", "test-utils")];
    let r = analyzer.analyze_packages(&packages, &pairs);
    assert_eq!(r.total_features, 2);
    assert_eq!(r.unused_features.len(), 2);
    assert_eq!(r.unused_features[0].feature, "default");
    assert_eq!(r.unused_features[0].enabled_by, "implicit");
    assert_eq!(r.unused_features[1].feature, "unicode");
    assert_eq!(r.unused_features[1].confidence, "High");
    assert_eq!(r.estimated_savings_kb, 50 + 300);
    assert!(!r.recommendations.is_empty());
}
