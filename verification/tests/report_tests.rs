use wasm_slim::analyzer::deps_report::dependency_report_lines;
use wasm_slim::analyzer::deps_types::{DependencyIssue, DependencyReport, IssueSeverity};
use wasm_slim::analyzer::panic_advisor::generate_recommendations;
use wasm_slim::analyzer::panic_report::{rank_files, top_files};
use wasm_slim::analyzer::panics::{pattern_size_kb, PanicPattern};
use wasm_slim::analyzer::twiggy::monos::MonomorphizationGroup;
use wasm_slim::analyzer::twiggy_report::mono_summary;

fn group(name: &str, count: usize, savings: u64) -> MonomorphizationGroup {
    MonomorphizationGroup {
        function_name: name.to_string(),
        instantiation_count: count,
        total_size_bytes: savings * 2,
        avg_size_bytes: savings * 2 / count as u64,
        instantiations: vec![],
        potential_savings_bytes: savings,
    }
}

#[test]
fn test_mono_summary_totals_and_remainder() {
    let groups: Vec<MonomorphizationGroup> = (0..12).map(|i| group("f", 2 + i, 1024 * (i as u64 + 1))).collect();
    let (count, inst, kb, shown, more) = mono_summary(&groups);
    assert_eq!(count, 12);
    assert_eq!(inst, (0..12).map(|i| 2 + i).sum::<usize>());
    assert_eq!(kb, (1..=12).sum::<u64>());
    assert_eq!(shown, 10);
    assert_eq!(more, 2);
}

#[test]
fn test_mono_summary_few_groups() {
    let groups = vec![group("a", 3, 1500), group("b", 2, 600)];
    assert_eq!(mono_summary(&groups), (2, 5, 2, 2, 0));
    assert_eq!(mono_summary(&vec![]), (0, 0, 0, 0, 0));
}

fn files(v: &[(&str, usize)]) -> Vec<(String, usize)> {
    v.iter().map(|(f, c)| (f.to_string(), *c)).collect()
}

#[test]
fn test_rank_files_most_first_ties_in_order() {
    let g = files(&[("a.rs", 2), ("b.rs", 5), ("c.rs", 2), ("d.rs", 7)]);
    assert_eq!(rank_files(&g), files(&[("d.rs", 7), ("b.rs", 5), ("a.rs", 2), ("c.rs", 2)]));
}

#[test]
fn test_top_files_ten_and_remainder() {
    let g: Vec<(String, usize)> = (0..13).map(|i| (format!("f{}.rs", i), i + 1)).collect();
    let (top, more) = top_files(&g);
    assert_eq!(top.len(), 10);
    assert_eq!(top[0], ("f12.rs".to_string(), 13));
    assert_eq!(top[9], ("f3.rs".to_string(), 4));
    assert_eq!(more, 3);
    let (top, more) = top_files(&files(&[("x.rs", 1)]));
    assert_eq!(top, files(&[("x.rs", 1)]));
    assert_eq!(more, 0);
}

#[test]
fn test_pattern_size_kb() {
    assert_eq!(pattern_size_kb(PanicPattern::Unwrap, 10), 7);
    assert_eq!(pattern_size_kb(PanicPattern::PanicMacro, 1024), 1500);
}

#[test]
fn test_generate_recommendations_low_level_ignores_counts() {
    let recs = generate_recommendations(5, &vec![(PanicPattern::Unwrap, 5)], 4);
    assert_eq!(recs, vec!["[P3] Low: 5 panic sites detected (~4 KB). Well optimized!".to_string()]);
    let recs = generate_recommendations(3, &vec![(PanicPattern::PanicMacro, usize::MAX)], 1);
    assert_eq!(recs.len(), 1);
}

fn issue(package: &str, severity: IssueSeverity, impact: Option<(u32, u32)>, pct: Option<u8>) -> DependencyIssue {
    DependencyIssue {
        package: package.to_string(),
        version: "1.0.0".to_string(),
        severity,
        issue: format!("{} is heavy", package),
        suggestion: format!("replace {}", package),
        size_impact_kb: impact,
        savings_percent: pct,
    }
}

#[test]
fn test_dependency_report_lines_with_issues() {
    let report = DependencyReport {
        total_deps: 40,
        direct_deps: 5,
        issues: vec![
            issue("chrono", IssueSeverity::Medium, Some((50, 100)), Some(12)),
            issue("tokio", IssueSeverity::Critical, None, None),
        ],
        duplicates: vec![("syn".to_string(), vec!["1.0.0".to_string(), "2.0.0".to_string()])],
    };
    let lines = dependency_report_lines(&report);
    let expected: Vec<&str> = vec![
        "",
        "📦 WASM Dependency Analysis Report",
        "   → Total dependencies: 40",
        "   → Direct dependencies: 5",
        "",
        "🔍 2 Optimization Opportunities Found",
        "   → Estimated savings: 50-100 KB",
        "",
        "[P0] Critical Issues (1 found):",
        "",
        "   Package: tokio@1.0.0",
        "   Issue: tokio is heavy",
        "   Fix: replace tokio",
        "",
        "[P2] Medium Issues (1 found):",
        "",
        "   Package: chrono@1.0.0",
        "   Issue: chrono is heavy",
        "   Impact: 50-100 KB (12% of bundle)",
        "   Fix: replace chrono",
        "",
        "⚠️ Warning Duplicate Versions Detected",
        "   → syn: 1.0.0, 2.0.0",
    ];
    assert_eq!(lines, expected);
}

#[test]
fn test_dependency_report_lines_all_optimized() {
    let report = DependencyReport { total_deps: 3, direct_deps: 1, issues: vec![], duplicates: vec![] };
    assert_eq!(
        dependency_report_lines(&report),
        vec![
            "",
            "📦 WASM Dependency Analysis Report",
            "   → Total dependencies: 3",
            "   → Direct dependencies: 1",
            "",
            "✅ Great! All dependencies optimized!",
        ]
    );
}
