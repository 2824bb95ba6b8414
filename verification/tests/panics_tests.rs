use wasm_slim::analyzer::panic_advisor::{build_results, generate_recommendations};
use wasm_slim::analyzer::panic_report::group_by_file;
use wasm_slim::analyzer::panics::{DetectedPanic, PanicDetectionError, PanicDetector, PanicPattern};

#[test]
fn test_panic_pattern_name_returns_correct_names() {
    assert_eq!(PanicPattern::Unwrap.name(), "unwrap()");
    assert_eq!(PanicPattern::Expect.name(), "expect()");
    assert_eq!(PanicPattern::Index.name(), "array[index]");
    assert_eq!(PanicPattern::Division.name(), "division operator");
}

#[test]
fn test_panic_pattern_alternative_returns_suggestions() {
    assert_eq!(PanicPattern::Unwrap.alternative(), "match or if let");
    assert_eq!(PanicPattern::Index.alternative(), ".get(index)");
    assert_eq!(
        PanicPattern::Division.alternative(),
        ".checked_div() or .checked_rem()"
    );
}

#[test]
fn test_panic_pattern_size_per_occurrence_returns_nonzero() {
    assert!(PanicPattern::Unwrap.size_per_occurrence() > 0);
    assert!(PanicPattern::Expect.size_per_occurrence() > PanicPattern::Unwrap.size_per_occurrence());
    assert!(PanicPattern::PanicMacro.size_per_occurrence() > 1000);
}

#[test]
fn test_scan_with_regex_detects_panic_macro() {
    let detector = PanicDetector::new(".");
    let code = r#"
            fn main() {
                panic!("error");
            }
        "#;
    let panics = detector.scan_with_regex(code, "test.rs");
    assert!(panics.iter().any(|p| p.pattern == PanicPattern::PanicMacro));
}

#[test]
fn test_scan_with_regex_detects_assert_macro() {
    let detector = PanicDetector::new(".");
    let code = r#"
            fn main() {
                assert!(x > 0);
                debug_assert!(y > 0);  // Should NOT be detected
            }
        "#;
    let panics = detector.scan_with_regex(code, "test.rs");
    let assert_panics: Vec<_> = panics
        .iter()
        .filter(|p| p.pattern == PanicPattern::AssertMacro)
        .collect();
    assert_eq!(assert_panics.len(), 1);
}

#[test]
fn test_scan_with_regex_reports_lines_and_snippets() {
    let detector = PanicDetector::new(".");
    let code = "fn f() {\n    assert! (a);\n  panic! (\"x\")\n}\n";
    let panics = detector.scan_with_regex(code, "src/f.rs");
    assert_eq!(panics.len(), 2);
    assert_eq!(panics[0].pattern, PanicPattern::PanicMacro);
    assert_eq!(panics[0].line, 3);
    assert_eq!(panics[0].snippet.as_deref(), Some("panic! (\"x\")"));
    assert_eq!(panics[0].file, "src/f.rs");
    assert_eq!(panics[1].pattern, PanicPattern::AssertMacro);
    assert_eq!(panics[1].line, 2);
    assert!(detector.scan_with_regex("let x = 1;", "a.rs").is_empty());
}

#[test]
fn test_generate_recommendations_critical_level() {
    let by_pattern = vec![(PanicPattern::Unwrap, 150)];
    let recs = generate_recommendations(150, &by_pattern, 120);
    assert!(!recs.is_empty());
    assert!(recs[0].contains("[P0]"));
    assert!(recs[0].contains("Critical"));
}

#[test]
fn test_generate_recommendations_low_level() {
    let by_pattern = vec![(PanicPattern::Unwrap, 5)];
    let recs = generate_recommendations(5, &by_pattern, 4);
    assert!(!recs.is_empty());
    assert!(recs[0].contains("[P3]"));
    assert!(recs[0].contains("Low"));
}

#[test]
fn test_generate_recommendations_exact_text() {
    let by_pattern = vec![(PanicPattern::Unwrap, 60), (PanicPattern::Index, 5)];
    let recs = generate_recommendations(65, &by_pattern, 52);
    assert_eq!(
        recs[0],
        "[P1] High: 65 panic sites detected (~52 KB). Consider refactoring hot paths."
    );
    assert_eq!(
        recs[1],
        "  → Replace 60 unwrap() calls with match or if let (save ~46 KB)"
    );
    assert_eq!(recs[2], "");
    assert_eq!(recs[3], "Quick wins:");
    assert_eq!(recs.len(), 8);

    let recs = generate_recommendations(20, &vec![(PanicPattern::Division, 20)], 11);
    assert_eq!(
        recs,
        vec![
            "[P2] Moderate: 20 panic sites detected (~11 KB). Optimize critical sections.".to_string(),
            "  → Replace 20 division operator calls with .checked_div() or .checked_rem() (save ~11 KB)".to_string(),
        ]
    );
}

fn site(file: &str, line: usize, pattern: PanicPattern) -> DetectedPanic {
    DetectedPanic {
        file: file.to_string(),
        line,
        pattern,
        snippet: None,
    }
}

#[test]
fn test_group_by_file_counts_correctly() {
    let panics = vec![
        site("src/main.rs", 10, PanicPattern::Unwrap),
        site("src/main.rs", 20, PanicPattern::Expect),
        site("src/lib.rs", 5, PanicPattern::Index),
    ];
    let grouped = group_by_file(&panics);
    let get = |f: &str| grouped.iter().find(|(g, _)| g == f).map(|(_, n)| *n);
    assert_eq!(get("src/main.rs"), Some(2));
    assert_eq!(get("src/lib.rs"), Some(1));
    assert_eq!(grouped.len(), 2);
}

#[test]
fn test_build_results_counts_and_sizes() {
    let panics = vec![
        site("a.rs", 1, PanicPattern::Unwrap),
        site("a.rs", 2, PanicPattern::Expect),
        site("b.rs", 3, PanicPattern::Expect),
        site("b.rs", 4, PanicPattern::PanicMacro),
    ];
    let r = build_results(panics);
    assert_eq!(r.total_panics, 4);
    assert_eq!(r.panic_sites.len(), 4);
    assert_eq!(r.by_pattern[0], (PanicPattern::Expect, 2));
    assert_eq!(r.by_pattern.len(), 3);
    assert_eq!(r.estimated_size_kb, (800 + 1200 + 1200 + 1500) / 1024);
    assert_eq!(
        r.recommendations,
        vec!["[P3] Low: 4 panic sites detected (~4 KB). Well optimized!".to_string()]
    );
}

#[test]
fn test_of_method_and_errors() {
    assert_eq!(PanicPattern::of_method("unwrap"), Some(PanicPattern::Unwrap));
    assert_eq!(PanicPattern::of_method("expect"), Some(PanicPattern::Expect));
    assert_eq!(PanicPattern::of_method("unwrap_or"), None);
    assert_eq!(PanicDetectionError::Io("x".to_string()).to_string(), "I/O error: x");
}
