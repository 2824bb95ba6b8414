use wasm_slim::analyzer::asset_types::{AssetPriority, AssetType, DetectedAsset};
use wasm_slim::analyzer::asset_visitor::AssetVisitor;
use wasm_slim::analyzer::assets::{AssetDetectionError, AssetDetector};

#[test]
fn test_from_size_various_percentages_returns_correct_priorities() {
    assert_eq!(AssetPriority::from_size(600, 5000), AssetPriority::Critical);
    assert_eq!(AssetPriority::from_size(550, 4000), AssetPriority::Critical);
    assert_eq!(AssetPriority::from_size(300, 5000), AssetPriority::High);
    assert_eq!(AssetPriority::from_size(250, 3000), AssetPriority::High);
    assert_eq!(AssetPriority::from_size(150, 5000), AssetPriority::Medium);
    assert_eq!(AssetPriority::from_size(120, 3000), AssetPriority::Medium);
    assert_eq!(AssetPriority::from_size(50, 5000), AssetPriority::Low);
    assert_eq!(AssetPriority::from_size(80, 5000), AssetPriority::Low);
}

#[test]
fn test_detect_type_common_extensions_returns_correct_types() {
    assert_eq!(AssetDetector::detect_type("font.woff2"), AssetType::Font);
    assert_eq!(AssetDetector::detect_type("image.png"), AssetType::Image);
    assert_eq!(AssetDetector::detect_type("config.json"), AssetType::Data);
    assert_eq!(AssetDetector::detect_type("unknown.xyz"), AssetType::Unknown);
}

#[test]
fn test_detect_type_all_font_extensions_returns_font_type() {
    assert_eq!(AssetDetector::detect_type("font.ttf"), AssetType::Font);
    assert_eq!(AssetDetector::detect_type("font.otf"), AssetType::Font);
    assert_eq!(AssetDetector::detect_type("font.woff"), AssetType::Font);
    assert_eq!(AssetDetector::detect_type("font.woff2"), AssetType::Font);
}

#[test]
fn test_detect_type_all_image_extensions_returns_image_type() {
    assert_eq!(AssetDetector::detect_type("image.png"), AssetType::Image);
    assert_eq!(AssetDetector::detect_type("image.jpg"), AssetType::Image);
    assert_eq!(AssetDetector::detect_type("image.jpeg"), AssetType::Image);
    assert_eq!(AssetDetector::detect_type("image.gif"), AssetType::Image);
    assert_eq!(AssetDetector::detect_type("image.svg"), AssetType::Image);
    assert_eq!(AssetDetector::detect_type("image.webp"), AssetType::Image);
}

#[test]
fn test_detect_type_all_data_extensions_returns_data_type() {
    assert_eq!(AssetDetector::detect_type("config.json"), AssetType::Data);
    assert_eq!(AssetDetector::detect_type("config.toml"), AssetType::Data);
    assert_eq!(AssetDetector::detect_type("config.yaml"), AssetType::Data);
    assert_eq!(AssetDetector::detect_type("data.txt"), AssetType::Data);
    assert_eq!(AssetDetector::detect_type("styles.css"), AssetType::Data);
}

#[test]
fn test_detect_type_mixed_case_extensions_handles_case_insensitive() {
    assert_eq!(AssetDetector::detect_type("font.TTF"), AssetType::Font);
    assert_eq!(AssetDetector::detect_type("image.PNG"), AssetType::Image);
    assert_eq!(AssetDetector::detect_type("config.JSON"), AssetType::Data);
}

#[test]
fn test_detect_type_file_without_extension_returns_unknown() {
    assert_eq!(AssetDetector::detect_type("filename"), AssetType::Unknown);
    assert_eq!(AssetDetector::detect_type("Makefile"), AssetType::Unknown);
}

#[test]
fn test_detect_type_multiple_dots_in_filename_uses_last_extension() {
    assert_eq!(AssetDetector::detect_type("font.backup.woff2"), AssetType::Font);
    assert_eq!(AssetDetector::detect_type("image.old.png"), AssetType::Image);
    assert_eq!(AssetDetector::detect_type("config.prod.json"), AssetType::Data);
}

#[test]
fn test_detect_type_full_path_with_directories_extracts_extension() {
    assert_eq!(
        AssetDetector::detect_type("assets/fonts/myfont.woff2"),
        AssetType::Font
    );
    assert_eq!(AssetDetector::detect_type("../images/logo.png"), AssetType::Image);
    assert_eq!(
        AssetDetector::detect_type("/absolute/path/data.json"),
        AssetType::Data
    );
}

#[test]
fn test_detect_type_uncommon_extensions_returns_correct_types() {
    assert_eq!(AssetDetector::detect_type("archive.zip"), AssetType::Unknown);
    assert_eq!(AssetDetector::detect_type("video.mp4"), AssetType::Unknown);
    assert_eq!(AssetDetector::detect_type("document.pdf"), AssetType::Unknown);
}

#[test]
fn test_detect_type_edge_case_extensions_handles_correctly() {
    assert_eq!(AssetDetector::detect_type(".png"), AssetType::Unknown);
    assert_eq!(AssetDetector::detect_type("."), AssetType::Unknown);
    assert_eq!(AssetDetector::detect_type(""), AssetType::Unknown);
}

#[test]
fn test_from_size_boundary_thresholds_assigns_correct_priorities() {
    assert_eq!(AssetPriority::from_size(500, 5000), AssetPriority::High);
    assert_eq!(AssetPriority::from_size(501, 5000), AssetPriority::Critical);
    assert_eq!(AssetPriority::from_size(501, 0), AssetPriority::Critical);
    assert_eq!(AssetPriority::from_size(250, 5000), AssetPriority::High);
    assert_eq!(AssetPriority::from_size(200, 4000), AssetPriority::Medium);
    assert_eq!(AssetPriority::from_size(201, 0), AssetPriority::High);
    assert_eq!(AssetPriority::from_size(100, 5000), AssetPriority::Low);
    assert_eq!(AssetPriority::from_size(99, 5000), AssetPriority::Low);
    assert_eq!(AssetPriority::from_size(101, 5000), AssetPriority::Medium);
}

#[test]
fn test_from_size_zero_bundle_size_returns_low_priority() {
    assert_eq!(AssetPriority::from_size(600, 0), AssetPriority::Critical);
    assert_eq!(AssetPriority::from_size(300, 0), AssetPriority::High);
    assert_eq!(AssetPriority::from_size(150, 0), AssetPriority::Medium);
    assert_eq!(AssetPriority::from_size(50, 0), AssetPriority::Low);
}

#[test]
fn test_from_size_zero_asset_size_returns_low_priority() {
    assert_eq!(AssetPriority::from_size(0, 1000), AssetPriority::Low);
    assert_eq!(AssetPriority::from_size(0, 0), AssetPriority::Low);
}

#[test]
fn test_from_size_grows_with_asset_size() {
    let bundle = 7_919u64;
    let mut last = AssetPriority::from_size(0, bundle);
    for kb in 1..2_000u64 {
        let p = AssetPriority::from_size(kb, bundle);
        assert!(p >= last, "priority fell at {} KB", kb);
        last = p;
    }
    assert_eq!(last, AssetPriority::Critical);
}

#[test]
fn test_regex_inclusions_finds_both_macros() {
    let src = "static A: &[u8] = include_bytes!( \"a.png\" );\nconst B: &str = include_str!(\"b.txt\");\nlet c = include_bytes!(\"c.woff2\");\nlet bad = include_str!(no_quotes);";
    let found = AssetDetector::regex_inclusions(src);
    assert_eq!(
        found,
        vec![
            ("a.png".to_string(), "include_bytes!".to_string()),
            ("c.woff2".to_string(), "include_bytes!".to_string()),
            ("b.txt".to_string(), "include_str!".to_string()),
        ]
    );
    assert!(AssetDetector::regex_inclusions("no macros here").is_empty());
}

fn asset(kb: u64) -> DetectedAsset {
    DetectedAsset {
        file_path: "x".to_string(),
        size_bytes: kb * 1024,
        asset_type: AssetType::Unknown,
        source_location: "src/lib.rs:1".to_string(),
        detection_method: "include_bytes!".to_string(),
    }
}

#[test]
fn test_estimate_savings_kb_splits_by_priority() {
    let assets = vec![asset(600), asset(300), asset(150), asset(10)];
    let s = AssetDetector::estimate_savings_kb(&assets, 100_000);
    assert_eq!(s.critical_only_kb, 600);
    assert_eq!(s.high_and_critical_kb, 900);
    assert_eq!(s.all_assets_kb, 1060);
}

#[test]
fn test_asset_visitor_records_inclusions() {
    let mut v = AssetVisitor::new("src/lib.rs");
    assert!(v.assets().is_empty());
    v.record_macro("include_bytes", "\"logo.png\"");
    v.record_macro("std::include_str", " \"data.json\" ");
    v.record_macro("println", "\"hello\"");
    v.record_macro("include_str", "   ");
    assert_eq!(
        v.assets(),
        &vec![
            ("logo.png".to_string(), 0usize, "include_bytes!".to_string()),
            ("data.json".to_string(), 0usize, "include_str!".to_string()),
        ]
    );
}

#[test]
fn test_asset_detection_error_messages() {
    assert_eq!(AssetDetectionError::Io("denied".to_string()).to_string(), "I/O error: denied");
    assert_eq!(
        AssetDetectionError::ParseError("src/a.rs".to_string(), "bad token".to_string()).to_string(),
        "Failed to parse source file src/a.rs: bad token"
    );
    assert_eq!(
        AssetDetectionError::Regex("oops".to_string()).to_string(),
        "Regex error: oops"
    );
}

#[test]
fn test_group_by_priority_keeps_scan_order() {
    let mut a = asset(600);
    a.file_path = "big.bin".to_string();
    let mut b = asset(10);
    b.file_path = "small.txt".to_string();
    let mut c = asset(700);
    c.file_path = "huge.woff2".to_string();
    let assets = vec![a, b, asset(150), c, asset(300)];
    let g = AssetDetector::group_by_priority(&assets, 100_000);
    let names = |v: &Vec<DetectedAsset>| v.iter().map(|x| x.file_path.clone()).collect::<Vec<_>>();
    assert_eq!(names(&g.critical), vec!["big.bin".to_string(), "huge.woff2".to_string()]);
    assert_eq!(g.high.len(), 1);
    assert_eq!(g.medium.len(), 1);
    assert_eq!(names(&g.low), vec!["small.txt".to_string()]);
}
