use wasm_slim::analyzer::twiggy::parser::AnalysisItem;
use wasm_slim::analyzer::twiggy::{AnalysisMode, TwiggyAnalysisError, TwiggyAnalyzer};

fn pct(item: &AnalysisItem) -> f64 {
    item.percentage.parse::<f64>().unwrap()
}

fn item(size_bytes: u64, percentage: &str, name: &str) -> AnalysisItem {
    AnalysisItem {
        size_bytes,
        percentage: percentage.to_string(),
        name: name.to_string(),
    }
}

#[test]
fn test_installation_instructions_provides_cargo_command() {
    let instructions = TwiggyAnalyzer::installation_instructions();
    assert!(!instructions.is_empty());
    assert!(instructions.contains("twiggy") || instructions.contains("cargo install"));
}

#[test]
fn parser_test_parse_line_valid_format_extracts_all_fields() {
    let analyzer = TwiggyAnalyzer::new("dummy.wasm");
    let item = analyzer
        .parse_line("  123456 | 12.34% | code[123]")
        .expect("should parse valid twiggy line");
    assert_eq!(item.size_bytes, 123456);
    assert_eq!(pct(&item), 12.34);
    assert_eq!(item.name, "code[123]");
}

#[test]
fn test_parse_line_size_with_commas_parses_correctly() {
    let analyzer = TwiggyAnalyzer::new("dummy.wasm");
    let item = analyzer
        .parse_line("  1,234,567 | 45.67% | data[456]")
        .expect("should parse name with pipes");
    assert_eq!(item.size_bytes, 1234567);
    assert_eq!(pct(&item), 45.67);
    assert_eq!(item.name, "data[456]");
}

#[test]
fn test_parse_output_malformed_input_returns_empty_items() {
    let analyzer = TwiggyAnalyzer::new("dummy.wasm");
    let empty_result = analyzer.parse_output("", AnalysisMode::Top);
    assert!(empty_result.is_ok());
    assert_eq!(empty_result.expect("should handle empty output").len(), 0);

    let malformed = "invalid output without proper format\nno pipes here\n";
    let malformed_result = analyzer.parse_output(malformed, AnalysisMode::Top);
    assert!(malformed_result.is_ok());
    assert_eq!(
        malformed_result
            .expect("should handle malformed output")
            .len(),
        0
    );
}

#[test]
fn test_parse_line_invalid_formats_returns_none() {
    let analyzer = TwiggyAnalyzer::new("dummy.wasm");
    assert!(analyzer.parse_line("123456").is_none());
    assert!(analyzer.parse_line("123456 | 12.34%").is_none());
    assert!(analyzer.parse_line("invalid | 12.34% | name").is_none());
    assert!(analyzer.parse_line("123456 | invalid% | name").is_none());
    assert!(analyzer.parse_line(" | | ").is_none());
}

#[test]
fn test_parse_line_edge_cases_handles_correctly() {
    let analyzer = TwiggyAnalyzer::new("dummy.wasm");
    let zero = analyzer.parse_line("0 | 0.00% | empty_function");
    assert!(zero.is_some());
    let item = zero.expect("should parse zero size line");
    assert_eq!(item.size_bytes, 0);
    assert_eq!(pct(&item), 0.0);

    let large = analyzer.parse_line("9,999,999,999 | 99.99% | huge_data");
    assert!(large.is_some());
    let item = large.expect("should parse large size line");
    assert_eq!(item.size_bytes, 9999999999);
}

#[test]
fn test_parse_diff_output_malformed_input_returns_empty_changes() {
    let empty = TwiggyAnalyzer::parse_diff_output("");
    assert!(empty.is_ok());
    assert_eq!(empty.expect("should handle empty diff output").len(), 0);

    let no_pipes = TwiggyAnalyzer::parse_diff_output("invalid line\nno pipes here");
    assert!(no_pipes.is_ok());
    assert_eq!(no_pipes.expect("should handle no pipes in diff").len(), 0);

    let invalid_delta = TwiggyAnalyzer::parse_diff_output("invalid | symbol_name");
    assert!(invalid_delta.is_ok());
    assert_eq!(invalid_delta.expect("should handle invalid delta").len(), 0);
}

#[test]
fn test_parse_diff_output_valid_format_parses_deltas() {
    let diff_output = "Header line\nAnother header\n  +1234 | added_function\n  -5678 | removed_function\n  +0 | unchanged";
    let result = TwiggyAnalyzer::parse_diff_output(diff_output);
    assert!(result.is_ok());
    let changes = result.expect("should parse valid diff output");
    assert_eq!(changes.len(), 3);
    assert_eq!(changes[0].delta_bytes, 1234);
    assert_eq!(changes[0].name, "added_function");
    assert_eq!(changes[1].delta_bytes, -5678);
    assert_eq!(changes[1].name, "removed_function");
}

#[test]
fn test_parse_line_decimal_percentage_parses_fractional() {
    let analyzer = TwiggyAnalyzer::new("dummy.wasm");
    let item = analyzer
        .parse_line("100 | 0.01% | tiny_func")
        .expect("should parse tiny percentage");
    assert_eq!(pct(&item), 0.01);
    let item = analyzer
        .parse_line("1000 | 99.99% | huge_func")
        .expect("should parse large percentage");
    assert_eq!(pct(&item), 99.99);
}

#[test]
fn test_parse_line_name_with_pipes_preserves_content() {
    let analyzer = TwiggyAnalyzer::new("dummy.wasm");
    let item = analyzer
        .parse_line("123 | 1.5% | name_with | extra | parts")
        .unwrap();
    assert_eq!(item.name, "name_with");
}

#[test]
fn test_parse_line_special_characters_in_name_handles() {
    let analyzer = TwiggyAnalyzer::new("dummy.wasm");
    let item = analyzer
        .parse_line("500 | 2.0% | <std::vec::Vec<T>>")
        .expect("should parse special characters in name");
    assert_eq!(item.name, "<std::vec::Vec<T>>");
    let item = analyzer
        .parse_line("300 | 1.5% | func::with::colons")
        .expect("should parse whitespace variations");
    assert_eq!(item.name, "func::with::colons");
}

#[test]
fn test_parse_line_whitespace_variations_parses_correctly() {
    let analyzer = TwiggyAnalyzer::new("dummy.wasm");
    let item = analyzer
        .parse_line("  1000  |  5.5%  |  func_name  ")
        .unwrap();
    assert_eq!(item.size_bytes, 1000);
    assert_eq!(pct(&item), 5.5);
    assert_eq!(item.name, "func_name");
}

#[test]
fn test_parse_line_no_commas_in_size_parses_directly() {
    let analyzer = TwiggyAnalyzer::new("dummy.wasm");
    let item = analyzer
        .parse_line("1234567 | 10.5% | big_func")
        .expect("should parse number without commas");
    assert_eq!(item.size_bytes, 1234567);
}

#[test]
fn test_parse_output_with_headers_skips_non_data_lines() {
    let analyzer = TwiggyAnalyzer::new("dummy.wasm");
    let output = "Shallow Bytes | Shallow % | Item\nHeader 2\n  1000 | 10.0% | function_a\n  500 | 5.0% | function_b";
    let items = analyzer
        .parse_output(output, AnalysisMode::Top)
        .expect("should parse output with headers");
    assert_eq!(items.len(), 2);
    assert_eq!(items[0].name, "function_a");
}

#[test]
fn test_parse_output_mixed_lines_parses_valid_only() {
    let analyzer = TwiggyAnalyzer::new("dummy.wasm");
    let output = "Header\nHeader 2\n  1000 | 10.0% | valid_func\ninvalid line\n  500 | 5.0% | another_valid\nmalformed\n  200 | 2.0% | final_valid";
    let items = analyzer
        .parse_output(output, AnalysisMode::Top)
        .expect("should parse mixed lines");
    assert_eq!(items.len(), 3);
}

#[test]
fn test_parse_output_empty_lines_skips_blanks() {
    let analyzer = TwiggyAnalyzer::new("dummy.wasm");
    let output = "\n\n  100 | 1.0% | func\n\n\n  200 | 2.0% | func2\n\n";
    let items = analyzer
        .parse_output(output, AnalysisMode::Top)
        .expect("should skip empty lines");
    assert_eq!(items.len(), 2);
}

#[test]
fn test_parse_diff_output_delta_with_commas_parses() {
    let output = "Header1\nHeader2\n  +1,234,567 | big_addition\n  -9,876 | small_removal";
    let changes = TwiggyAnalyzer::parse_diff_output(output).expect("should parse diff with commas");
    assert_eq!(changes.len(), 2);
    assert_eq!(changes[0].delta_bytes, 1234567);
    assert_eq!(changes[1].delta_bytes, -9876);
}

#[test]
fn test_parse_diff_output_zero_delta_included() {
    let output = "Header1\nHeader2\n  +0 | no_change\n  -0 | also_no_change";
    let changes = TwiggyAnalyzer::parse_diff_output(output).expect("should parse zero delta");
    assert_eq!(changes.len(), 2);
    assert_eq!(changes[0].delta_bytes, 0);
    assert_eq!(changes[1].delta_bytes, 0);
}

#[test]
fn test_parse_diff_output_large_values_handled() {
    let output = "Header1\nHeader2\n  +999999999 | huge_add\n  -999999999 | huge_remove";
    let changes = TwiggyAnalyzer::parse_diff_output(output).expect("should parse large values");
    assert_eq!(changes[0].delta_bytes, 999999999);
    assert_eq!(changes[1].delta_bytes, -999999999);
}

#[test]
fn test_parse_line_boundary_values_parses_extremes() {
    let analyzer = TwiggyAnalyzer::new("dummy.wasm");
    let item = analyzer.parse_line("999999999999 | 100.0% | huge");
    assert!(item.is_some());
    let item = analyzer
        .parse_line("0 | 0.0% | zero")
        .expect("should parse zero line");
    assert_eq!(item.size_bytes, 0);
}

#[test]
fn test_parse_line_percentage_boundary_accepts_full_range() {
    let analyzer = TwiggyAnalyzer::new("dummy.wasm");
    let item = analyzer
        .parse_line("1000 | 100.0% | whole")
        .expect("should parse 100% line");
    assert_eq!(pct(&item), 100.0);
    let item = analyzer
        .parse_line("1 | 0.0001% | tiny")
        .expect("should parse tiny percentage line");
    assert_eq!(pct(&item), 0.0001);
}

#[test]
fn test_parse_output_all_modes_consistent_parsing() {
    let analyzer = TwiggyAnalyzer::new("dummy.wasm");
    let output = "Header\n  100 | 1.0% | item";
    assert!(analyzer.parse_output(output, AnalysisMode::Top).is_ok());
    assert!(analyzer.parse_output(output, AnalysisMode::Dominators).is_ok());
    assert!(analyzer.parse_output(output, AnalysisMode::Dead).is_ok());
    assert!(analyzer.parse_output(output, AnalysisMode::Monos).is_ok());
}

#[test]
fn test_parse_line_box_drawing_separators() {
    let analyzer = TwiggyAnalyzer::new("dummy.wasm");
    let item = analyzer
        .parse_line(" 2,048 ┊ 3.25% ┊ func_a")
        .expect("box-drawing columns parse");
    assert_eq!(item.size_bytes, 2048);
    assert_eq!(item.percentage, "3.25");
    assert_eq!(item.name, "func_a");
}

#[test]
fn test_parse_output_counts_each_data_row() {
    let analyzer = TwiggyAnalyzer::new("dummy.wasm");
    let mut lines = vec!["Header1".to_string(), "Header2".to_string()];
    for i in 0..12u64 {
        lines.push(format!("  {} | {:.1}% | func_{}", i * 100, i as f64, i));
    }
    let items = analyzer
        .parse_output(&lines.join("\n"), AnalysisMode::Top)
        .unwrap();
    assert_eq!(items.len(), 12);
    assert_eq!(items[11].size_bytes, 1100);
    assert_eq!(items[11].name, "func_11");
}

#[test]
fn test_extract_base_function_name_demangled_symbols() {
    let analyzer = TwiggyAnalyzer::new("dummy.wasm");
    let name = analyzer.extract_base_function_name("serde_json::ser::Serializer::serialize<T>");
    assert_eq!(name, "serde_json::ser::Serializer::serialize");
    let name = analyzer.extract_base_function_name("core::convert::From<T, U>::from");
    assert_eq!(name, "core::convert::From");
}

#[test]
fn test_extract_base_function_name_impl_trait_format() {
    let analyzer = TwiggyAnalyzer::new("dummy.wasm");
    let name = analyzer.extract_base_function_name("<Type as Trait>::method");
    assert_eq!(name, "method");
    let name = analyzer.extract_base_function_name("<Vec<T> as IntoIterator>::into_iter");
    assert_eq!(name, "into_iter");
}

#[test]
fn test_extract_base_function_name_mangled_symbols() {
    let analyzer = TwiggyAnalyzer::new("dummy.wasm");
    let name = analyzer.extract_base_function_name("_ZN4core3fmt3Display3fmtE");
    assert!(name.contains("fmt") || name.contains("Display"));
    let name = analyzer
        .extract_base_function_name("_ZN52_impl_std_convert_From_u32_for_i64_17from_abcdefE");
    assert!(!name.is_empty());
}

#[test]
fn test_extract_base_function_name_fallback() {
    let analyzer = TwiggyAnalyzer::new("dummy.wasm");
    let name = analyzer.extract_base_function_name("simple_function");
    assert_eq!(name, "simple_function");
    let name = analyzer.extract_base_function_name("function_name(args)");
    assert_eq!(name, "function_name");
    let name = analyzer.extract_base_function_name("my_func with_space");
    assert_eq!(name, "my_func");
}

#[test]
fn test_group_monomorphizations_multiple_instantiations() {
    let analyzer = TwiggyAnalyzer::new("dummy.wasm");
    let items = vec![
        item(1000, "1.0", "serialize<i32>"),
        item(1200, "1.2", "serialize<String>"),
        item(800, "0.8", "serialize<Vec<u8>>"),
    ];
    let groups = analyzer.group_monomorphizations(&items);
    assert_eq!(groups.len(), 1);
    assert_eq!(groups[0].function_name, "serialize");
    assert_eq!(groups[0].instantiation_count, 3);
    assert_eq!(groups[0].total_size_bytes, 3000);
    let max_size = 1200;
    assert_eq!(groups[0].potential_savings_bytes, 3000 - max_size);
}

#[test]
fn test_group_monomorphizations_filters_single_instantiation() {
    let analyzer = TwiggyAnalyzer::new("dummy.wasm");
    let items = vec![
        item(1000, "1.0", "serialize<i32>"),
        item(2000, "2.0", "deserialize<String>"),
        item(1500, "1.5", "serialize<String>"),
    ];
    let groups = analyzer.group_monomorphizations(&items);
    assert_eq!(groups.len(), 1);
    assert_eq!(groups[0].function_name, "serialize");
    assert_eq!(groups[0].instantiation_count, 2);
}

#[test]
fn test_group_monomorphizations_sorts_by_savings() {
    let analyzer = TwiggyAnalyzer::new("dummy.wasm");
    let items = vec![
        item(100, "0.1", "small<i32>"),
        item(100, "0.1", "small<u32>"),
        item(5000, "5.0", "large<String>"),
        item(5000, "5.0", "large<Vec>"),
        item(5000, "5.0", "large<Box>"),
    ];
    let groups = analyzer.group_monomorphizations(&items);
    assert_eq!(groups.len(), 2);
    assert_eq!(groups[0].function_name, "large");
    assert_eq!(groups[0].potential_savings_bytes, 10000);
    assert_eq!(groups[1].function_name, "small");
    assert_eq!(groups[1].potential_savings_bytes, 100);
}

#[test]
fn test_group_monomorphizations_average_rounds_down() {
    let analyzer = TwiggyAnalyzer::new("dummy.wasm");
    let items = vec![
        item(10, "0.1", "f<a>"),
        item(11, "0.1", "f<b>"),
    ];
    let groups = analyzer.group_monomorphizations(&items);
    assert_eq!(groups.len(), 1);
    assert_eq!(groups[0].avg_size_bytes, 10);
    assert_eq!(groups[0].instantiations.len(), 2);
    assert_eq!(groups[0].instantiations[1].name, "f<b>");
}

#[test]
fn test_analysis_mode_names() {
    assert_eq!(AnalysisMode::Top.name(), "top");
    assert_eq!(AnalysisMode::Dominators.name(), "dominators");
    assert_eq!(AnalysisMode::Dead.name(), "dead");
    assert_eq!(AnalysisMode::Monos.name(), "monos");
}

#[test]
fn test_twiggy_error_messages() {
    assert_eq!(
        TwiggyAnalysisError::WasmFileNotFound("a.wasm".to_string()).to_string(),
        "WASM file not found: a.wasm"
    );
    assert_eq!(
        TwiggyAnalysisError::CommandFailed("top".to_string(), -2).to_string(),
        "Twiggy top command failed with status -2"
    );
    assert_eq!(TwiggyAnalysisError::Io("gone".to_string()).to_string(), "I/O error: gone");
    assert_eq!(TwiggyAnalysisError::Utf8("bad".to_string()).to_string(), "UTF-8 error: bad");
}

#[test]
fn test_row_roundtrip_plain_and_grouped() {
    let analyzer = TwiggyAnalyzer::new("dummy.wasm");
    for size in [0u64, 7, 999, 1_000, 65_536, 123_456_789, u64::MAX] {
        let plain = format!("{} | {:.2}% | test_function", size, 12.5f64);
        let item = analyzer.parse_line(&plain).unwrap();
        assert_eq!(item.size_bytes, size);
        assert_eq!(item.percentage, "12.50");
        assert_eq!(item.name, "test_function");

        let digits = size.to_string();
        let mut grouped = String::new();
        for (i, c) in digits.chars().enumerate() {
            if i > 0 && (digits.len() - i) % 3 == 0 {
                grouped.push(',');
            }
            grouped.push(c);
        }
        let line = format!("{} | 1e-3% | a::b<T>", grouped);
        let item = analyzer.parse_line(&line).unwrap();
        assert_eq!(item.size_bytes, size);
        assert_eq!(item.percentage, "1e-3");
        assert_eq!(item.name, "a::b<T>");
    }
}

#[test]
fn test_diff_row_roundtrip_extremes() {
    for delta in [i64::MIN, -1, 0, 1, i64::MAX] {
        let output = format!("Header1\nHeader2\n  {} | symbol_name", delta);
        let changes = TwiggyAnalyzer::parse_diff_output(&output).unwrap();
        assert_eq!(changes.len(), 1);
        assert_eq!(changes[0].delta_bytes, delta);
        assert_eq!(changes[0].name, "symbol_name");
    }
}
