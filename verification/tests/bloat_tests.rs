use wasm_slim::analyzer::bloat::{BloatAnalyzer, BloatParseError, SizeText};

fn bytes(s: &SizeText) -> u64 {
    match s {
        SizeText::Bytes(n) => *n,
        SizeText::KiB(t) => (t.parse::<f64>().unwrap() * 1024.0) as u64,
        SizeText::MiB(t) => (t.parse::<f64>().unwrap() * 1024.0 * 1024.0) as u64,
    }
}

fn parse_size(s: &str) -> Result<u64, BloatParseError> {
    BloatAnalyzer::parse_size(s).map(|z| bytes(&z))
}

fn pct(s: &str) -> f64 {
    s.parse::<f64>().unwrap()
}

#[test]
fn test_parse_size_kib_units_converts_to_bytes() {
    assert_eq!(parse_size("12.5KiB").expect("should parse valid KiB size"), 12800);
}

#[test]
fn test_parse_size_mib_units_converts_to_bytes() {
    assert_eq!(parse_size("1.5MiB").expect("should parse valid MiB size"), 1572864);
}

#[test]
fn test_parse_size_bytes_plain_number_parses_directly() {
    assert_eq!(parse_size("1024B").expect("should parse valid byte size"), 1024);
}

#[test]
fn bloat_test_parse_line_valid_format_extracts_all_fields() {
    let item = BloatAnalyzer::parse_line("12.3KiB  2.5% std::fmt::write").expect("should parse valid bloat line");
    assert_eq!(item.name, "std::fmt::write");
    assert_eq!(pct(&item.percentage), 2.5);
    assert_eq!(item.crate_name, "std");
}

#[test]
fn test_parse_size_plain_number_without_units_parses_as_bytes() {
    assert_eq!(parse_size("1024").expect("should parse plain number as bytes"), 1024);
}

#[test]
fn test_parse_size_with_whitespace_trims_and_parses() {
    assert_eq!(parse_size("  12.5KiB  ").expect("should parse size with whitespace"), 12800);
}

#[test]
fn test_parse_size_zero_value_returns_zero() {
    assert_eq!(parse_size("0B").expect("should parse zero size"), 0);
}

#[test]
fn test_parse_size_invalid_format_returns_error() {
    assert!(parse_size("invalid").is_err());
    assert!(parse_size("12.3XB").is_err());
    assert!(parse_size("").is_err());
}

#[test]
fn test_parse_size_negative_number_returns_zero() {
    assert!(parse_size("-100").is_err());
}

#[test]
fn test_parse_size_fractional_bytes_rounds_to_integer() {
    assert_eq!(parse_size("10B").expect("should parse fractional bytes"), 10);
}

#[test]
fn test_parse_line_multiword_name_parses_correctly() {
    let item = BloatAnalyzer::parse_line("5.2KiB  1.2% <alloc::vec::Vec<T> as core::clone::Clone>::clone")
        .expect("should parse multiword name");
    assert!(item.name.contains("alloc::vec::Vec"));
    assert_eq!(pct(&item.percentage), 1.2);
    assert_eq!(item.name, "<alloc::vec::Vec<T> as core::clone::Clone>::clone");
    assert_eq!(item.crate_name, "<alloc");
}

#[test]
fn test_parse_line_missing_fields_returns_error() {
    assert!(BloatAnalyzer::parse_line("12.3KiB  2.5%").is_none());
    assert!(BloatAnalyzer::parse_line("12.3KiB").is_none());
    assert!(BloatAnalyzer::parse_line("").is_none());
}

#[test]
fn test_parse_line_invalid_percentage_returns_error() {
    assert!(BloatAnalyzer::parse_line("12.3KiB  invalid% function_name").is_none());
}

#[test]
fn test_parse_line_invalid_size_returns_error() {
    assert!(BloatAnalyzer::parse_line("invalid  2.5% function_name").is_none());
}

#[test]
fn test_parse_line_zero_size_parses_successfully() {
    let item = BloatAnalyzer::parse_line("0B  0.0% empty_function").expect("should parse zero size line");
    assert_eq!(bytes(&item.size), 0);
    assert_eq!(pct(&item.percentage), 0.0);
}

#[test]
fn test_parse_line_namespace_prefix_extracts_crate_name() {
    let item = BloatAnalyzer::parse_line("10KiB  5.0% my_crate::module::function")
        .expect("should extract crate name from namespace");
    assert_eq!(item.crate_name, "my_crate");
}

#[test]
fn test_parse_line_no_namespace_crate_name_is_none() {
    let item = BloatAnalyzer::parse_line("10KiB  5.0% standalone_function")
        .expect("should parse line without namespace");
    assert_eq!(item.crate_name, "standalone_function");
}

#[test]
fn test_parse_output_empty_input_returns_empty_results() {
    let analyzer = BloatAnalyzer::new(".");
    let results = analyzer.parse_output("").expect("should parse empty input");
    assert_eq!(results.rows.len(), 0);
    assert_eq!(bytes(&results.file_size), 0);
}

#[test]
fn test_parse_output_missing_headers_returns_empty_results() {
    let analyzer = BloatAnalyzer::new(".");
    let output = "12.3KiB  2.5% std::fmt::write\n10KiB  2.0% other::function";
    let results = analyzer.parse_output(output).expect("should handle missing headers");
    assert_eq!(results.rows.len(), 0);
}

#[test]
fn test_parse_output_valid_table_parses_all_items() {
    let analyzer = BloatAnalyzer::new(".");
    let output = "\nFile  .text     Size Crate Name\n12.3KiB   2.5% std   std::fmt::write\n10.0KiB   2.0% core  core::fmt::Display\n.text section size 500KiB\nFile size 1000KiB\n";
    let results = analyzer.parse_output(output).expect("should parse valid table");
    assert_eq!(results.rows.len(), 2);
    assert_eq!(bytes(&results.text_size), 512000);
    assert_eq!(bytes(&results.file_size), 1024000);
    assert_eq!(results.rows[0].name, "std std::fmt::write");
    assert_eq!(results.rows[1].crate_name, "core core");
}

#[test]
fn test_parse_output_partial_summary_parses_available_fields() {
    let analyzer = BloatAnalyzer::new(".");
    let output = "\nFile  .text     Size Crate Name\n12.3KiB   2.5% std   std::fmt::write\n.text section size 500KiB\n";
    let results = analyzer.parse_output(output).expect("should parse partial summary");
    assert_eq!(results.rows.len(), 1);
    assert_eq!(bytes(&results.text_size), 512000);
    assert_eq!(bytes(&results.file_size), 0);
}

#[test]
fn test_parse_output_stops_at_file_size_and_reports_bad_sizes() {
    let analyzer = BloatAnalyzer::new(".");
    let output = "File  .text\n1KiB 1% a::b\nFile size 2MiB\n3KiB 1% after::end\n";
    let t = analyzer.parse_output(output).unwrap();
    assert_eq!(t.rows.len(), 1);
    assert_eq!(t.file_size, SizeText::MiB("2".to_string()));

    let bad = analyzer.parse_output("File  .text\n.text section size 5XiB\n");
    assert_eq!(bad, Err(BloatParseError::ByteValue("5XiB".to_string())));
    assert_eq!(bad.unwrap_err().to_string(), "Failed to parse byte value");
    let bad = analyzer.parse_output("File  .text\n.text section size 5X\n");
    assert_eq!(bad.unwrap_err().to_string(), "Failed to parse size");
    let bad = analyzer.parse_output("File  .text\nFile size xKiB\n");
    assert_eq!(bad, Err(BloatParseError::KibValue("xKiB".to_string())));
    assert_eq!(BloatParseError::ByteValue("zB".to_string()).to_string(), "Failed to parse byte value");
    assert_eq!(BloatParseError::MibValue("zMiB".to_string()).to_string(), "Failed to parse MB value");
}
