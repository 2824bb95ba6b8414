//! Size analysis of WASM binaries with the twiggy tool: parsing of its output
//! and grouping of generic instantiations.
pub mod monos;
pub mod parser;

use vstd::prelude::*;
use vstd::string::*;
use crate::analyzer::twiggy::monos::{
    MonomorphizationGroup,
    base_function_name,
    base_function_of,
    group_by_base,
    group_sums_fit,
    group_views,
    groups_ok,
};
use crate::analyzer::twiggy::parser::{
    AnalysisItem,
    ChangeItem,
    change_views,
    changes_of_output,
    data_lines,
    item_of_range,
    item_views,
    items_of_output,
    line_item,
    parsed_changes,
    parsed_items,
};
use crate::text::{chars_of, push_signed, push_str, signed_dec, to_string};

verus! {

broadcast use vstd::string::group_string_axioms;

/// Analysis mode for twiggy.
#[derive(Debug, Clone, Copy, PartialEq, Eq, Structural)]
pub enum AnalysisMode {
    /// Top contributors by shallow size.
    Top,
    /// Dominator analysis (retained size).
    Dominators,
    /// Dead code detection.
    Dead,
    /// Monomorphization analysis.
    Monos,
}

impl AnalysisMode {
    /// The mode's name in reports: its variant name in lower case.
    pub fn name(&self) -> (r: &'static str)
        ensures
            r@ == match *self {
                AnalysisMode::Top => "top"@,
                AnalysisMode::Dominators => "dominators"@,
                AnalysisMode::Dead => "dead"@,
                AnalysisMode::Monos => "monos"@,
            },
    {
        match self {
            AnalysisMode::Top => "top",
            AnalysisMode::Dominators => "dominators",
            AnalysisMode::Dead => "dead",
            AnalysisMode::Monos => "monos",
        }
    }
}

/// Errors of a twiggy analysis.
#[derive(Debug, Clone, PartialEq, Eq)]
pub enum TwiggyAnalysisError {
    /// I/O error, with its message.
    Io(String),
    /// WASM file not found.
    WasmFileNotFound(String),
    /// A twiggy command failed: its subcommand and exit status.
    CommandFailed(String, i32),
    /// Output that is not UTF-8, with the error's message.
    Utf8(String),
}

impl TwiggyAnalysisError {
    /// The error message.
    pub fn to_string(&self) -> (r: String)
        ensures
            r@ == match *self {
                TwiggyAnalysisError::Io(m) => "I/O error: "@ + m@,
                TwiggyAnalysisError::WasmFileNotFound(f) => "WASM file not found: "@ + f@,
                TwiggyAnalysisError::CommandFailed(c, status) => "Twiggy "@ + c@
                    + " command failed with status "@ + signed_dec(status as int),
                TwiggyAnalysisError::Utf8(m) => "UTF-8 error: "@ + m@,
            },
    {
        let mut s = String::new();
        match self {
            TwiggyAnalysisError::Io(m) => {
                push_str(&mut s, "I/O error: ");
                push_str(&mut s, m.as_str());
            },
            TwiggyAnalysisError::WasmFileNotFound(f) => {
                push_str(&mut s, "WASM file not found: ");
                push_str(&mut s, f.as_str());
            },
            TwiggyAnalysisError::CommandFailed(c, status) => {
                push_str(&mut s, "Twiggy ");
                push_str(&mut s, c.as_str());
                push_str(&mut s, " command failed with status ");
                push_signed(&mut s, *status as i64);
            },
            TwiggyAnalysisError::Utf8(m) => {
                push_str(&mut s, "UTF-8 error: ");
                push_str(&mut s, m.as_str());
            },
        }
        s
    }
}

/// Analyzer of one WASM binary.
pub struct TwiggyAnalyzer {
    /// The WASM file analysed.
    pub wasm_file: String,
}

impl TwiggyAnalyzer {
    /// An analyzer for the given WASM file.
    pub fn new(wasm_file: &str) -> (r: Self)
        ensures
            r.wasm_file@ == wasm_file@,
    {
        TwiggyAnalyzer { wasm_file: to_string(wasm_file) }
    }

    /// How to install twiggy.
    pub fn installation_instructions() -> (r: &'static str)
        ensures
            r@ == "twiggy is not installed. Install it with:\n  cargo install twiggy"@,
    {
        "twiggy is not installed. Install it with:\n  cargo install twiggy"
    }

    /// Parses one table row (`size | percent% | name`).
    pub fn parse_line(&self, line: &str) -> (r: Option<AnalysisItem>)
        ensures
            r matches Some(x) ==> line_item(line@) == Some(x@),
            r is None ==> line_item(line@) is None,
    {
        let v = chars_of(line);
        assert(v@.subrange(0, v@.len() as int) == v@);
        item_of_range(&v, 0, v.len())
    }

    /// Parses a twiggy table: the rows after the two header lines that parse.
    pub fn parse_output(&self, output: &str, mode: AnalysisMode) -> (r: Result<
        Vec<AnalysisItem>,
        TwiggyAnalysisError,
    >)
        ensures
            r matches Ok(items) && item_views(items@) == parsed_items(data_lines(output@)),
    {
        let v = chars_of(output);
        Ok(items_of_output(&v))
    }

    /// Parses `twiggy diff` output: the rows after the two header lines that parse.
    pub fn parse_diff_output(output: &str) -> (r: Result<Vec<ChangeItem>, TwiggyAnalysisError>)
        ensures
            r matches Ok(changes) && change_views(changes@) == parsed_changes(data_lines(output@)),
    {
        let v = chars_of(output);
        Ok(changes_of_output(&v))
    }

    /// The generic function that a symbol instantiates.
    pub fn extract_base_function_name(&self, symbol: &str) -> (r: String)
        ensures
            r@ == base_function_name(symbol@),
    {
        base_function_of(symbol)
    }

    /// Groups instantiations by base function, keeping the functions
    /// instantiated more than once, the largest potential savings first.
    pub fn group_monomorphizations(&self, items: &Vec<AnalysisItem>) -> (r: Vec<
        MonomorphizationGroup,
    >)
        requires
            group_sums_fit(item_views(items@)),
        ensures
            groups_ok(item_views(items@), group_views(r@)),
    {
        group_by_base(items)
    }
}

} // verus!
