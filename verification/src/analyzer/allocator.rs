//! Detection of projects that would profit from a small WASM allocator.
//!
//! A project without a custom allocator that pulls in many allocation-heavy
//! crates gets a suggestion to switch to `wee_alloc` (2-5% smaller bundles).
use vstd::prelude::*;
use vstd::string::*;
use crate::analyzer::deps_types::{DependencyIssue, IssueSeverity, IssueView};
use crate::text::{dec, push_dec, push_str, str_is, string_views, to_string};

verus! {

broadcast use vstd::string::group_string_axioms;

/// Detects the allocator optimization opportunity of one project.
pub struct AllocatorDetector {
    pub project_root: String,
}

/// Crates that allocate heavily on the heap.
pub open spec fn allocation_heavy_names() -> Seq<Seq<char>> {
    seq![
        "regex"@, "regex-syntax"@, "fancy-regex"@,
        "serde_json"@, "serde_yaml"@, "toml"@, "toml_edit"@, "ron"@,
        "syn"@, "swc_core"@, "swc_ecma_parser"@, "nom"@, "pest"@, "lalrpop-util"@,
        "html5ever"@, "xml-rs"@, "quick-xml"@,
        "petgraph"@, "indexmap"@, "linked-hash-map"@,
        "format_bytes"@, "indoc"@,
        "actix-web"@, "axum"@, "warp"@, "rocket"@,
        "sqlx"@, "diesel"@, "sea-orm"@,
        "openssl"@, "rustls"@, "ring"@,
        "flate2"@, "brotli"@, "zstd"@,
        "tera"@, "handlebars"@, "askama"@,
        "clap"@, "structopt"@
    ]
}

/// Allocators that already make a WASM build small.
pub open spec fn custom_allocator_names() -> Seq<Seq<char>> {
    seq!["wee_alloc"@, "lol_alloc"@, "dlmalloc"@]
}

/// How many of `names` are allocation-heavy.
pub open spec fn count_heavy(names: Seq<Seq<char>>) -> nat
    decreases names.len(),
{
    if names.len() == 0 {
        0
    } else {
        count_heavy(names.drop_last()) + if allocation_heavy_names().contains(names.last()) {
            1nat
        } else {
            0nat
        }
    }
}

/// Savings `(min_kb, max_kb)` expected from a custom allocator, for `n` heavy crates
/// (`n` taken as a `u32`).
pub open spec fn allocator_savings(n: u32) -> (u32, u32) {
    let lo = 10 + 2 * n;
    let hi = 20 + 4 * n;
    ((if lo < 50 { lo } else { 50 }) as u32, (if hi < 100 { hi } else { 100 }) as u32)
}

/// The text of the allocator issue for `n` allocation-heavy crates.
pub open spec fn allocator_issue_text(n: nat) -> Seq<char> {
    "No custom allocator detected. Project has "@ + dec(n)
        + " allocation-heavy dependencies using default system allocator."@
}

/// The suggestion that comes with the allocator issue.
pub open spec fn allocator_suggestion() -> Seq<char> {
    "Add wee_alloc for 2-5% size reduction:\n\n   [dependencies]\n   wee_alloc = \"0.4.5\"\n\n   And configure global allocator in lib.rs:\n   #[cfg(target_arch = \"wasm32\")]\n   #[global_allocator]\n   static ALLOC: wee_alloc::WeeAlloc = wee_alloc::WeeAlloc::INIT;\n\n   Note: wee_alloc trades smaller size for slightly slower allocation performance."@
}

/// The allocator issue for a project whose packages are named `names`.
pub open spec fn allocator_issue(names: Seq<Seq<char>>) -> Option<IssueView> {
    if exists|i: int| 0 <= i < names.len() && custom_allocator_names().contains(#[trigger] names[i]) {
        None
    } else if count_heavy(names) >= 5 {
        Some(
            IssueView {
                package: "wasm-allocator"@,
                version: "n/a"@,
                severity: IssueSeverity::Medium,
                issue: allocator_issue_text(count_heavy(names)),
                suggestion: allocator_suggestion(),
                size_impact_kb: Some(allocator_savings(count_heavy(names) as u32)),
                savings_percent: Some(3u8),
            },
        )
    } else {
        None
    }
}

/// Whether one of `names` is in the list `list` (by value).
fn listed(name: &str, list: &Vec<&'static str>) -> (b: bool)
    ensures
        b == list@.map_values(|s: &'static str| s@).contains(name@),
{
    let ghost l = list@.map_values(|s: &'static str| s@);
    let mut i: usize = 0;
    while i < list.len()
        invariant
            i <= list@.len(),
            l == list@.map_values(|s: &'static str| s@),
            forall|j: int| 0 <= j < i ==> l[j] != name@,
        decreases list@.len() - i,
    {
        if str_is(name, list[i]) {
            assert(l[i as int] == name@);
            return true;
        }
        i = i + 1;
    }
    false
}

impl AllocatorDetector {
    /// A detector for the project at `project_root`.
    pub fn new(project_root: &str) -> (r: Self)
        ensures
            r.project_root@ == project_root@,
    {
        AllocatorDetector { project_root: to_string(project_root) }
    }

    /// Whether the crate is known to allocate heavily.
    pub fn is_allocation_heavy(crate_name: &str) -> (b: bool)
        ensures
            b == allocation_heavy_names().contains(crate_name@),
    {
        let list: Vec<&'static str> = vec![
            "regex", "regex-syntax", "fancy-regex",
            "serde_json", "serde_yaml", "toml", "toml_edit", "ron",
            "syn", "swc_core", "swc_ecma_parser", "nom", "pest", "lalrpop-util",
            "html5ever", "xml-rs", "quick-xml",
            "petgraph", "indexmap", "linked-hash-map",
            "format_bytes", "indoc",
            "actix-web", "axum", "warp", "rocket",
            "sqlx", "diesel", "sea-orm",
            "openssl", "rustls", "ring",
            "flate2", "brotli", "zstd",
            "tera", "handlebars", "askama",
            "clap", "structopt",
        ];
        let b = listed(crate_name, &list);
        assert(list@.map_values(|s: &'static str| s@) == allocation_heavy_names());
        b
    }

    /// Whether the crate is itself a small WASM allocator.
    pub fn is_custom_allocator(crate_name: &str) -> (b: bool)
        ensures
            b == custom_allocator_names().contains(crate_name@),
    {
        let list: Vec<&'static str> = vec!["wee_alloc", "lol_alloc", "dlmalloc"];
        let b = listed(crate_name, &list);
        assert(list@.map_values(|s: &'static str| s@) == custom_allocator_names());
        b
    }

    /// Estimated savings `(min_kb, max_kb)` for `heavy_dep_count` heavy crates:
    /// 10 KB plus 2 KB each (at most 50), 20 KB plus 4 KB each (at most 100).
    pub fn estimate_allocator_savings(&self, heavy_dep_count: usize) -> (r: (u32, u32))
        requires
            20 + 4 * (heavy_dep_count as u32) <= u32::MAX,
        ensures
            r == allocator_savings(heavy_dep_count as u32),
    {
        let n: u32 = heavy_dep_count as u32;
        let lo: u32 = 10 + n * 2;
        let hi: u32 = 20 + n * 4;
        (if lo < 50 {
            lo
        } else {
            50
        }, if hi < 100 {
            hi
        } else {
            100
        })
    }

    /// How many of the packages are allocation-heavy.
    pub fn count_allocation_heavy_deps(&self, package_names: &Vec<String>) -> (n: usize)
        ensures
            n == count_heavy(string_views(package_names@)),
    {
        let mut n: usize = 0;
        let mut i: usize = 0;
        while i < package_names.len()
            invariant
                i <= package_names@.len(),
                n == count_heavy(string_views(package_names@).take(i as int)),
                n <= i,
            decreases package_names@.len() - i,
        {
            proof {
                assert(string_views(package_names@).take(i + 1).drop_last() == string_views(
                    package_names@,
                ).take(i as int));
            }
            if Self::is_allocation_heavy(package_names[i].as_str()) {
                n = n + 1;
            }
            i = i + 1;
        }
        assert(string_views(package_names@).take(i as int) == string_views(package_names@));
        n
    }

    /// The allocator issue of a project whose packages are named `package_names`:
    /// none when a custom allocator is present or fewer than 5 crates allocate heavily.
    pub fn check_allocator_for_packages(&self, package_names: &Vec<String>) -> (r: Option<
        DependencyIssue,
    >)
        requires
            20 + 4 * (count_heavy(string_views(package_names@)) as u32) <= u32::MAX,
        ensures
            match r {
                Some(issue) => allocator_issue(string_views(package_names@)) == Some(issue@),
                None => allocator_issue(string_views(package_names@)) is None,
            },
    {
        let mut i: usize = 0;
        while i < package_names.len()
            invariant
                i <= package_names@.len(),
                forall|j: int|
                    0 <= j < i ==> !custom_allocator_names().contains(
                        #[trigger] string_views(package_names@)[j],
                    ),
            decreases package_names@.len() - i,
        {
            if Self::is_custom_allocator(package_names[i].as_str()) {
                assert(custom_allocator_names().contains(string_views(package_names@)[i as int]));
                return None;
            }
            i = i + 1;
        }
        let n = self.count_allocation_heavy_deps(package_names);
        if n >= 5 {
            let savings = self.estimate_allocator_savings(n);
            let mut text = String::from_str("No custom allocator detected. Project has ");
            push_dec(&mut text, n as u64);
            push_str(
                &mut text,
                " allocation-heavy dependencies using default system allocator.",
            );
            Some(
                DependencyIssue {
                    package: String::from_str("wasm-allocator"),
                    version: String::from_str("n/a"),
                    severity: IssueSeverity::Medium,
                    issue: text,
                    suggestion: String::from_str(
                        "Add wee_alloc for 2-5% size reduction:\n\n   [dependencies]\n   wee_alloc = \"0.4.5\"\n\n   And configure global allocator in lib.rs:\n   #[cfg(target_arch = \"wasm32\")]\n   #[global_allocator]\n   static ALLOC: wee_alloc::WeeAlloc = wee_alloc::WeeAlloc::INIT;\n\n   Note: wee_alloc trades smaller size for slightly slower allocation performance.",
                    ),
                    size_impact_kb: Some(savings),
                    savings_percent: Some(3),
                },
            )
        } else {
            None
        }
    }
}

} // verus!
