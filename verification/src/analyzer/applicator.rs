//! Planning of the fixes that a dependency report suggests for `Cargo.toml`.
//!
//! The planner reads a dependency's entry in `[dependencies]` (as the caller
//! finds it in the document) and decides the edit: turn off default features,
//! add WASM features, or leave the entry alone. The caller performs the edit on
//! the document, which keeps its formatting.
use vstd::prelude::*;
use vstd::string::*;
use crate::analyzer::deps_types::{DependencyIssue, DependencyReport};
use crate::analyzer::heavy_deps::{
    AltSpec,
    AlternativeType,
    HeavySpec,
    get_heavy_dependency_info,
    heavy_db,
};
use crate::text::{
    chars_of,
    distinct_in_order,
    starts_with,
    starts_with_str,
    str_is,
    string_views,
    strings_contain,
    to_string,
};

verus! {

broadcast use vstd::string::group_string_axioms;

/// Applies the suggestions of a dependency report to one project.
pub struct SuggestionApplicator {
    /// The directory holding the project's `Cargo.toml`.
    pub project_root: String,
}

/// The `features` key of a dependency table.
#[derive(Debug, Clone)]
pub enum FeaturesKey {
    /// No `features` key.
    Absent,
    /// An array; each element's text when it is a string.
    Array(Vec<Option<String>>),
    /// A value that is not an array.
    NotArray,
}

/// What the fixes read of a dependency written as a table.
#[derive(Debug, Clone)]
pub struct EntryKeys {
    /// Whether the table has a `default-features` key.
    pub has_default_features: bool,
    /// Its `features` key.
    pub features: FeaturesKey,
    /// Its `version`, when that is a string.
    pub version: Option<String>,
}

/// How a dependency is written in `[dependencies]`.
#[derive(Debug, Clone)]
pub enum DepEntry {
    /// No `[dependencies]` table, or no entry for the package.
    Missing,
    /// `name = "version"`.
    Version(String),
    /// `name = { ... }`.
    Inline(EntryKeys),
    /// `[dependencies.name]`.
    Table(EntryKeys),
    /// Any other value.
    Other,
}

/// The edit that a fix makes.
#[derive(Debug, Clone)]
pub enum FixAction {
    /// Leave the entry as it is.
    Keep,
    /// Replace the version string by a table holding `version`, then
    /// `default-features = false` when asked, then `features` when given.
    VersionToTable { version: String, default_features_off: bool, features: Option<Vec<String>> },
    /// Replace the inline table by a regular table with the same keys, then set
    /// `default-features = false` when asked, set `features` when given, and
    /// append `append_features` to the `features` array (created empty if absent).
    InlineToTable {
        default_features_off: bool,
        features: Option<Vec<String>>,
        append_features: Vec<String>,
    },
    /// Change the table in place in the same way.
    UpdateTable {
        default_features_off: bool,
        features: Option<Vec<String>>,
        append_features: Vec<String>,
    },
}

/// The value of a `features` key.
pub enum FeaturesView {
    Absent,
    Array(Seq<Option<Seq<char>>>),
    NotArray,
}

pub open spec fn features_view(k: FeaturesKey) -> FeaturesView {
    match k {
        FeaturesKey::Absent => FeaturesView::Absent,
        FeaturesKey::Array(v) => FeaturesView::Array(opt_views(v@)),
        FeaturesKey::NotArray => FeaturesView::NotArray,
    }
}

pub open spec fn opt_view(x: Option<String>) -> Option<Seq<char>> {
    match x {
        Some(s) => Some(s@),
        None => None,
    }
}

pub open spec fn opt_views(v: Seq<Option<String>>) -> Seq<Option<Seq<char>>> {
    v.map_values(|x: Option<String>| opt_view(x))
}

pub open spec fn opt_list_view(x: Option<Vec<String>>) -> Option<Seq<Seq<char>>> {
    match x {
        Some(v) => Some(string_views(v@)),
        None => None,
    }
}

/// The value of the keys of a dependency table.
pub struct KeysView {
    pub has_default_features: bool,
    pub features: FeaturesView,
    pub version: Option<Seq<char>>,
}

/// The value of a `DepEntry`.
pub enum EntryView {
    Missing,
    Version(Seq<char>),
    Inline(KeysView),
    Table(KeysView),
    Other,
}

pub open spec fn keys_view(k: EntryKeys) -> KeysView {
    KeysView {
        has_default_features: k.has_default_features,
        features: features_view(k.features),
        version: opt_view(k.version),
    }
}

pub open spec fn entry_view(e: DepEntry) -> EntryView {
    match e {
        DepEntry::Missing => EntryView::Missing,
        DepEntry::Version(v) => EntryView::Version(v@),
        DepEntry::Inline(k) => EntryView::Inline(keys_view(k)),
        DepEntry::Table(k) => EntryView::Table(keys_view(k)),
        DepEntry::Other => EntryView::Other,
    }
}

/// The value of a `FixAction`.
pub enum ActionView {
    Keep,
    VersionToTable { version: Seq<char>, default_features_off: bool, features: Option<Seq<Seq<char>>> },
    InlineToTable {
        default_features_off: bool,
        features: Option<Seq<Seq<char>>>,
        append_features: Seq<Seq<char>>,
    },
    UpdateTable {
        default_features_off: bool,
        features: Option<Seq<Seq<char>>>,
        append_features: Seq<Seq<char>>,
    },
}

pub open spec fn action_view(a: FixAction) -> ActionView {
    match a {
        FixAction::Keep => ActionView::Keep,
        FixAction::VersionToTable { version, default_features_off, features } => ActionView::VersionToTable {
            version: version@,
            default_features_off,
            features: opt_list_view(features),
        },
        FixAction::InlineToTable { default_features_off, features, append_features } => ActionView::InlineToTable {
            default_features_off,
            features: opt_list_view(features),
            append_features: string_views(append_features@),
        },
        FixAction::UpdateTable { default_features_off, features, append_features } => ActionView::UpdateTable {
            default_features_off,
            features: opt_list_view(features),
            append_features: string_views(append_features@),
        },
    }
}

/// The minimal features of the packages whose defaults are turned off.
pub open spec fn minimal_features(package: Seq<char>) -> Option<Seq<Seq<char>>> {
    if package == "lopdf"@ {
        Some(seq!["pom_parser"@])
    } else if package == "image"@ {
        Some(seq!["png"@])
    } else {
        None
    }
}

/// The features a package needs on WASM: getrandom 0.2 needs `js`, later or
/// unknown versions `wasm_js`.
pub open spec fn wasm_features(package: Seq<char>, version: Option<Seq<char>>) -> Option<
    Seq<Seq<char>>,
> {
    if package == "getrandom"@ {
        match version {
            Some(v) => if starts_with(v, "0.2"@) || starts_with(v, "^0.2"@) {
                Some(seq!["js"@])
            } else {
                Some(seq!["wasm_js"@])
            },
            None => Some(seq!["wasm_js"@]),
        }
    } else {
        None
    }
}

/// The wanted features that the array `existing` lacks, each once, in order.
pub open spec fn missing_features(existing: Seq<Option<Seq<char>>>, wanted: Seq<Seq<char>>) -> Seq<
    Seq<char>,
>
    decreases wanted.len(),
{
    if wanted.len() == 0 {
        seq![]
    } else {
        let m = missing_features(existing, wanted.drop_last());
        let f = wanted.last();
        if existing.contains(Some(f)) || m.contains(f) {
            m
        } else {
            m.push(f)
        }
    }
}

/// The features that appending `wanted` to the `features` key adds: all of
/// them to an absent key, the lacking ones to an array, none to another value.
pub open spec fn appended(k: FeaturesView, wanted: Seq<Seq<char>>) -> Seq<Seq<char>> {
    match k {
        FeaturesView::Absent => missing_features(seq![], wanted),
        FeaturesView::Array(existing) => missing_features(existing, wanted),
        FeaturesView::NotArray => seq![],
    }
}

/// Feature minimization: a version string becomes a table with
/// `default-features = false` and the package's minimal features; a table
/// without `default-features` gets it (and the minimal features when it has no
/// `features`); anything else is kept. The flag says whether the entry changes.
pub open spec fn minimization_plan(package: Seq<char>, entry: EntryView) -> (bool, ActionView) {
    match entry {
        EntryView::Version(v) => (
            true,
            ActionView::VersionToTable {
                version: v,
                default_features_off: true,
                features: minimal_features(package),
            },
        ),
        EntryView::Inline(k) => if !k.has_default_features {
            (
                true,
                ActionView::InlineToTable {
                    default_features_off: true,
                    features: if k.features is Absent {
                        minimal_features(package)
                    } else {
                        None
                    },
                    append_features: seq![],
                },
            )
        } else {
            (false, ActionView::Keep)
        },
        EntryView::Table(k) => if !k.has_default_features {
            (
                true,
                ActionView::UpdateTable {
                    default_features_off: true,
                    features: if k.features is Absent {
                        minimal_features(package)
                    } else {
                        None
                    },
                    append_features: seq![],
                },
            )
        } else {
            (false, ActionView::Keep)
        },
        _ => (false, ActionView::Keep),
    }
}

/// WASM fix: a version string becomes a table with the package's WASM features;
/// a table gets the WASM features it lacks (an inline one becomes a regular
/// table then); nothing changes when there are none to add.
pub open spec fn wasm_plan(package: Seq<char>, entry: EntryView) -> (bool, ActionView) {
    match entry {
        EntryView::Version(v) => (
            true,
            ActionView::VersionToTable {
                version: v,
                default_features_off: false,
                features: wasm_features(package, Some(v)),
            },
        ),
        EntryView::Inline(k) => match wasm_features(package, k.version) {
            Some(w) => if appended(k.features, w).len() > 0 {
                (
                    true,
                    ActionView::InlineToTable {
                        default_features_off: false,
                        features: None,
                        append_features: appended(k.features, w),
                    },
                )
            } else {
                (false, ActionView::Keep)
            },
            None => (false, ActionView::Keep),
        },
        EntryView::Table(k) => match wasm_features(package, k.version) {
            Some(w) => if appended(k.features, w).len() > 0 {
                (
                    true,
                    ActionView::UpdateTable {
                        default_features_off: false,
                        features: None,
                        append_features: appended(k.features, w),
                    },
                )
            } else {
                (false, ActionView::Keep)
            },
            None => (false, ActionView::Keep),
        },
        _ => (false, ActionView::Keep),
    }
}

/// The fix for an alternative of a kind: feature minimization and WASM fixes
/// are planned, replacements, splits and optional dependencies left alone.
pub open spec fn fix_plan(package: Seq<char>, alt_type: AlternativeType, entry: EntryView) -> (
    bool,
    ActionView,
) {
    match alt_type {
        AlternativeType::FeatureMinimization => minimization_plan(package, entry),
        AlternativeType::WasmFix => wasm_plan(package, entry),
        _ => (false, ActionView::Keep),
    }
}

/// The alternative with the highest savings; of equal ones the last, as
/// `Iterator::max_by_key` picks.
pub open spec fn best_alternative(alts: Seq<AltSpec>) -> AltSpec
    decreases alts.len(),
{
    if alts.len() <= 1 {
        alts[0]
    } else if alts.last().savings_percent >= best_alternative(alts.drop_last()).savings_percent {
        alts.last()
    } else {
        best_alternative(alts.drop_last())
    }
}

/// The packages of the issues, each once, in order of first appearance.
pub open spec fn issue_packages(issues: Seq<DependencyIssue>) -> Seq<Seq<char>> {
    distinct_in_order(issues.map_values(|i: DependencyIssue| i.package@))
}

/// The fixes to try for the packages `ps`: each known heavy crate with its best
/// alternative's kind and savings.
pub open spec fn targets_for(ps: Seq<Seq<char>>) -> Seq<(Seq<char>, AlternativeType, u8)>
    decreases ps.len(),
{
    if ps.len() == 0 {
        seq![]
    } else {
        targets_for(ps.drop_last()) + match heavy_db(ps.last()) {
            Some(h) => if h.alternatives.len() > 0 {
                seq![
                    (
                        ps.last(),
                        best_alternative(h.alternatives).alt_type,
                        best_alternative(h.alternatives).savings_percent,
                    ),
                ]
            } else {
                seq![]
            },
            None => seq![],
        }
    }
}

pub open spec fn target_views(v: Seq<(String, AlternativeType, u8)>) -> Seq<(Seq<char>, AlternativeType, u8)> {
    v.map_values(|x: (String, AlternativeType, u8)| (x.0@, x.1, x.2))
}

fn names_of(v: Vec<&'static str>) -> (r: Vec<String>)
    ensures
        string_views(r@) == v@.map_values(|s: &'static str| s@),
{
    let mut r: Vec<String> = Vec::new();
    let mut i: usize = 0;
    while i < v.len()
        invariant
            i <= v@.len(),
            string_views(r@) == v@.take(i as int).map_values(|s: &'static str| s@),
        decreases v@.len() - i,
    {
        let ghost before = r@;
        r.push(to_string(v[i]));
        proof {
            assert(v@.take(i + 1) == v@.take(i as int).push(v@[i as int]));
            assert(string_views(r@) == string_views(before).push(v@[i as int]@));
        }
        i = i + 1;
    }
    assert(v@.take(i as int) == v@);
    r
}

fn opt_names(v: Option<Vec<&'static str>>) -> (r: Option<Vec<String>>)
    ensures
        opt_list_view(r) == match v {
            Some(x) => Some(x@.map_values(|s: &'static str| s@)),
            None => None,
        },
{
    match v {
        Some(x) => Some(names_of(x)),
        None => None,
    }
}

/// The features of `wanted` that `existing` lacks, each once.
fn missing_of(existing: &Vec<Option<String>>, wanted: &Vec<String>) -> (r: Vec<String>)
    ensures
        string_views(r@) == missing_features(
            opt_views(existing@),
            string_views(wanted@),
        ),
{
    let ghost ev = opt_views(existing@);
    let ghost wv = string_views(wanted@);
    let mut r: Vec<String> = Vec::new();
    let mut i: usize = 0;
    while i < wanted.len()
        invariant
            i <= wanted@.len(),
            ev == opt_views(existing@),
            wv == string_views(wanted@),
            string_views(r@) == missing_features(ev, wv.take(i as int)),
        decreases wanted@.len() - i,
    {
        let f = &wanted[i];
        assert(wv.take(i + 1).drop_last() == wv.take(i as int));
        assert(wv.take(i + 1).last() == f@);
        let mut present = false;
        let mut j: usize = 0;
        while j < existing.len()
            invariant
                j <= existing@.len(),
                ev == opt_views(existing@),
                present <==> exists|t: int| 0 <= t < j && ev[t] == Some(f@),
            decreases existing@.len() - j,
        {
            match &existing[j] {
                Some(s) => {
                    if *s == *f {
                        present = true;
                    }
                },
                None => {},
            }
            assert(ev[j as int] == opt_view(existing@[j as int]));
            j = j + 1;
        }
        proof {
            if ev.contains(Some(f@)) {
                let t = choose|t: int| 0 <= t < ev.len() && ev[t] == Some(f@);
                assert(present);
            }
            if present {
                let t = choose|t: int| 0 <= t < j && ev[t] == Some(f@);
                assert(ev.contains(Some(f@)));
            }
        }
        if !present && !strings_contain(&r, f) {
            let ghost before = r@;
            r.push(f.clone());
            assert(string_views(r@) == string_views(before).push(f@));
        }
        i = i + 1;
    }
    assert(wv.take(i as int) == wv);
    r
}

/// The features that appending `wanted` to the key `k` adds.
fn appended_of(k: &FeaturesKey, wanted: &Vec<String>) -> (r: Vec<String>)
    ensures
        string_views(r@) == appended(features_view(*k), string_views(wanted@)),
{
    match k {
        FeaturesKey::Absent => {
            let empty: Vec<Option<String>> = Vec::new();
            let ghost ev = opt_views(empty@);
            assert(ev == Seq::<Option<Seq<char>>>::empty());
            let r = missing_of(&empty, wanted);
            assert(appended(features_view(*k), string_views(wanted@)) == missing_features(
                ev,
                string_views(wanted@),
            ));
            r
        },
        FeaturesKey::Array(v) => missing_of(v, wanted),
        FeaturesKey::NotArray => Vec::new(),
    }
}

impl SuggestionApplicator {
    /// An applicator for the project at `project_root`.
    pub fn new(project_root: &str) -> (r: Self)
        ensures
            r.project_root@ == project_root@,
    {
        SuggestionApplicator { project_root: to_string(project_root) }
    }

    /// The minimal features of the packages whose defaults are turned off.
    pub fn get_minimal_features(&self, package_name: &str) -> (r: Option<Vec<&'static str>>)
        ensures
            match r {
                Some(v) => minimal_features(package_name@) == Some(v@.map_values(|s: &'static str| s@)),
                None => minimal_features(package_name@) is None,
            },
    {
        if str_is(package_name, "lopdf") {
            let v = vec!["pom_parser"];
            proof {
                reveal_strlit("pom_parser");
                assert(v@.map_values(|s: &'static str| s@) == seq!["pom_parser"@]);
            }
            Some(v)
        } else if str_is(package_name, "image") {
            let v = vec!["png"];
            proof {
                assert(v@.map_values(|s: &'static str| s@) == seq!["png"@]);
            }
            Some(v)
        } else {
            None
        }
    }

    /// The features a package needs on WASM, by its version when known.
    pub fn get_wasm_features(&self, package_name: &str, version: Option<&str>) -> (r: Option<
        Vec<&'static str>,
    >)
        ensures
            match r {
                Some(v) => wasm_features(
                    package_name@,
                    match version {
                        Some(s) => Some(s@),
                        None => None,
                    },
                ) == Some(v@.map_values(|s: &'static str| s@)),
                None => wasm_features(
                    package_name@,
                    match version {
                        Some(s) => Some(s@),
                        None => None,
                    },
                ) is None,
            },
    {
        if str_is(package_name, "getrandom") {
            match version {
                Some(ver) => {
                    let vv = chars_of(ver);
                    if starts_with_str(&vv, "0.2") || starts_with_str(&vv, "^0.2") {
                        let v = vec!["js"];
                        assert(v@.map_values(|s: &'static str| s@) == seq!["js"@]);
                        return Some(v);
                    }
                },
                None => {},
            }
            let v = vec!["wasm_js"];
            assert(v@.map_values(|s: &'static str| s@) == seq!["wasm_js"@]);
            Some(v)
        } else {
            None
        }
    }

    /// The feature-minimization edit of the entry of `package_name`, and
    /// whether it changes the entry.
    pub fn plan_feature_minimization(&self, package_name: &str, entry: &DepEntry) -> (r: (
        bool,
        FixAction,
    ))
        ensures
            (r.0, action_view(r.1)) == minimization_plan(package_name@, entry_view(*entry)),
    {
        match entry {
            DepEntry::Version(v) => {
                let features = opt_names(self.get_minimal_features(package_name));
                (
                    true,
                    FixAction::VersionToTable {
                        version: v.clone(),
                        default_features_off: true,
                        features,
                    },
                )
            },
            DepEntry::Inline(k) => {
                if !k.has_default_features {
                    let features = match k.features {
                        FeaturesKey::Absent => opt_names(self.get_minimal_features(package_name)),
                        _ => None,
                    };
                    let none: Vec<String> = Vec::new();
                    assert(string_views(none@) == Seq::<Seq<char>>::empty());
                    let action = FixAction::InlineToTable {
                        default_features_off: true,
                        features,
                        append_features: none,
                    };
                    (true, action)
                } else {
                    (false, FixAction::Keep)
                }
            },
            DepEntry::Table(k) => {
                if !k.has_default_features {
                    let features = match k.features {
                        FeaturesKey::Absent => opt_names(self.get_minimal_features(package_name)),
                        _ => None,
                    };
                    let none: Vec<String> = Vec::new();
                    assert(string_views(none@) == Seq::<Seq<char>>::empty());
                    let action = FixAction::UpdateTable {
                        default_features_off: true,
                        features,
                        append_features: none,
                    };
                    (true, action)
                } else {
                    (false, FixAction::Keep)
                }
            },
            _ => (false, FixAction::Keep),
        }
    }

    /// The WASM-fix edit of the entry of `package_name`, and whether it changes
    /// the entry.
    pub fn plan_wasm_fix(&self, package_name: &str, entry: &DepEntry) -> (r: (bool, FixAction))
        ensures
            (r.0, action_view(r.1)) == wasm_plan(package_name@, entry_view(*entry)),
    {
        match entry {
            DepEntry::Version(v) => {
                let features = opt_names(self.get_wasm_features(package_name, Some(v.as_str())));
                (
                    true,
                    FixAction::VersionToTable {
                        version: v.clone(),
                        default_features_off: false,
                        features,
                    },
                )
            },
            DepEntry::Inline(k) | DepEntry::Table(k) => {
                let version = match &k.version {
                    Some(s) => Some(s.as_str()),
                    None => None,
                };
                match opt_names(self.get_wasm_features(package_name, version)) {
                    Some(w) => {
                        let add = appended_of(&k.features, &w);
                        if add.len() > 0 {
                            let action = match entry {
                                DepEntry::Inline(_) => FixAction::InlineToTable {
                                    default_features_off: false,
                                    features: None,
                                    append_features: add,
                                },
                                _ => FixAction::UpdateTable {
                                    default_features_off: false,
                                    features: None,
                                    append_features: add,
                                },
                            };
                            (true, action)
                        } else {
                            (false, FixAction::Keep)
                        }
                    },
                    None => (false, FixAction::Keep),
                }
            },
            _ => (false, FixAction::Keep),
        }
    }

    /// The edit for an alternative of kind `alt_type`.
    pub fn plan_fix(&self, package_name: &str, alt_type: AlternativeType, entry: &DepEntry) -> (r: (
        bool,
        FixAction,
    ))
        ensures
            (r.0, action_view(r.1)) == fix_plan(package_name@, alt_type, entry_view(*entry)),
    {
        match alt_type {
            AlternativeType::FeatureMinimization => self.plan_feature_minimization(package_name, entry),
            AlternativeType::WasmFix => self.plan_wasm_fix(package_name, entry),
            _ => (false, FixAction::Keep),
        }
    }
    /// The fixes to try for a report: for each package with issues (in order of
    /// first appearance) that is a known heavy crate, its best alternative's
    /// kind and expected savings.
    pub fn fix_targets(&self, report: &DependencyReport) -> (r: Vec<(String, AlternativeType, u8)>)
        ensures
            target_views(r@) == targets_for(issue_packages(report.issues@)),
    {
        let ghost names = report.issues@.map_values(|i: DependencyIssue| i.package@);
        let mut packages: Vec<String> = Vec::new();
        let mut i: usize = 0;
        while i < report.issues.len()
            invariant
                i <= report.issues@.len(),
                names == report.issues@.map_values(|i: DependencyIssue| i.package@),
                string_views(packages@) == distinct_in_order(names.take(i as int)),
            decreases report.issues@.len() - i,
        {
            assert(names.take(i + 1).drop_last() == names.take(i as int));
            assert(names.take(i + 1).last() == report.issues@[i as int].package@);
            if !strings_contain(&packages, &report.issues[i].package) {
                let ghost before = packages@;
                packages.push(report.issues[i].package.clone());
                assert(string_views(packages@) == string_views(before).push(
                    report.issues@[i as int].package@,
                ));
            }
            i = i + 1;
        }
        assert(names.take(i as int) == names);
        let ghost ps = string_views(packages@);
        let mut targets: Vec<(String, AlternativeType, u8)> = Vec::new();
        let mut t: usize = 0;
        while t < packages.len()
            invariant
                t <= packages@.len(),
                ps == string_views(packages@),
                target_views(targets@) == targets_for(ps.take(t as int)),
            decreases packages@.len() - t,
        {
            assert(ps.take(t + 1).drop_last() == ps.take(t as int));
            assert(ps.take(t + 1).last() == packages@[t as int]@);
            let ghost before = targets@;
            match get_heavy_dependency_info(packages[t].as_str()) {
                Some(h) => {
                    let ghost alts = h@.alternatives;
                    if h.alternatives.len() > 0 {
                        let mut best: usize = 0;
                        let mut j: usize = 1;
                        assert(alts.take(1).len() == 1);
                        assert(best_alternative(alts.take(1)) == alts[0]);
                        while j < h.alternatives.len()
                            invariant
                                1 <= j <= h.alternatives@.len(),
                                alts == h@.alternatives,
                                best < j,
                                alts[best as int] == best_alternative(alts.take(j as int)),
                            decreases h.alternatives@.len() - j,
                        {
                            assert(alts.take(j + 1).drop_last() == alts.take(j as int));
                            assert(alts.take(j + 1).last() == alts[j as int]);
                            assert(alts[j as int] == h.alternatives@[j as int]@);
                            assert(alts[best as int] == h.alternatives@[best as int]@);
                            if h.alternatives[j].savings_percent >= h.alternatives[best].savings_percent {
                                best = j;
                            }
                            j = j + 1;
                        }
                        assert(alts.take(j as int) == alts);
                        assert(alts[best as int] == h.alternatives@[best as int]@);
                        let entry = (
                            packages[t].clone(),
                            h.alternatives[best].alt_type,
                            h.alternatives[best].savings_percent,
                        );
                        targets.push(entry);
                        assert(target_views(targets@) == target_views(before).push(
                            (entry.0@, entry.1, entry.2),
                        ));
                    }
                },
                None => {},
            }
            t = t + 1;
        }
        assert(ps.take(t as int) == ps);
        targets
    }
}

/// Whether an edit sets the `features` key outright (rather than appending).
pub open spec fn sets_features(a: ActionView) -> bool {
    match a {
        ActionView::Keep => false,
        ActionView::VersionToTable { features, .. } => features is Some,
        ActionView::InlineToTable { features, .. } => features is Some,
        ActionView::UpdateTable { features, .. } => features is Some,
    }
}

/// No planned fix replaces a `features` key that the dependency already has:
/// for an inline or regular table whose `features` key is present, the plan
/// of any kind of alternative sets no features (it may only append to them).
/// Only a plain version string, which has no such key, gets its features set.
pub proof fn lemma_fix_keeps_existing_features(package: Seq<char>, alt_type: AlternativeType, k: KeysView)
    requires
        !(k.features is Absent),
    ensures
        !sets_features(fix_plan(package, alt_type, EntryView::Table(k)).1),
        !sets_features(fix_plan(package, alt_type, EntryView::Inline(k)).1),
        !sets_features(minimization_plan(package, EntryView::Table(k)).1),
        !sets_features(minimization_plan(package, EntryView::Inline(k)).1),
{
}

} // verus!
