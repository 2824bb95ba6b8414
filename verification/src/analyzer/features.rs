//! Detection of enabled feature flags that are probably unused, from the
//! packages of `cargo metadata` and the features that `cargo tree` reports.
use vstd::prelude::*;
use vstd::string::*;
use crate::text::{
    CharClass,
    occurs_at,
    chars_of,
    joined_words,
    line_ranges,
    lines,
    pieces,
    ranges_ok,
    split_char,
    split_ranges,
    string_of_range,
    strip_bounds,
    trim,
    word_ranges,
    words,
    contains,
    contains_str,
    distinct_in_order,
    joined,
    push_str,
    str_is,
    string_views,
    strings_contain,
    to_string,
};

verus! {

broadcast use vstd::string::group_string_axioms;

/// Errors of the feature analysis.
#[derive(Debug, Clone, PartialEq, Eq)]
pub enum FeatureAnalysisError {
    /// `cargo metadata` failed, with its message.
    MetadataCommand(String),
    /// I/O error, with its message.
    Io(String),
    /// Output that is not UTF-8, with the error's message.
    Utf8(String),
    /// `cargo tree` failed.
    CargoTreeFailed,
}

impl FeatureAnalysisError {
    /// The error message.
    pub fn to_string(&self) -> (r: String)
        ensures
            r@ == match *self {
                FeatureAnalysisError::MetadataCommand(m) => "Failed to run cargo metadata: "@ + m@,
                FeatureAnalysisError::Io(m) => "I/O error: "@ + m@,
                FeatureAnalysisError::Utf8(m) => "UTF-8 error: "@ + m@,
                FeatureAnalysisError::CargoTreeFailed => "cargo tree failed"@,
            },
    {
        let mut s = String::new();
        match self {
            FeatureAnalysisError::MetadataCommand(m) => {
                push_str(&mut s, "Failed to run cargo metadata: ");
                push_str(&mut s, m.as_str());
            },
            FeatureAnalysisError::Io(m) => {
                push_str(&mut s, "I/O error: ");
                push_str(&mut s, m.as_str());
            },
            FeatureAnalysisError::Utf8(m) => {
                push_str(&mut s, "UTF-8 error: ");
                push_str(&mut s, m.as_str());
            },
            FeatureAnalysisError::CargoTreeFailed => {
                push_str(&mut s, "cargo tree failed");
            },
        }
        s
    }
}

/// Feature flag analyzer of one project.
pub struct FeatureAnalyzer {
    /// The directory holding the project's `Cargo.toml`.
    pub project_root: String,
}

/// A feature that is probably unused.
#[derive(Debug, Clone)]
pub struct UnusedFeature {
    /// Package name.
    pub package: String,
    /// Feature name.
    pub feature: String,
    /// How the feature is enabled (`implicit` or `explicit`).
    pub enabled_by: String,
    /// Estimated size impact in KB.
    pub estimated_impact_kb: u64,
    /// Confidence level (`High`, `Medium`, `Low`).
    pub confidence: String,
}

/// The value of an `UnusedFeature`.
pub struct UnusedView {
    pub package: Seq<char>,
    pub feature: Seq<char>,
    pub enabled_by: Seq<char>,
    pub estimated_impact_kb: u64,
    pub confidence: Seq<char>,
}

impl View for UnusedFeature {
    type V = UnusedView;

    open spec fn view(&self) -> UnusedView {
        UnusedView {
            package: self.package@,
            feature: self.feature@,
            enabled_by: self.enabled_by@,
            estimated_impact_kb: self.estimated_impact_kb,
            confidence: self.confidence@,
        }
    }
}

/// Complete feature analysis results.
#[derive(Debug)]
pub struct FeatureAnalysisResults {
    /// Features enabled in the dependencies.
    pub total_features: usize,
    /// Features that are probably unused.
    pub unused_features: Vec<UnusedFeature>,
    /// Estimated total savings in KB.
    pub estimated_savings_kb: u64,
    /// Recommendations.
    pub recommendations: Vec<String>,
}

/// Features that usually go unused, by package; the first rule that fits
/// decides: serde's `rc` and `unstable`; tokio's `fs`, `io-std`, `process`,
/// `signal`; regex's `unicode` and `unicode-perl`; chrono's `clock` but not its
/// `std`; no package's `std`; any feature naming `test`, `bench`, `unstable` or
/// `nightly`.
pub open spec fn commonly_unused(package: Seq<char>, feature: Seq<char>) -> bool {
    if package == "serde"@ && (feature == "rc"@ || feature == "unstable"@) {
        true
    } else if package == "tokio"@ && (feature == "fs"@ || feature == "io-std"@ || feature
        == "process"@ || feature == "signal"@) {
        true
    } else if package == "regex"@ && (feature == "unicode"@ || feature == "unicode-perl"@) {
        true
    } else if package == "chrono"@ && feature == "clock"@ {
        true
    } else if feature == "std"@ {
        false
    } else if contains(feature, "test"@) || contains(feature, "bench"@) {
        true
    } else {
        contains(feature, "unstable"@) || contains(feature, "nightly"@)
    }
}

/// Estimated size of a feature in KB: regex's unicode tables 300, any tokio
/// feature 100, serde 20, chrono 50, another package's `default` 50, else 30.
pub open spec fn feature_impact(package: Seq<char>, feature: Seq<char>) -> u64 {
    if package == "regex"@ && feature == "unicode"@ {
        300
    } else if package == "tokio"@ {
        100
    } else if package == "serde"@ {
        20
    } else if package == "chrono"@ {
        50
    } else if feature == "default"@ {
        50
    } else {
        30
    }
}

/// How sure the detection is: high for regex's `unicode`, tokio's `fs` and
/// `process` and features naming `test`; medium for `default`; low otherwise.
pub open spec fn confidence_level(package: Seq<char>, feature: Seq<char>) -> Seq<char> {
    if package == "regex"@ && feature == "unicode"@ {
        "High"@
    } else if package == "tokio"@ && (feature == "fs"@ || feature == "process"@) {
        "High"@
    } else if feature == "default"@ {
        "Medium"@
    } else if contains(feature, "test"@) {
        "High"@
    } else {
        "Low"@
    }
}

/// What `format!("{:?}", s)` writes for a string slice `s`: `s` in double quotes
/// with its special characters escaped.
pub uninterp spec fn debug_str(s: Seq<char>) -> Seq<char>;

/// Calls `<str as Debug>::fmt` (through `format!("{:?}", s)`): the result is
/// named `debug_str(s)`; the escaping rules it follows are not stated here.
#[verifier::external_body]
fn debug_quoted(s: &str) -> (r: String)
    ensures
        r@ == debug_str(s@),
{
    format!("{:?}", s)
}

/// A list of names as `{:?}` writes a `Vec<&str>`: `["a", "b"]`.
pub open spec fn debug_list(items: Seq<Seq<char>>) -> Seq<char> {
    "["@ + joined(items.map_values(|s: Seq<char>| debug_str(s)), ", "@) + "]"@
}

pub open spec fn unused_views(v: Seq<UnusedFeature>) -> Seq<UnusedView> {
    v.map_values(|x: UnusedFeature| x@)
}

/// The packages of the unused features, each once, in order of first appearance.
pub open spec fn unused_packages(u: Seq<UnusedView>) -> Seq<Seq<char>> {
    distinct_in_order(u.map_values(|x: UnusedView| x.package))
}

/// Whether `default` of package `p` is among the unused features.
pub open spec fn has_default(u: Seq<UnusedView>, p: Seq<char>) -> bool {
    exists|i: int| 0 <= i < u.len() && (#[trigger] u[i]).package == p && u[i].feature == "default"@
}

/// The unused features of package `p` other than `default`, in order.
pub open spec fn explicit_features(u: Seq<UnusedView>, p: Seq<char>) -> Seq<Seq<char>>
    decreases u.len(),
{
    if u.len() == 0 {
        seq![]
    } else if u.last().package == p && u.last().feature != "default"@ {
        explicit_features(u.drop_last(), p).push(u.last().feature)
    } else {
        explicit_features(u.drop_last(), p)
    }
}

/// The recommendations for package `p`: turn off its default features when
/// `default` is unused, and remove its other unused features.
pub open spec fn package_recommendations(u: Seq<UnusedView>, p: Seq<char>) -> Seq<Seq<char>> {
    (if has_default(u, p) {
        seq!["Add 'default-features = false' to '"@ + p + "' in Cargo.toml"@]
    } else {
        seq![]
    }) + (if explicit_features(u, p).len() > 0 {
        seq![
            "Consider removing features "@ + debug_list(explicit_features(u, p)) + " from '"@ + p
                + "' if not used"@,
        ]
    } else {
        seq![]
    })
}

pub open spec fn recommendations_over(u: Seq<UnusedView>, ps: Seq<Seq<char>>) -> Seq<Seq<char>>
    decreases ps.len(),
{
    if ps.len() == 0 {
        seq![]
    } else {
        recommendations_over(u, ps.drop_last()) + package_recommendations(u, ps.last())
    }
}

/// All recommendations: the per-package ones, package by package; a note that
/// all is well when nothing is unused.
pub open spec fn feature_recommendations(u: Seq<UnusedView>) -> Seq<Seq<char>> {
    if u.len() == 0 {
        seq!["✅ No obvious unused features detected"@]
    } else {
        recommendations_over(u, unused_packages(u))
    }
}

/// `debug_list` of `items`.
fn debug_list_of(items: &Vec<String>) -> (r: String)
    ensures
        r@ == debug_list(string_views(items@)),
{
    let ghost q = string_views(items@).map_values(|s: Seq<char>| debug_str(s));
    let mut body = String::new();
    let mut i: usize = 0;
    while i < items.len()
        invariant
            i <= items@.len(),
            q == string_views(items@).map_values(|s: Seq<char>| debug_str(s)),
            body@ == joined(q.take(i as int), ", "@),
        decreases items@.len() - i,
    {
        let d = debug_quoted(items[i].as_str());
        proof {
            assert(q.take(i + 1).drop_last() == q.take(i as int));
            assert(q.take(i + 1).last() == d@);
            if i == 0 {
                assert(q.take(1) == seq![d@]);
            }
        }
        if i > 0 {
            push_str(&mut body, ", ");
        }
        push_str(&mut body, d.as_str());
        i = i + 1;
    }
    assert(q.take(i as int) == q);
    let mut s = String::from_str("[");
    push_str(&mut s, body.as_str());
    push_str(&mut s, "]");
    s
}

/// The features kept from the comma-separated pieces of a `cargo tree` line:
/// every piece, trimmed, that is not empty once trimmed.
pub open spec fn kept_features(ps: Seq<Seq<char>>) -> Seq<Seq<char>>
    decreases ps.len(),
{
    if ps.len() == 0 {
        seq![]
    } else if trim(ps.last()).len() > 0 {
        kept_features(ps.drop_last()).push(trim(ps.last()))
    } else {
        kept_features(ps.drop_last())
    }
}

/// The features that a line `package_name v0.1.0 feature1,feature2` of
/// `cargo tree --format "{p} {f}"` enables: the words after the package name
/// and its version, joined by spaces and split at commas, as `kept_features`
/// keeps them. A line of fewer than two words enables none.
pub open spec fn line_features(line: Seq<char>) -> Seq<Seq<char>> {
    let ws = words(line);
    if ws.len() < 2 {
        seq![]
    } else {
        kept_features(split_char(joined(ws.skip(2), seq![' ']), ','))
    }
}

/// `acc` with the pairs `(p, f)` for `f` in `fs` added, each pair once.
pub open spec fn add_pairs(
    acc: Seq<(Seq<char>, Seq<char>)>,
    p: Seq<char>,
    fs: Seq<Seq<char>>,
) -> Seq<(Seq<char>, Seq<char>)>
    decreases fs.len(),
{
    if fs.len() == 0 {
        acc
    } else if add_pairs(acc, p, fs.drop_last()).contains((p, fs.last())) {
        add_pairs(acc, p, fs.drop_last())
    } else {
        add_pairs(acc, p, fs.drop_last()).push((p, fs.last()))
    }
}

/// The (package, feature) pairs that the lines enable, each once, in order of
/// first appearance; a line's package is its first word.
pub open spec fn feature_pairs(ls: Seq<Seq<char>>) -> Seq<(Seq<char>, Seq<char>)>
    decreases ls.len(),
{
    if ls.len() == 0 {
        seq![]
    } else if words(ls.last()).len() >= 2 {
        add_pairs(feature_pairs(ls.drop_last()), words(ls.last())[0], line_features(ls.last()))
    } else {
        feature_pairs(ls.drop_last())
    }
}

pub open spec fn pair_views(v: Seq<(String, String)>) -> Seq<(Seq<char>, Seq<char>)> {
    v.map_values(|x: (String, String)| (x.0@, x.1@))
}

/// Whether `v` holds the pair `(p, f)`.
fn pairs_contain(v: &Vec<(String, String)>, p: &String, f: &String) -> (b: bool)
    ensures
        b == pair_views(v@).contains((p@, f@)),
{
    let mut i: usize = 0;
    while i < v.len()
        invariant
            i <= v@.len(),
            forall|j: int| 0 <= j < i ==> (#[trigger] pair_views(v@)[j]) != (p@, f@),
        decreases v@.len() - i,
    {
        if v[i].0 == *p && v[i].1 == *f {
            assert(pair_views(v@)[i as int] == (p@, f@));
            return true;
        }
        assert(pair_views(v@)[i as int] == (v@[i as int].0@, v@[i as int].1@));
        i = i + 1;
    }
    false
}

/// Adds the pairs of the `cargo tree` line `v[lo..hi]` to `pairs`.
fn add_line_pairs(v: &Vec<char>, lo: usize, hi: usize, pairs: &mut Vec<(String, String)>)
    requires
        lo <= hi <= v@.len(),
    ensures
        pair_views(final(pairs)@) == (if words(v@.subrange(lo as int, hi as int)).len() >= 2 {
            add_pairs(
                pair_views(old(pairs)@),
                words(v@.subrange(lo as int, hi as int))[0],
                line_features(v@.subrange(lo as int, hi as int)),
            )
        } else {
            pair_views(old(pairs)@)
        }),
{
    let ghost line = v@.subrange(lo as int, hi as int);
    let w = word_ranges(v, lo, hi);
    if w.len() < 2 {
        return ;
    }
    let ghost ws = pieces(v@, w@);
    assert(words(line) == ws);
    let package = string_of_range(v, w[0].0, w[0].1);
    assert(package@ == ws[0]);
    let jv = joined_words(v, &w, 2);
    let parts = split_ranges(&jv, 0, jv.len(), ',');
    assert(jv@.subrange(0, jv@.len() as int) == jv@);
    let ghost ps = pieces(jv@, parts@);
    assert(ps == split_char(joined(ws.skip(2), seq![' ']), ','));
    let ghost start = pair_views(pairs@);
    let ghost mut kept: Seq<Seq<char>> = seq![];
    let mut i: usize = 0;
    while i < parts.len()
        invariant
            i <= parts@.len(),
            ranges_ok(jv@, parts@),
            ps == pieces(jv@, parts@),
            package@ == ws[0],
            kept == kept_features(ps.take(i as int)),
            pair_views(pairs@) == add_pairs(start, ws[0], kept),
        decreases parts@.len() - i,
    {
        let (a, b) = parts[i];
        assert(parts@[i as int].0 <= parts@[i as int].1 <= jv@.len());
        let ghost x = jv@.subrange(a as int, b as int);
        assert(ps[i as int] == x);
        assert(ps.take(i + 1).drop_last() == ps.take(i as int));
        assert(ps.take(i + 1).last() == x);
        let (c, d) = strip_bounds(&jv, a, b, CharClass::Whitespace);
        assert(jv@.subrange(c as int, d as int) == trim(x));
        if c < d {
            let feature = string_of_range(&jv, c, d);
            let ghost nk = kept.push(feature@);
            assert(nk.drop_last() == kept);
            assert(nk.last() == feature@);
            if !pairs_contain(pairs, &package, &feature) {
                let ghost before = pairs@;
                pairs.push((package.clone(), feature));
                assert(pair_views(pairs@) == pair_views(before).push((ws[0], nk.last())));
            }
            proof {
                kept = nk;
            }
        }
        i = i + 1;
    }
    assert(ps.take(i as int) == ps);
}

/// The (package, feature) pairs that `cargo tree --format "{p} {f}"` output
/// enables.
pub fn parse_feature_tree(output: &str) -> (r: Vec<(String, String)>)
    ensures
        pair_views(r@) == feature_pairs(lines(output@)),
{
    let v = chars_of(output);
    let ranges = line_ranges(&v);
    let ghost ls = pieces(v@, ranges@);
    let mut pairs: Vec<(String, String)> = Vec::new();
    let mut i: usize = 0;
    while i < ranges.len()
        invariant
            i <= ranges@.len(),
            ranges_ok(v@, ranges@),
            ls == pieces(v@, ranges@),
            ls == lines(v@),
            pair_views(pairs@) == feature_pairs(ls.take(i as int)),
        decreases ranges@.len() - i,
    {
        let (a, b) = ranges[i];
        assert(ranges@[i as int].0 <= ranges@[i as int].1 <= v@.len());
        assert(ls[i as int] == v@.subrange(a as int, b as int));
        assert(ls.take(i + 1).drop_last() == ls.take(i as int));
        assert(ls.take(i + 1).last() == ls[i as int]);
        add_line_pairs(&v, a, b, &mut pairs);
        i = i + 1;
    }
    assert(ls.take(i as int) == ls);
    pairs
}

/// A package of the dependency graph with the features it declares (each name
/// with the features it turns on), as `cargo metadata` lists them.
#[derive(Debug, Clone)]
pub struct FeaturePackage {
    /// Crate name.
    pub name: String,
    /// Whether the package is a member of the analysed workspace.
    pub workspace_member: bool,
    /// Declared features, in the order of the metadata.
    pub features: Vec<(String, Vec<String>)>,
}

/// The features that `pairs` enable for package `p`, in order.
pub open spec fn enabled_features(pairs: Seq<(Seq<char>, Seq<char>)>, p: Seq<char>) -> Seq<
    Seq<char>,
>
    decreases pairs.len(),
{
    if pairs.len() == 0 {
        seq![]
    } else if pairs.last().0 == p {
        enabled_features(pairs.drop_last(), p).push(pairs.last().1)
    } else {
        enabled_features(pairs.drop_last(), p)
    }
}

/// The `default` feature, looked up by name, turns on other features.
pub open spec fn default_declared(feats: Seq<(String, Vec<String>)>) -> bool
    decreases feats.len(),
{
    if feats.len() == 0 {
        false
    } else if feats[0].0@ == "default"@ {
        feats[0].1@.len() > 0
    } else {
        default_declared(feats.drop_first())
    }
}

/// The commonly unused features among `en`, enabled explicitly for `name`.
pub open spec fn explicit_unused(name: Seq<char>, en: Seq<Seq<char>>) -> Seq<UnusedView>
    decreases en.len(),
{
    if en.len() == 0 {
        seq![]
    } else if commonly_unused(name, en.last()) {
        explicit_unused(name, en.drop_last()).push(
            UnusedView {
                package: name,
                feature: en.last(),
                enabled_by: "explicit"@,
                estimated_impact_kb: feature_impact(name, en.last()),
                confidence: confidence_level(name, en.last()),
            },
        )
    } else {
        explicit_unused(name, en.drop_last())
    }
}

/// The probably unused features of one package: none for a workspace member;
/// else its `default` (50 KB, medium confidence) when it is enabled and turns on
/// other features, then its commonly unused enabled features.
pub open spec fn package_unused(fp: FeaturePackage, pairs: Seq<(Seq<char>, Seq<char>)>) -> Seq<
    UnusedView,
> {
    if fp.workspace_member {
        seq![]
    } else {
        let en = enabled_features(pairs, fp.name@);
        (if en.contains("default"@) && fp.features@.len() > 0 && default_declared(fp.features@) {
            seq![
                UnusedView {
                    package: fp.name@,
                    feature: "default"@,
                    enabled_by: "implicit"@,
                    estimated_impact_kb: 50,
                    confidence: "Medium"@,
                },
            ]
        } else {
            seq![]
        }) + explicit_unused(fp.name@, en)
    }
}

/// The probably unused features of all packages, package by package.
pub open spec fn all_unused(fps: Seq<FeaturePackage>, pairs: Seq<(Seq<char>, Seq<char>)>) -> Seq<
    UnusedView,
>
    decreases fps.len(),
{
    if fps.len() == 0 {
        seq![]
    } else {
        all_unused(fps.drop_last(), pairs) + package_unused(fps.last(), pairs)
    }
}

/// How many features are enabled in the packages outside the workspace.
pub open spec fn enabled_total(fps: Seq<FeaturePackage>, pairs: Seq<(Seq<char>, Seq<char>)>) -> nat
    decreases fps.len(),
{
    if fps.len() == 0 {
        0
    } else {
        enabled_total(fps.drop_last(), pairs) + (if fps.last().workspace_member {
            0
        } else {
            enabled_features(pairs, fps.last().name@).len()
        })
    }
}

pub open spec fn impact_total(u: Seq<UnusedView>) -> nat
    decreases u.len(),
{
    if u.len() == 0 {
        0
    } else {
        impact_total(u.drop_last()) + u.last().estimated_impact_kb as nat
    }
}

proof fn lemma_impact_total_append(a: Seq<UnusedView>, b: Seq<UnusedView>)
    ensures
        impact_total(a + b) == impact_total(a) + impact_total(b),
    decreases b.len(),
{
    if b.len() > 0 {
        lemma_impact_total_append(a, b.drop_last());
        assert((a + b).drop_last() == a + b.drop_last());
    } else {
        assert(a + b == a);
    }
}

proof fn lemma_impact_total_prefix(u: Seq<UnusedView>, i: int)
    requires
        0 <= i <= u.len(),
    ensures
        impact_total(u.take(i)) <= impact_total(u),
    decreases u.len(),
{
    if i < u.len() {
        assert(u.drop_last().take(i) == u.take(i));
        lemma_impact_total_prefix(u.drop_last(), i);
    } else {
        assert(u.take(i) == u);
    }
}

proof fn lemma_all_unused_prefix(fps: Seq<FeaturePackage>, pairs: Seq<(Seq<char>, Seq<char>)>, i: int)
    requires
        0 <= i <= fps.len(),
    ensures
        impact_total(all_unused(fps.take(i), pairs)) <= impact_total(all_unused(fps, pairs)),
        enabled_total(fps.take(i), pairs) <= enabled_total(fps, pairs),
    decreases fps.len(),
{
    if i < fps.len() {
        assert(fps.drop_last().take(i) == fps.take(i));
        lemma_all_unused_prefix(fps.drop_last(), pairs, i);
        lemma_impact_total_append(all_unused(fps.drop_last(), pairs), package_unused(fps.last(), pairs));
    } else {
        assert(fps.take(i) == fps);
    }
}

/// The features that `pairs` enable for the package `name`.
fn enabled_of(pairs: &Vec<(String, String)>, name: &String) -> (r: Vec<String>)
    ensures
        string_views(r@) == enabled_features(pair_views(pairs@), name@),
{
    let ghost pv = pair_views(pairs@);
    let mut r: Vec<String> = Vec::new();
    let mut i: usize = 0;
    while i < pairs.len()
        invariant
            i <= pairs@.len(),
            pv == pair_views(pairs@),
            string_views(r@) == enabled_features(pv.take(i as int), name@),
        decreases pairs@.len() - i,
    {
        assert(pv.take(i + 1).drop_last() == pv.take(i as int));
        assert(pv.take(i + 1).last() == (pairs@[i as int].0@, pairs@[i as int].1@));
        if pairs[i].0 == *name {
            let ghost before = r@;
            r.push(pairs[i].1.clone());
            assert(string_views(r@) == string_views(before).push(pairs@[i as int].1@));
        }
        i = i + 1;
    }
    assert(pv.take(i as int) == pv);
    r
}

/// Whether the declared `default` feature turns on other features.
fn default_turns_on(feats: &Vec<(String, Vec<String>)>) -> (b: bool)
    ensures
        b == default_declared(feats@),
{
    let mut i: usize = 0;
    assert(feats@.skip(0) == feats@);
    while i < feats.len()
        invariant
            i <= feats@.len(),
            default_declared(feats@) == default_declared(feats@.skip(i as int)),
        decreases feats@.len() - i,
    {
        let ghost rest = feats@.skip(i as int);
        assert(rest[0] == feats@[i as int]);
        if str_is(feats[i].0.as_str(), "default") {
            return feats[i].1.len() > 0;
        }
        assert(rest.drop_first() == feats@.skip(i + 1));
        i = i + 1;
    }
    false
}

impl FeatureAnalyzer {
    /// An analyzer for the project at `project_root`.
    pub fn new(project_root: &str) -> (r: Self)
        ensures
            r.project_root@ == project_root@,
    {
        FeatureAnalyzer { project_root: to_string(project_root) }
    }

    /// Whether `feature` of `package` usually goes unused.
    pub fn is_commonly_unused_feature(&self, package: &str, feature: &str) -> (b: bool)
        ensures
            b == commonly_unused(package@, feature@),
    {
        let fv = chars_of(feature);
        if str_is(package, "serde") && (str_is(feature, "rc") || str_is(feature, "unstable")) {
            true
        } else if str_is(package, "tokio") && (str_is(feature, "fs") || str_is(feature, "io-std")
            || str_is(feature, "process") || str_is(feature, "signal")) {
            true
        } else if str_is(package, "regex") && (str_is(feature, "unicode") || str_is(
            feature,
            "unicode-perl",
        )) {
            true
        } else if str_is(package, "chrono") && str_is(feature, "clock") {
            true
        } else if str_is(feature, "std") {
            false
        } else if contains_str(&fv, "test") || contains_str(&fv, "bench") {
            true
        } else {
            contains_str(&fv, "unstable") || contains_str(&fv, "nightly")
        }
    }

    /// Estimated size impact of a feature in KB.
    pub fn estimate_feature_impact(&self, package: &str, feature: &str) -> (r: u64)
        ensures
            r == feature_impact(package@, feature@),
    {
        if str_is(package, "regex") && str_is(feature, "unicode") {
            300
        } else if str_is(package, "tokio") {
            100
        } else if str_is(package, "serde") {
            20
        } else if str_is(package, "chrono") {
            50
        } else if str_is(feature, "default") {
            50
        } else {
            30
        }
    }

    /// Confidence of the detection of a feature as unused.
    pub fn get_confidence_level(&self, package: &str, feature: &str) -> (r: String)
        ensures
            r@ == confidence_level(package@, feature@),
    {
        let fv = chars_of(feature);
        if str_is(package, "regex") && str_is(feature, "unicode") {
            String::from_str("High")
        } else if str_is(package, "tokio") && (str_is(feature, "fs") || str_is(feature, "process")) {
            String::from_str("High")
        } else if str_is(feature, "default") {
            String::from_str("Medium")
        } else if contains_str(&fv, "test") {
            String::from_str("High")
        } else {
            String::from_str("Low")
        }
    }
    /// Recommendations for the unused features, grouped by package.
    pub fn generate_recommendations(&self, unused_features: &Vec<UnusedFeature>) -> (r: Vec<
        String,
    >)
        ensures
            string_views(r@) == feature_recommendations(unused_views(unused_features@)),
    {
        let ghost u = unused_views(unused_features@);
        let mut recs: Vec<String> = Vec::new();
        if unused_features.len() == 0 {
            recs.push(String::from_str("✅ No obvious unused features detected"));
            assert(string_views(recs@) == seq!["✅ No obvious unused features detected"@]);
            return recs;
        }
        let ghost names = u.map_values(|x: UnusedView| x.package);
        let mut packages: Vec<String> = Vec::new();
        let mut i: usize = 0;
        while i < unused_features.len()
            invariant
                i <= unused_features@.len(),
                u == unused_views(unused_features@),
                names == u.map_values(|x: UnusedView| x.package),
                string_views(packages@) == distinct_in_order(names.take(i as int)),
            decreases unused_features@.len() - i,
        {
            proof {
                assert(names.take(i + 1).drop_last() == names.take(i as int));
                assert(names.take(i + 1).last() == unused_features@[i as int].package@);
            }
            if !strings_contain(&packages, &unused_features[i].package) {
                let ghost before = packages@;
                packages.push(unused_features[i].package.clone());
                assert(string_views(packages@) == string_views(before).push(
                    unused_features@[i as int].package@,
                ));
            }
            i = i + 1;
        }
        assert(names.take(i as int) == names);
        let ghost ps = string_views(packages@);
        let mut t: usize = 0;
        while t < packages.len()
            invariant
                t <= packages@.len(),
                u == unused_views(unused_features@),
                ps == string_views(packages@),
                string_views(recs@) == recommendations_over(u, ps.take(t as int)),
            decreases packages@.len() - t,
        {
            let p = &packages[t];
            let mut default_seen = false;
            let mut explicit: Vec<String> = Vec::new();
            let mut j: usize = 0;
            while j < unused_features.len()
                invariant
                    j <= unused_features@.len(),
                    u == unused_views(unused_features@),
                    default_seen <==> exists|k: int|
                        0 <= k < j && (#[trigger] u[k]).package == p@ && u[k].feature == "default"@,
                    string_views(explicit@) == explicit_features(u.take(j as int), p@),
                decreases unused_features@.len() - j,
            {
                let f = &unused_features[j];
                assert(u[j as int] == f@);
                proof {
                    assert(u.take(j + 1).drop_last() == u.take(j as int));
                    assert(u.take(j + 1).last() == f@);
                }
                if f.package == *p {
                    if str_is(f.feature.as_str(), "default") {
                        default_seen = true;
                    } else {
                        let ghost before = explicit@;
                        explicit.push(f.feature.clone());
                        assert(string_views(explicit@) == string_views(before).push(f.feature@));
                    }
                }
                j = j + 1;
            }
            assert(u.take(j as int) == u);
            let ghost before = recs@;
            let ghost r = package_recommendations(u, p@);
            if default_seen {
                let mut line = String::from_str("Add 'default-features = false' to '");
                push_str(&mut line, p.as_str());
                push_str(&mut line, "' in Cargo.toml");
                recs.push(line);
            }
            if explicit.len() > 0 {
                let mut line = String::from_str("Consider removing features ");
                let list = debug_list_of(&explicit);
                push_str(&mut line, list.as_str());
                push_str(&mut line, " from '");
                push_str(&mut line, p.as_str());
                push_str(&mut line, "' if not used");
                recs.push(line);
            }
            proof {
                assert(string_views(recs@) == string_views(before) + r);
                assert(ps.take(t + 1).drop_last() == ps.take(t as int));
                assert(ps.take(t + 1).last() == p@);
            }
            t = t + 1;
        }
        assert(ps.take(t as int) == ps);
        recs
    }
    /// The probably unused features of one package, appended to `unused`, and
    /// the number of features enabled in it.
    fn push_package_unused(
        &self,
        fp: &FeaturePackage,
        pairs: &Vec<(String, String)>,
        unused: &mut Vec<UnusedFeature>,
    ) -> (n: usize)
        ensures
            unused_views(final(unused)@) == unused_views(old(unused)@) + package_unused(
                *fp,
                pair_views(pairs@),
            ),
            n == (if fp.workspace_member {
                0
            } else {
                enabled_features(pair_views(pairs@), fp.name@).len()
            }),
    {
        let ghost start = unused_views(unused@);
        if fp.workspace_member {
            assert(start + Seq::<UnusedView>::empty() == start);
            return 0;
        }
        let en = enabled_of(pairs, &fp.name);
        let ghost env = string_views(en@);
        let default_enabled = strings_contain(&en, &String::from_str("default"));
        if default_enabled && fp.features.len() > 0 && default_turns_on(&fp.features) {
            unused.push(
                UnusedFeature {
                    package: fp.name.clone(),
                    feature: String::from_str("default"),
                    enabled_by: String::from_str("implicit"),
                    estimated_impact_kb: 50,
                    confidence: String::from_str("Medium"),
                },
            );
        }
        let ghost mid = unused_views(unused@);
        let mut i: usize = 0;
        while i < en.len()
            invariant
                i <= en@.len(),
                env == string_views(en@),
                unused_views(unused@) == mid + explicit_unused(fp.name@, env.take(i as int)),
            decreases en@.len() - i,
        {
            assert(env.take(i + 1).drop_last() == env.take(i as int));
            assert(env.take(i + 1).last() == en@[i as int]@);
            if self.is_commonly_unused_feature(fp.name.as_str(), en[i].as_str()) {
                let ghost before = unused@;
                let f = UnusedFeature {
                    package: fp.name.clone(),
                    feature: en[i].clone(),
                    enabled_by: String::from_str("explicit"),
                    estimated_impact_kb: self.estimate_feature_impact(fp.name.as_str(), en[i].as_str()),
                    confidence: self.get_confidence_level(fp.name.as_str(), en[i].as_str()),
                };
                unused.push(f);
                assert(unused_views(unused@) == unused_views(before).push(f@));
            }
            i = i + 1;
        }
        assert(env.take(i as int) == env);
        en.len()
    }

    /// The feature analysis of the packages, given the (package, feature) pairs
    /// that `cargo tree` reports as enabled.
    pub fn analyze_packages(&self, packages: &Vec<FeaturePackage>, pairs: &Vec<(String, String)>) -> (r:
        FeatureAnalysisResults)
        requires
            enabled_total(packages@, pair_views(pairs@)) <= usize::MAX,
            impact_total(all_unused(packages@, pair_views(pairs@))) <= u64::MAX,
        ensures
            r.total_features == enabled_total(packages@, pair_views(pairs@)),
            unused_views(r.unused_features@) == all_unused(packages@, pair_views(pairs@)),
            r.estimated_savings_kb == impact_total(all_unused(packages@, pair_views(pairs@))),
            string_views(r.recommendations@) == feature_recommendations(
                all_unused(packages@, pair_views(pairs@)),
            ),
    {
        let ghost pv = pair_views(pairs@);
        let mut unused: Vec<UnusedFeature> = Vec::new();
        let mut total: usize = 0;
        let mut i: usize = 0;
        while i < packages.len()
            invariant
                i <= packages@.len(),
                pv == pair_views(pairs@),
                enabled_total(packages@, pv) <= usize::MAX,
                unused_views(unused@) == all_unused(packages@.take(i as int), pv),
                total == enabled_total(packages@.take(i as int), pv),
            decreases packages@.len() - i,
        {
            let ghost pre = packages@.take(i as int);
            let ghost post = packages@.take(i + 1);
            assert(post.drop_last() == pre);
            assert(post.last() == packages@[i as int]);
            proof {
                lemma_all_unused_prefix(packages@, pv, i + 1);
            }
            let n = self.push_package_unused(&packages[i], pairs, &mut unused);
            total = total + n;
            i = i + 1;
        }
        assert(packages@.take(i as int) == packages@);
        let ghost u = unused_views(unused@);
        let mut savings: u64 = 0;
        let mut j: usize = 0;
        while j < unused.len()
            invariant
                j <= unused@.len(),
                u == unused_views(unused@),
                impact_total(u) <= u64::MAX,
                savings == impact_total(u.take(j as int)),
            decreases unused@.len() - j,
        {
            assert(u.take(j + 1).drop_last() == u.take(j as int));
            assert(u.take(j + 1).last() == unused@[j as int]@);
            proof {
                lemma_impact_total_prefix(u, j + 1);
            }
            savings = savings + unused[j].estimated_impact_kb;
            j = j + 1;
        }
        assert(u.take(j as int) == u);
        let recommendations = self.generate_recommendations(&unused);
        FeatureAnalysisResults {
            total_features: total,
            unused_features: unused,
            estimated_savings_kb: savings,
            recommendations,
        }
    }
}

/// chrono's `clock` is commonly unused, and `clock` is so for chrono alone:
/// no other package's `clock` counts.
pub proof fn lemma_clock_unused_for_chrono_only(package: Seq<char>)
    ensures
        commonly_unused(package, "clock"@) <==> package == "chrono"@,
{
    reveal_strlit("clock");
    reveal_strlit("std");
    reveal_strlit("chrono");
    reveal_strlit("serde");
    reveal_strlit("tokio");
    reveal_strlit("regex");
    reveal_strlit("rc");
    reveal_strlit("unstable");
    reveal_strlit("fs");
    reveal_strlit("io-std");
    reveal_strlit("process");
    reveal_strlit("signal");
    reveal_strlit("unicode");
    reveal_strlit("unicode-perl");
    reveal_strlit("test");
    reveal_strlit("bench");
    reveal_strlit("nightly");
    assert forall|i: int| !occurs_at("clock"@, "test"@, i) by {
        if 0 <= i && i + 4 <= 5 && "clock"@.subrange(i, i + 4) == "test"@ {
            assert("clock"@.subrange(i, i + 4)[0] == "clock"@[i]);
        }
    }
    assert forall|i: int| !occurs_at("clock"@, "bench"@, i) by {
        if 0 <= i && i + 5 <= 5 && "clock"@.subrange(i, i + 5) == "bench"@ {
            assert("clock"@.subrange(i, i + 5)[0] == "clock"@[i]);
        }
    }
    assert(!contains("clock"@, "test"@));
    assert(!contains("clock"@, "bench"@));
    assert(!contains("clock"@, "unstable"@));
    assert(!contains("clock"@, "nightly"@));
}

/// The features each listed package commonly leaves unused are reported for
/// it: serde's `rc` and `unstable`; tokio's `fs`, `io-std`, `process` and
/// `signal`; regex's `unicode` and `unicode-perl`; chrono's `clock`. No
/// package's `std` is ever reported.
pub proof fn lemma_listed_features_unused(package: Seq<char>)
    ensures
        commonly_unused("serde"@, "rc"@),
        commonly_unused("serde"@, "unstable"@),
        commonly_unused("tokio"@, "fs"@),
        commonly_unused("tokio"@, "io-std"@),
        commonly_unused("tokio"@, "process"@),
        commonly_unused("tokio"@, "signal"@),
        commonly_unused("regex"@, "unicode"@),
        commonly_unused("regex"@, "unicode-perl"@),
        commonly_unused("chrono"@, "clock"@),
        !commonly_unused(package, "std"@),
{
    reveal_strlit("std");
    reveal_strlit("serde");
    reveal_strlit("tokio");
    reveal_strlit("regex");
    reveal_strlit("chrono");
    reveal_strlit("rc");
    reveal_strlit("unstable");
    reveal_strlit("fs");
    reveal_strlit("io-std");
    reveal_strlit("process");
    reveal_strlit("signal");
    reveal_strlit("unicode");
    reveal_strlit("unicode-perl");
    reveal_strlit("clock");
    assert("std"@.len() == 3 && "rc"@.len() == 2 && "fs"@.len() == 2);
    assert("unstable"@.len() == 8 && "io-std"@.len() == 6 && "process"@.len() == 7);
    assert("signal"@.len() == 6 && "unicode"@.len() == 7);
    assert("std"@ != "rc"@ && "std"@ != "unstable"@ && "std"@ != "fs"@ && "std"@ != "io-std"@);
    assert("std"@ != "process"@ && "std"@ != "signal"@ && "std"@ != "unicode"@);
    assert("std"@ != "unicode-perl"@ && "std"@ != "clock"@);
}

} // verus!
