//! Dependency analysis: heavy crates, duplicate versions and the allocator check,
//! computed from the package list that `cargo metadata` reports.
use vstd::prelude::*;
use vstd::string::*;
use crate::analyzer::allocator::{AllocatorDetector, allocator_issue, count_heavy};
use crate::analyzer::deps_types::{DependencyIssue, DependencyReport, IssueSeverity, IssueView};
use crate::analyzer::heavy_deps::{
    AltSpec,
    AlternativeType,
    DependencyAlternative,
    HeavySpec,
    get_heavy_dependency_info,
    heavy_db,
};
use crate::text::{push_str, string_views, to_string};

verus! {

broadcast use vstd::string::group_string_axioms;

/// Errors of the dependency analysis.
#[derive(Debug, Clone, Copy, PartialEq, Eq, Structural)]
pub enum DependencyAnalysisError {
    /// No dependency resolution found in the metadata.
    NoResolution,
    /// No root package found in the metadata.
    NoRootPackage,
}

/// One package of the resolved dependency graph, as `cargo metadata` lists it.
#[derive(Debug, Clone)]
pub struct PackageInfo {
    /// Crate name.
    pub name: String,
    /// Version, as written by the metadata.
    pub version: String,
    /// Whether the package is a member of the analysed workspace.
    pub workspace_member: bool,
}

/// Analyzes the dependencies of one project.
pub struct DependencyAnalyzer {
    pub project_root: String,
}

/// Severity by the upper bound of a dependency's share of the bundle:
/// 30% and more is critical, 20% high, 10% medium, less (or unknown) low.
pub open spec fn severity_for(bundle_percent: Option<(u8, u8)>) -> IssueSeverity {
    match bundle_percent {
        Some((_, max)) => if max >= 30 {
            IssueSeverity::Critical
        } else if max >= 20 {
            IssueSeverity::High
        } else if max >= 10 {
            IssueSeverity::Medium
        } else {
            IssueSeverity::Low
        },
        None => IssueSeverity::Low,
    }
}

/// The suggestion written for an alternative.
pub open spec fn suggestion_text(a: AltSpec) -> Seq<char> {
    match a.alt_type {
        AlternativeType::Replacement => "Replace with "@ + (match a.crate_name {
            Some(c) => c,
            None => "alternative"@,
        }) + " ("@ + a.description + ")"@,
        AlternativeType::FeatureMinimization => "Use default-features = false ("@ + a.description
            + ")"@,
        AlternativeType::Split => "Split into components ("@ + a.description + ")"@,
        AlternativeType::Optional => "Make optional via feature flag ("@ + a.description + ")"@,
        AlternativeType::WasmFix => "Enable WASM features ("@ + a.description + ")"@,
    }
}

pub open spec fn sat_sub(a: u32, b: u32) -> u32 {
    if a >= b {
        (a - b) as u32
    } else {
        0
    }
}

/// The issue reported for a heavy package `name` at `version` and one of its alternatives:
/// the savings run from the package's lower size minus the alternative's upper size
/// to its upper size minus the alternative's lower size (never below zero).
pub open spec fn heavy_issue(name: Seq<char>, version: Seq<char>, h: HeavySpec, a: AltSpec) -> IssueView {
    IssueView {
        package: name,
        version: version,
        severity: severity_for(h.bundle_percent),
        issue: h.reason,
        suggestion: suggestion_text(a),
        size_impact_kb: match a.size_kb {
            Some((cmin, cmax)) => Some((sat_sub(h.size_kb.0, cmax), sat_sub(h.size_kb.1, cmin))),
            None => None,
        },
        savings_percent: Some(a.savings_percent),
    }
}

/// The issues of one package: one per alternative when it is a known heavy crate
/// and not a member of the workspace.
pub open spec fn package_issues(p: PackageInfo) -> Seq<IssueView> {
    if !p.workspace_member && heavy_db(p.name@) is Some {
        let h = heavy_db(p.name@).unwrap();
        h.alternatives.map_values(|a: AltSpec| heavy_issue(p.name@, p.version@, h, a))
    } else {
        seq![]
    }
}

/// The heavy-crate issues of a package list, in package order.
pub open spec fn all_package_issues(ps: Seq<PackageInfo>) -> Seq<IssueView>
    decreases ps.len(),
{
    if ps.len() == 0 {
        seq![]
    } else {
        all_package_issues(ps.drop_last()) + package_issues(ps.last())
    }
}

pub open spec fn issue_views(v: Seq<DependencyIssue>) -> Seq<IssueView> {
    v.map_values(|i: DependencyIssue| i@)
}

/// Lexicographic order of character sequences (the order of `String`s).
pub open spec fn chars_lt(a: Seq<char>, b: Seq<char>) -> bool
    decreases a.len(),
{
    if a.len() == 0 {
        b.len() > 0
    } else if b.len() == 0 {
        false
    } else if a[0] != b[0] {
        (a[0] as u32) < (b[0] as u32)
    } else {
        chars_lt(a.drop_first(), b.drop_first())
    }
}

proof fn lemma_chars_lt_irrefl(a: Seq<char>)
    ensures
        !chars_lt(a, a),
    decreases a.len(),
{
    if a.len() > 0 {
        lemma_chars_lt_irrefl(a.drop_first());
    }
}

proof fn lemma_chars_lt_trans(a: Seq<char>, b: Seq<char>, c: Seq<char>)
    requires
        chars_lt(a, b),
        chars_lt(b, c),
    ensures
        chars_lt(a, c),
    decreases a.len(),
{
    if a.len() > 0 && b.len() > 0 && c.len() > 0 {
        if a[0] == b[0] && b[0] == c[0] {
            lemma_chars_lt_trans(a.drop_first(), b.drop_first(), c.drop_first());
        }
    }
}

proof fn lemma_chars_lt_total(a: Seq<char>, b: Seq<char>)
    requires
        a != b,
    ensures
        chars_lt(a, b) || chars_lt(b, a),
    decreases a.len(),
{
    if a.len() == 0 || b.len() == 0 {
        if a.len() == 0 && b.len() == 0 {
            assert(a =~= b);
        }
    } else if a[0] != b[0] {
        if (a[0] as u32) == (b[0] as u32) {
            vstd::utf8::char_u32_cast(a[0], a[0] as u32);
            vstd::utf8::char_u32_cast(b[0], b[0] as u32);
        }
    } else {
        if a.drop_first() =~= b.drop_first() {
            assert forall|k: int| 0 <= k < a.len() implies a[k] == b[k] by {
                if k > 0 {
                    assert(a[k] == a.drop_first()[k - 1]);
                    assert(b[k] == b.drop_first()[k - 1]);
                }
            }
            assert(a =~= b);
        } else {
            lemma_chars_lt_total(a.drop_first(), b.drop_first());
        }
    }
}

proof fn lemma_chars_lt_skip(a: Seq<char>, b: Seq<char>, i: int)
    requires
        0 <= i <= a.len(),
        i <= b.len(),
        a.take(i) == b.take(i),
    ensures
        chars_lt(a, b) == chars_lt(a.skip(i), b.skip(i)),
    decreases i,
{
    if i == 0 {
        assert(a.skip(0) =~= a);
        assert(b.skip(0) =~= b);
    } else {
        assert(a[0] == a.take(i)[0]);
        assert(b[0] == b.take(i)[0]);
        assert(a.drop_first().take(i - 1) == b.drop_first().take(i - 1)) by {
            assert forall|k: int| 0 <= k < i - 1 implies #[trigger] a.drop_first().take(i - 1)[k]
                == b.drop_first().take(i - 1)[k] by {
                assert(a.drop_first().take(i - 1)[k] == a[k + 1]);
                assert(b.drop_first().take(i - 1)[k] == b[k + 1]);
                assert(a.take(i)[k + 1] == a[k + 1]);
                assert(b.take(i)[k + 1] == b[k + 1]);
                assert(a.take(i)[k + 1] == b.take(i)[k + 1]);
            }
        }
        lemma_chars_lt_skip(a.drop_first(), b.drop_first(), i - 1);
        assert(a.drop_first().skip(i - 1) == a.skip(i));
        assert(b.drop_first().skip(i - 1) == b.skip(i));
    }
}

/// Whether `a` comes strictly before `b` in `String` order.
pub fn string_lt(a: &String, b: &String) -> (r: bool)
    ensures
        r == chars_lt(a@, b@),
{
    let av = crate::text::chars_of(a.as_str());
    let bv = crate::text::chars_of(b.as_str());
    let mut i: usize = 0;
    while i < av.len() && i < bv.len() && av[i] == bv[i]
        invariant
            i <= av@.len(),
            i <= bv@.len(),
            av@.take(i as int) == bv@.take(i as int),
        decreases av@.len() - i,
    {
        assert(av@.take(i + 1) == av@.take(i as int).push(av@[i as int]));
        assert(bv@.take(i + 1) == bv@.take(i as int).push(bv@[i as int]));
        i = i + 1;
    }
    proof {
        lemma_chars_lt_skip(av@, bv@, i as int);
    }
    if i == av.len() {
        i < bv.len()
    } else if i == bv.len() {
        false
    } else {
        (av[i] as u32) < (bv[i] as u32)
    }
}

/// Strictly increasing in `String` order (hence without repeats).
pub open spec fn sorted_strict(s: Seq<Seq<char>>) -> bool {
    forall|i: int, j: int| 0 <= i < j < s.len() ==> chars_lt(#[trigger] s[i], #[trigger] s[j])
}

/// Inserts `x` into the strictly sorted `v`, unless it is already there.
pub fn insert_sorted_unique(v: &mut Vec<String>, x: String)
    requires
        sorted_strict(string_views(old(v)@)),
    ensures
        sorted_strict(string_views(final(v)@)),
        forall|y: Seq<char>|
            string_views(final(v)@).contains(y) <==> (string_views(old(v)@).contains(y) || y == x@),
{
    let ghost old_v = string_views(v@);
    let mut p: usize = 0;
    while p < v.len() && string_lt(&v[p], &x)
        invariant
            p <= v@.len(),
            old_v == string_views(v@),
            forall|i: int| 0 <= i < p ==> chars_lt(#[trigger] old_v[i], x@),
        decreases v@.len() - p,
    {
        p = p + 1;
    }
    if p < v.len() && v[p] == x {
        assert(old_v[p as int] == x@);
        assert forall|y: Seq<char>| old_v.contains(y) <==> (old_v.contains(y) || y == x@) by {
            if y == x@ {
                assert(old_v[p as int] == y);
            }
        }
        return ;
    }
    let ghost xv = x@;
    proof {
        if p < old_v.len() {
            assert(!chars_lt(old_v[p as int], xv));
            assert(old_v[p as int] != xv);
            lemma_chars_lt_total(old_v[p as int], xv);
        }
    }
    v.insert(p, x);
    let ghost nv = string_views(v@);
    proof {
        assert(nv.len() == old_v.len() + 1);
        assert forall|i: int| 0 <= i < nv.len() implies #[trigger] nv[i] == if i < p {
            old_v[i]
        } else if i == p {
            xv
        } else {
            old_v[i - 1]
        } by {}
        assert forall|i: int, j: int| 0 <= i < j < nv.len() implies chars_lt(
            #[trigger] nv[i],
            #[trigger] nv[j],
        ) by {
            if j < p {
            } else if j == p {
            } else if i < p {
                assert(chars_lt(old_v[i], xv));
                if j - 1 > p {
                    assert(chars_lt(old_v[p as int], old_v[j - 1]));
                    lemma_chars_lt_trans(xv, old_v[p as int], old_v[j - 1]);
                }
                lemma_chars_lt_trans(old_v[i], xv, old_v[j - 1]);
            } else if i == p {
                if j - 1 > p {
                    assert(chars_lt(old_v[p as int], old_v[j - 1]));
                    lemma_chars_lt_trans(xv, old_v[p as int], old_v[j - 1]);
                }
            } else {
                assert(chars_lt(old_v[i - 1], old_v[j - 1]));
            }
        }
        assert forall|y: Seq<char>| nv.contains(y) <==> (old_v.contains(y) || y == xv) by {
            if nv.contains(y) {
                let i = choose|i: int| 0 <= i < nv.len() && nv[i] == y;
                if i < p {
                    assert(old_v[i] == y);
                } else if i > p {
                    assert(old_v[i - 1] == y);
                }
            }
            if old_v.contains(y) {
                let i = choose|i: int| 0 <= i < old_v.len() && old_v[i] == y;
                if i < p {
                    assert(nv[i] == y);
                } else {
                    assert(nv[i + 1] == y);
                }
            }
            if y == xv {
                assert(nv[p as int] == y);
            }
        }
    }
}

/// The names of all packages, workspace members included.
pub open spec fn package_names(ps: Seq<PackageInfo>) -> Seq<Seq<char>> {
    ps.map_values(|p: PackageInfo| p.name@)
}

/// The allocator issue of a package list, as a sequence of at most one issue.
pub open spec fn allocator_issues(ps: Seq<PackageInfo>) -> Seq<IssueView> {
    match allocator_issue(package_names(ps)) {
        Some(i) => seq![i],
        None => seq![],
    }
}

/// Some package outside the workspace is named `name` and has version `version`.
pub open spec fn has_version(ps: Seq<PackageInfo>, name: Seq<char>, version: Seq<char>) -> bool {
    exists|k: int|
        0 <= k < ps.len() && !(#[trigger] ps[k]).workspace_member && ps[k].name@ == name
            && ps[k].version@ == version
}

/// Some package outside the workspace is named `name`.
pub open spec fn named_outside(ps: Seq<PackageInfo>, name: Seq<char>) -> bool {
    exists|k: int| 0 <= k < ps.len() && !(#[trigger] ps[k]).workspace_member && ps[k].name@ == name
}

/// Two packages outside the workspace share the name `name` but differ in version.
pub open spec fn is_duplicated(ps: Seq<PackageInfo>, name: Seq<char>) -> bool {
    exists|k1: int, k2: int|
        0 <= k1 < ps.len() && 0 <= k2 < ps.len() && !(#[trigger] ps[k1]).workspace_member
            && !(#[trigger] ps[k2]).workspace_member && ps[k1].name@ == name && ps[k2].name@
            == name && ps[k1].version@ != ps[k2].version@
}

/// What `duplicate_versions` returns for `ps`: each crate with several versions
/// once, with all its versions in `String` order and without repeats.
pub open spec fn duplicates_ok(ps: Seq<PackageInfo>, d: Seq<(String, Vec<String>)>) -> bool {
    &&& forall|i: int, j: int| 0 <= i < j < d.len() ==> (#[trigger] d[i]).0@ != (#[trigger] d[j]).0@
    &&& forall|i: int|
        0 <= i < d.len() ==> {
            &&& sorted_strict(string_views((#[trigger] d[i]).1@))
            &&& d[i].1@.len() >= 2
            &&& forall|y: Seq<char>| string_views(d[i].1@).contains(y) <==> has_version(ps, d[i].0@, y)
        }
    &&& forall|k: int|
        0 <= k < ps.len() && is_duplicated(ps, (#[trigger] ps[k]).name@) ==> exists|i: int|
            0 <= i < d.len() && (#[trigger] d[i]).0@ == ps[k].name@
}

/// The names of the packages outside the workspace, each once, in order of first appearance.
fn distinct_names(ps: &Vec<PackageInfo>) -> (names: Vec<String>)
    ensures
        forall|i: int, j: int|
            0 <= i < j < names@.len() ==> (#[trigger] names@[i])@ != (#[trigger] names@[j])@,
        forall|i: int| 0 <= i < names@.len() ==> named_outside(ps@, (#[trigger] names@[i])@),
        forall|k: int|
            0 <= k < ps@.len() && !(#[trigger] ps@[k]).workspace_member ==> string_views(names@).contains(
                ps@[k].name@,
            ),
{
    let mut names: Vec<String> = Vec::new();
    let mut k: usize = 0;
    while k < ps.len()
        invariant
            k <= ps@.len(),
            forall|i: int, j: int|
                0 <= i < j < names@.len() ==> (#[trigger] names@[i])@ != (#[trigger] names@[j])@,
            forall|i: int| 0 <= i < names@.len() ==> named_outside(ps@, (#[trigger] names@[i])@),
            forall|k2: int|
                0 <= k2 < k && !(#[trigger] ps@[k2]).workspace_member ==> string_views(names@).contains(
                    ps@[k2].name@,
                ),
        decreases ps@.len() - k,
    {
        let p = &ps[k];
        if !p.workspace_member {
            let mut found = false;
            let mut j: usize = 0;
            while j < names.len()
                invariant
                    j <= names@.len(),
                    found ==> string_views(names@).contains(p.name@),
                    !found ==> forall|i: int| 0 <= i < j ==> (#[trigger] names@[i])@ != p.name@,
                decreases names@.len() - j,
            {
                if names[j] == p.name {
                    found = true;
                    assert(string_views(names@)[j as int] == p.name@);
                }
                j = j + 1;
            }
            if !found {
                let ghost before = names@;
                names.push(p.name.clone());
                proof {
                    assert(names@[before.len() as int]@ == p.name@);
                    assert forall|i: int, j: int| 0 <= i < j < names@.len() implies (
                    #[trigger] names@[i])@ != (#[trigger] names@[j])@ by {
                        assert(names@[i] == before[i]);
                        if j < before.len() {
                            assert(names@[j] == before[j]);
                        }
                    }
                    assert forall|i: int| 0 <= i < names@.len() implies named_outside(
                        ps@,
                        (#[trigger] names@[i])@,
                    ) by {
                        if i < before.len() {
                            assert(names@[i] == before[i]);
                        } else {
                            assert(ps@[k as int].name@ == names@[i]@);
                        }
                    }
                    assert(string_views(names@) == string_views(before).push(p.name@));
                    assert forall|k2: int|
                        0 <= k2 < k + 1 && !(#[trigger] ps@[k2]).workspace_member implies string_views(
                        names@,
                    ).contains(ps@[k2].name@) by {
                        if k2 < k {
                            let i = choose|i: int|
                                0 <= i < string_views(before).len() && string_views(before)[i] == ps@[k2].name@;
                            assert(string_views(names@)[i] == ps@[k2].name@);
                        } else {
                            assert(string_views(names@)[before.len() as int] == ps@[k2].name@);
                        }
                    }
                    assert(names@[before.len() as int]@ == ps@[k as int].name@);
                }
            } else {
                proof {
                    assert forall|k2: int|
                        0 <= k2 < k + 1 && !(#[trigger] ps@[k2]).workspace_member implies string_views(
                        names@,
                    ).contains(ps@[k2].name@) by {}
                }
            }
        }
        k = k + 1;
    }
    names
}

/// All versions of the packages named `name` outside the workspace, sorted, without repeats.
fn versions_for(ps: &Vec<PackageInfo>, name: &String) -> (vs: Vec<String>)
    ensures
        sorted_strict(string_views(vs@)),
        forall|y: Seq<char>| string_views(vs@).contains(y) <==> has_version(ps@, name@, y),
{
    let mut vs: Vec<String> = Vec::new();
    let mut k: usize = 0;
    while k < ps.len()
        invariant
            k <= ps@.len(),
            sorted_strict(string_views(vs@)),
            forall|y: Seq<char>|
                string_views(vs@).contains(y) <==> has_version(ps@.take(k as int), name@, y),
        decreases ps@.len() - k,
    {
        let p = &ps[k];
        let ghost pre = ps@.take(k as int);
        let ghost post = ps@.take(k + 1);
        proof {
            assert(post == pre.push(*p));
        }
        if !p.workspace_member && p.name == *name {
            insert_sorted_unique(&mut vs, p.version.clone());
            proof {
                assert forall|y: Seq<char>| string_views(vs@).contains(y) <==> has_version(post, name@, y) by {
                    if has_version(post, name@, y) {
                        let k2 = choose|k2: int|
                            0 <= k2 < post.len() && !(#[trigger] post[k2]).workspace_member
                                && post[k2].name@ == name@ && post[k2].version@ == y;
                        if k2 < k {
                            assert(pre[k2] == post[k2]);
                        }
                    }
                    if has_version(pre, name@, y) {
                        let k2 = choose|k2: int|
                            0 <= k2 < pre.len() && !(#[trigger] pre[k2]).workspace_member
                                && pre[k2].name@ == name@ && pre[k2].version@ == y;
                        assert(post[k2] == pre[k2]);
                    }
                    if y == p.version@ {
                        assert(post[k as int] == *p);
                    }
                }
            }
        } else {
            proof {
                assert forall|y: Seq<char>| string_views(vs@).contains(y) <==> has_version(post, name@, y) by {
                    if has_version(post, name@, y) {
                        let k2 = choose|k2: int|
                            0 <= k2 < post.len() && !(#[trigger] post[k2]).workspace_member
                                && post[k2].name@ == name@ && post[k2].version@ == y;
                        if k2 < k {
                            assert(pre[k2] == post[k2]);
                        }
                    }
                    if has_version(pre, name@, y) {
                        let k2 = choose|k2: int|
                            0 <= k2 < pre.len() && !(#[trigger] pre[k2]).workspace_member
                                && pre[k2].name@ == name@ && pre[k2].version@ == y;
                        assert(post[k2] == pre[k2]);
                    }
                }
            }
        }
        k = k + 1;
    }
    assert(ps@.take(k as int) == ps@);
    vs
}

/// The crates present in several versions, each with its versions in order.
pub fn duplicate_versions(ps: &Vec<PackageInfo>) -> (d: Vec<(String, Vec<String>)>)
    ensures
        duplicates_ok(ps@, d@),
{
    let names = distinct_names(ps);
    let mut d: Vec<(String, Vec<String>)> = Vec::new();
    let mut i: usize = 0;
    while i < names.len()
        invariant
            i <= names@.len(),
            forall|a: int, b: int|
                0 <= a < b < names@.len() ==> (#[trigger] names@[a])@ != (#[trigger] names@[b])@,
            forall|a: int| 0 <= a < names@.len() ==> named_outside(ps@, (#[trigger] names@[a])@),
            forall|k: int|
                0 <= k < ps@.len() && !(#[trigger] ps@[k]).workspace_member ==> string_views(
                    names@,
                ).contains(ps@[k].name@),
            forall|a: int|
                0 <= a < d@.len() ==> exists|b: int|
                    0 <= b < i && (#[trigger] d@[a]).0@ == (#[trigger] names@[b])@,
            forall|a: int, b: int| 0 <= a < b < d@.len() ==> (#[trigger] d@[a]).0@ != (#[trigger] d@[b]).0@,
            forall|a: int|
                0 <= a < d@.len() ==> {
                    &&& sorted_strict(string_views((#[trigger] d@[a]).1@))
                    &&& d@[a].1@.len() >= 2
                    &&& forall|y: Seq<char>|
                        string_views(d@[a].1@).contains(y) <==> has_version(ps@, d@[a].0@, y)
                },
            forall|b: int|
                0 <= b < i && is_duplicated(ps@, (#[trigger] names@[b])@) ==> exists|a: int|
                    0 <= a < d@.len() && (#[trigger] d@[a]).0@ == names@[b]@,
        decreases names@.len() - i,
    {
        let vs = versions_for(ps, &names[i]);
        let ghost n = names@[i as int]@;
        if vs.len() >= 2 {
            let ghost before = d@;
            d.push((names[i].clone(), vs));
            proof {
                assert(d@[before.len() as int].0@ == n);
                assert forall|a: int| 0 <= a < d@.len() implies exists|b: int|
                    0 <= b < i + 1 && (#[trigger] d@[a]).0@ == (#[trigger] names@[b])@ by {
                    if a < before.len() {
                        assert(d@[a] == before[a]);
                        let b = choose|b: int| 0 <= b < i && before[a].0@ == (#[trigger] names@[b])@;
                        assert(d@[a].0@ == names@[b]@);
                    } else {
                        assert(d@[a].0@ == names@[i as int]@);
                    }
                }
                assert forall|a: int, b: int| 0 <= a < b < d@.len() implies (#[trigger] d@[a]).0@
                    != (#[trigger] d@[b]).0@ by {
                    if b == before.len() {
                        assert(d@[a] == before[a]);
                        let c = choose|c: int| 0 <= c < i && before[a].0@ == (#[trigger] names@[c])@;
                        assert(names@[c]@ != names@[i as int]@);
                    } else {
                        assert(d@[a] == before[a]);
                        assert(d@[b] == before[b]);
                    }
                }
                assert forall|a: int| 0 <= a < d@.len() implies {
                    &&& sorted_strict(string_views((#[trigger] d@[a]).1@))
                    &&& d@[a].1@.len() >= 2
                    &&& forall|y: Seq<char>|
                        string_views(d@[a].1@).contains(y) <==> has_version(ps@, d@[a].0@, y)
                } by {
                    if a < before.len() {
                        assert(d@[a] == before[a]);
                    }
                }
                assert forall|b: int|
                    0 <= b < i + 1 && is_duplicated(ps@, (#[trigger] names@[b])@) implies exists|a: int|
                    0 <= a < d@.len() && (#[trigger] d@[a]).0@ == names@[b]@ by {
                    if b < i {
                        let a = choose|a: int|
                            0 <= a < before.len() && (#[trigger] before[a]).0@ == names@[b]@;
                        assert(d@[a] == before[a]);
                    } else {
                        assert(d@[before.len() as int].0@ == names@[b]@);
                    }
                }
            }
        } else {
            proof {
                if is_duplicated(ps@, n) {
                    let (k1, k2) = choose|k1: int, k2: int|
                        0 <= k1 < ps@.len() && 0 <= k2 < ps@.len()
                            && !(#[trigger] ps@[k1]).workspace_member
                            && !(#[trigger] ps@[k2]).workspace_member && ps@[k1].name@ == n
                            && ps@[k2].name@ == n && ps@[k1].version@ != ps@[k2].version@;
                    assert(has_version(ps@, n, ps@[k1].version@));
                    assert(has_version(ps@, n, ps@[k2].version@));
                    assert(string_views(vs@).contains(ps@[k1].version@));
                    assert(string_views(vs@).contains(ps@[k2].version@));
                    let j1 = choose|j1: int|
                        0 <= j1 < string_views(vs@).len() && string_views(vs@)[j1] == ps@[k1].version@;
                    let j2 = choose|j2: int|
                        0 <= j2 < string_views(vs@).len() && string_views(vs@)[j2] == ps@[k2].version@;
                    assert(j1 != j2);
                    assert(false);
                }
                assert forall|b: int|
                    0 <= b < i + 1 && is_duplicated(ps@, (#[trigger] names@[b])@) implies exists|a: int|
                    0 <= a < d@.len() && (#[trigger] d@[a]).0@ == names@[b]@ by {}
                assert forall|a: int| 0 <= a < d@.len() implies exists|b: int|
                    0 <= b < i + 1 && (#[trigger] d@[a]).0@ == (#[trigger] names@[b])@ by {
                    let b = choose|b: int| 0 <= b < i && d@[a].0@ == (#[trigger] names@[b])@;
                    assert(d@[a].0@ == names@[b]@);
                }
            }
        }
        i = i + 1;
    }
    proof {
        assert forall|k: int|
            0 <= k < ps@.len() && is_duplicated(ps@, (#[trigger] ps@[k]).name@) implies exists|a: int|
            0 <= a < d@.len() && (#[trigger] d@[a]).0@ == ps@[k].name@ by {
            let (k1, k2) = choose|k1: int, k2: int|
                0 <= k1 < ps@.len() && 0 <= k2 < ps@.len() && !(#[trigger] ps@[k1]).workspace_member
                    && !(#[trigger] ps@[k2]).workspace_member && ps@[k1].name@ == ps@[k].name@
                    && ps@[k2].name@ == ps@[k].name@ && ps@[k1].version@ != ps@[k2].version@;
            assert(string_views(names@).contains(ps@[k1].name@));
            let b = choose|b: int| 0 <= b < string_views(names@).len() && string_views(names@)[b] == ps@[k1].name@;
            assert(names@[b]@ == ps@[k].name@);
        }
    }
    d
}

impl DependencyAnalyzer {
    /// An analyzer for the project at `project_root`.
    pub fn new(project_root: &str) -> (r: Self)
        ensures
            r.project_root@ == project_root@,
    {
        DependencyAnalyzer { project_root: to_string(project_root) }
    }

    /// Severity of a heavy crate by its share of a typical bundle.
    pub fn determine_severity(&self, bundle_percent: Option<(u8, u8)>) -> (r: IssueSeverity)
        ensures
            r == severity_for(bundle_percent),
    {
        match bundle_percent {
            Some((_, max)) => {
                if max >= 30 {
                    IssueSeverity::Critical
                } else if max >= 20 {
                    IssueSeverity::High
                } else if max >= 10 {
                    IssueSeverity::Medium
                } else {
                    IssueSeverity::Low
                }
            },
            None => IssueSeverity::Low,
        }
    }

    /// The suggestion text for an alternative.
    pub fn format_suggestion(&self, alternative: &DependencyAlternative) -> (r: String)
        ensures
            r@ == suggestion_text(alternative@),
    {
        let mut s = match alternative.alt_type {
            AlternativeType::Replacement => {
                let mut s = String::from_str("Replace with ");
                match alternative.crate_name {
                    Some(c) => push_str(&mut s, c),
                    None => push_str(&mut s, "alternative"),
                }
                push_str(&mut s, " (");
                s
            },
            AlternativeType::FeatureMinimization => String::from_str(
                "Use default-features = false (",
            ),
            AlternativeType::Split => String::from_str("Split into components ("),
            AlternativeType::Optional => String::from_str("Make optional via feature flag ("),
            AlternativeType::WasmFix => String::from_str("Enable WASM features ("),
        };
        push_str(&mut s, alternative.description);
        push_str(&mut s, ")");
        s
    }

    /// Appends the issues of one package to `issues`.
    pub fn push_package_issues(&self, p: &PackageInfo, issues: &mut Vec<DependencyIssue>)
        ensures
            issue_views(final(issues)@) == issue_views(old(issues)@) + package_issues(*p),
    {
        if p.workspace_member {
            assert(issue_views(issues@) == issue_views(issues@) + Seq::<IssueView>::empty());
            return ;
        }
        match get_heavy_dependency_info(p.name.as_str()) {
            None => {
                assert(issue_views(issues@) == issue_views(issues@) + Seq::<IssueView>::empty());
            },
            Some(heavy) => {
                let severity = self.determine_severity(heavy.bundle_percent);
                let ghost h = heavy@;
                let ghost start = issue_views(issues@);
                let mut j: usize = 0;
                while j < heavy.alternatives.len()
                    invariant
                        h == heavy@,
                        heavy_db(p.name@) == Some(h),
                        !p.workspace_member,
                        severity == severity_for(h.bundle_percent),
                        j <= heavy.alternatives@.len(),
                        issue_views(issues@) == start + h.alternatives.take(j as int).map_values(
                            |a: AltSpec| heavy_issue(p.name@, p.version@, h, a),
                        ),
                    decreases heavy.alternatives@.len() - j,
                {
                    let alternative = &heavy.alternatives[j];
                    let size_impact_kb = match alternative.size_kb {
                        Some((cmin, cmax)) => {
                            let lo: u32 = if heavy.size_kb.0 >= cmax {
                                heavy.size_kb.0 - cmax
                            } else {
                                0
                            };
                            let hi: u32 = if heavy.size_kb.1 >= cmin {
                                heavy.size_kb.1 - cmin
                            } else {
                                0
                            };
                            Some((lo, hi))
                        },
                        None => None,
                    };
                    let issue = DependencyIssue {
                        package: p.name.clone(),
                        version: p.version.clone(),
                        severity,
                        issue: to_string(heavy.reason),
                        suggestion: self.format_suggestion(alternative),
                        size_impact_kb,
                        savings_percent: Some(alternative.savings_percent),
                    };
                    let ghost before = issues@;
                    issues.push(issue);
                    proof {
                        let f = |a: AltSpec| heavy_issue(p.name@, p.version@, h, a);
                        assert(h.alternatives[j as int] == alternative@);
                        assert(issue@ == f(h.alternatives[j as int]));
                        assert(h.alternatives.take(j + 1) == h.alternatives.take(j as int).push(
                            h.alternatives[j as int],
                        ));
                        assert(h.alternatives.take(j + 1).map_values(f) == h.alternatives.take(
                            j as int,
                        ).map_values(f).push(f(h.alternatives[j as int])));
                        assert(issue_views(issues@) == issue_views(before).push(issue@));
                    }
                    j = j + 1;
                }
                proof {
                    assert(h.alternatives.take(j as int) == h.alternatives);
                }
            },
        }
    }
    /// The report on a resolved package list. `resolve_nodes` is the number of nodes
    /// of the dependency resolution and `root_direct_deps` the number of normal
    /// dependencies of the root package, each `None` when the metadata has none.
    pub fn analyze_packages(
        &self,
        packages: &Vec<PackageInfo>,
        resolve_nodes: Option<usize>,
        root_direct_deps: Option<usize>,
    ) -> (r: Result<DependencyReport, DependencyAnalysisError>)
        requires
            20 + 4 * (count_heavy(package_names(packages@)) as u32) <= u32::MAX,
        ensures
            resolve_nodes is None ==> r == Err::<DependencyReport, _>(
                DependencyAnalysisError::NoResolution,
            ),
            resolve_nodes is Some && root_direct_deps is None ==> r == Err::<DependencyReport, _>(
                DependencyAnalysisError::NoRootPackage,
            ),
            resolve_nodes is Some && root_direct_deps is Some ==> r is Ok,
            r matches Ok(report) ==> {
                &&& report.total_deps == resolve_nodes.unwrap()
                &&& report.direct_deps == root_direct_deps.unwrap()
                &&& issue_views(report.issues@) == all_package_issues(packages@) + allocator_issues(
                    packages@,
                )
                &&& duplicates_ok(packages@, report.duplicates@)
            },
    {
        let mut issues: Vec<DependencyIssue> = Vec::new();
        let mut names: Vec<String> = Vec::new();
        let mut i: usize = 0;
        while i < packages.len()
            invariant
                i <= packages@.len(),
                issue_views(issues@) == all_package_issues(packages@.take(i as int)),
                string_views(names@) == package_names(packages@.take(i as int)),
            decreases packages@.len() - i,
        {
            let ghost before = issues@;
            let ghost nbefore = names@;
            self.push_package_issues(&packages[i], &mut issues);
            names.push(packages[i].name.clone());
            proof {
                assert(packages@.take(i + 1).drop_last() == packages@.take(i as int));
                assert(packages@.take(i + 1).last() == packages@[i as int]);
                assert(string_views(names@) == string_views(nbefore).push(packages@[i as int].name@));
                assert(package_names(packages@.take(i + 1)) == package_names(
                    packages@.take(i as int),
                ).push(packages@[i as int].name@));
            }
            i = i + 1;
        }
        proof {
            assert(packages@.take(i as int) == packages@);
        }
        let duplicates = duplicate_versions(packages);
        let detector = AllocatorDetector::new(self.project_root.as_str());
        let ghost before = issues@;
        match detector.check_allocator_for_packages(&names) {
            Some(issue) => {
                issues.push(issue);
                assert(issue_views(issues@) == issue_views(before).push(issue@));
            },
            None => {},
        }
        let total_deps = match resolve_nodes {
            Some(n) => n,
            None => {
                return Err(DependencyAnalysisError::NoResolution);
            },
        };
        let direct_deps = match root_direct_deps {
            Some(n) => n,
            None => {
                return Err(DependencyAnalysisError::NoRootPackage);
            },
        };
        Ok(DependencyReport { total_deps, direct_deps, issues, duplicates })
    }
}

/// A heavy crate's severity is graded by the upper bound of its share of a
/// typical bundle, whatever the lower bound: an upper bound of 30% or more is
/// critical, 20% to 29% high, 10% to 19% medium and below 10% low, and an
/// unknown share is low.
pub proof fn lemma_severity_by_upper_share(lo: u8, hi: u8, other_lo: u8)
    ensures
        severity_for(Some((lo, hi))) == severity_for(Some((other_lo, hi))),
        hi >= 30 ==> severity_for(Some((lo, hi))) == IssueSeverity::Critical,
        20 <= hi < 30 ==> severity_for(Some((lo, hi))) == IssueSeverity::High,
        10 <= hi < 20 ==> severity_for(Some((lo, hi))) == IssueSeverity::Medium,
        hi < 10 ==> severity_for(Some((lo, hi))) == IssueSeverity::Low,
        severity_for(None) == IssueSeverity::Low,
{
}

/// A heavier share never gives a milder severity: severities do not fall as
/// the upper bound of the share grows.
pub proof fn lemma_severity_monotonic(lo: u8, hi: u8, larger_hi: u8)
    requires
        hi <= larger_hi,
    ensures
        crate::analyzer::deps_types::severity_rank(severity_for(Some((lo, larger_hi))))
            <= crate::analyzer::deps_types::severity_rank(severity_for(Some((lo, hi)))),
{
}

} // verus!
