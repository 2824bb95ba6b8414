//! Detection of assets embedded in Rust sources (`include_bytes!`,
//! `include_str!`), their kinds, and the savings of externalizing them.
use vstd::prelude::*;
use vstd::string::*;
use crate::analyzer::asset_types::{AssetPriority, AssetType, AssetView, DetectedAsset, priority_for};
use crate::text::{
    CharClass,
    chars_of,
    find_char,
    find_where,
    index_of,
    index_where,
    lemma_index_of_bounds,
    lemma_index_where_bounds,
    lower,
    lower_is,
    lower_is_range,
    match_at,
    occurs_at,
    push_str,
    string_of_range,
    string_views,
    to_string,
};

verus! {

broadcast use vstd::string::group_string_axioms;

/// Errors of the asset scan.
#[derive(Debug, Clone, PartialEq, Eq)]
pub enum AssetDetectionError {
    /// I/O error reading files, with its message.
    Io(String),
    /// A source file that does not parse: its path and the parser's message.
    ParseError(String, String),
    /// A pattern that does not compile, with its message.
    Regex(String),
}

impl AssetDetectionError {
    /// The error message.
    pub fn to_string(&self) -> (r: String)
        ensures
            r@ == match *self {
                AssetDetectionError::Io(m) => "I/O error: "@ + m@,
                AssetDetectionError::ParseError(f, m) => "Failed to parse source file "@ + f@ + ": "@
                    + m@,
                AssetDetectionError::Regex(m) => "Regex error: "@ + m@,
            },
    {
        let mut s = String::new();
        match self {
            AssetDetectionError::Io(m) => {
                push_str(&mut s, "I/O error: ");
                push_str(&mut s, m.as_str());
            },
            AssetDetectionError::ParseError(f, m) => {
                push_str(&mut s, "Failed to parse source file ");
                push_str(&mut s, f.as_str());
                push_str(&mut s, ": ");
                push_str(&mut s, m.as_str());
            },
            AssetDetectionError::Regex(m) => {
                push_str(&mut s, "Regex error: ");
                push_str(&mut s, m.as_str());
            },
        }
        s
    }
}

/// Scans one project for embedded assets.
pub struct AssetDetector {
    /// The project's root directory.
    pub project_root: String,
}

/// What `std::path::Path::extension` gives for `path`: the part of its file
/// name after the last `.`, if any.
pub uninterp spec fn path_extension(path: Seq<char>) -> Option<Seq<char>>;

/// Calls `std::path::Path::extension` on `path` and keeps the extension as a
/// `String`; the result is named `path_extension(path)`, the rules of file names
/// and components it follows are not stated here.
#[verifier::external_body]
fn extension_of(path: &str) -> (r: Option<String>)
    ensures
        r matches Some(e) ==> path_extension(path@) == Some(e@),
        r is None ==> path_extension(path@) is None,
{
    match std::path::Path::new(path).extension() {
        Some(e) => e.to_str().map(|x| x.to_string()),
        None => None,
    }
}

/// The kind of asset an extension names, ignoring ASCII case.
pub open spec fn type_for_extension(ext: Option<Seq<char>>) -> AssetType {
    match ext {
        Some(e) => if lower_is(e, "ttf"@) || lower_is(e, "otf"@) || lower_is(e, "woff"@) || lower_is(
            e,
            "woff2"@,
        ) {
            AssetType::Font
        } else if lower_is(e, "png"@) || lower_is(e, "jpg"@) || lower_is(e, "jpeg"@) || lower_is(
            e,
            "gif"@,
        ) || lower_is(e, "svg"@) || lower_is(e, "webp"@) {
            AssetType::Image
        } else if lower_is(e, "json"@) || lower_is(e, "toml"@) || lower_is(e, "yaml"@) || lower_is(
            e,
            "txt"@,
        ) || lower_is(e, "css"@) {
            AssetType::Data
        } else {
            AssetType::Unknown
        },
        None => AssetType::Unknown,
    }
}

/// The end of the run of white space at `s[j..]`.
pub open spec fn ws_end(s: Seq<char>, j: int) -> int {
    j + index_where(s.subrange(j, s.len() as int), CharClass::Whitespace, false)
}

/// The match of `m\s*\(\s*"([^"]+)"\s*\)` at index `i` of `s`, where `m` is
/// `include_bytes!` or `include_str!`: the bounds of the quoted path and the end
/// of the match.
pub open spec fn inclusion_at(s: Seq<char>, m: Seq<char>, i: int) -> Option<(int, int, int)> {
    if !occurs_at(s, m, i) {
        None
    } else {
        let j = ws_end(s, i + m.len());
        if j >= s.len() || s[j] != '(' {
            None
        } else {
            let k = ws_end(s, j + 1);
            if k >= s.len() || s[k] != '"' {
                None
            } else {
                let a = k + 1;
                let b = a + index_of(s.subrange(a, s.len() as int), '"');
                if b >= s.len() || b == a {
                    None
                } else {
                    let e = ws_end(s, b + 1);
                    if e >= s.len() || s[e] != ')' {
                        None
                    } else {
                        Some((a, b, e + 1))
                    }
                }
            }
        }
    }
}

/// The quoted paths of the successive, non-overlapping matches in `s` from
/// `pos` on, leftmost first.
pub open spec fn inclusions_from(s: Seq<char>, m: Seq<char>, pos: int) -> Seq<Seq<char>>
    decreases s.len() - pos,
{
    if pos < 0 || pos >= s.len() {
        seq![]
    } else {
        match inclusion_at(s, m, pos) {
            Some((a, b, e)) => if pos < e <= s.len() && 0 <= a <= b <= s.len() {
                seq![s.subrange(a, b)] + inclusions_from(s, m, e)
            } else {
                seq![]
            },
            None => inclusions_from(s, m, pos + 1),
        }
    }
}

/// The inclusions that the patterns find in a source text: those of
/// `include_bytes!` first, then those of `include_str!`, each with its macro.
pub open spec fn regex_inclusions_of(s: Seq<char>) -> Seq<(Seq<char>, Seq<char>)> {
    inclusions_from(s, "include_bytes!"@, 0).map_values(|p: Seq<char>| (p, "include_bytes!"@))
        + inclusions_from(s, "include_str!"@, 0).map_values(|p: Seq<char>| (p, "include_str!"@))
}

/// The kind of an asset does not depend on the ASCII case of its extension.
pub proof fn lemma_extension_case_insensitive(e1: Seq<char>, e2: Seq<char>)
    requires
        e1.len() == e2.len(),
        forall|i: int| 0 <= i < e1.len() ==> lower(#[trigger] e1[i]) == lower(e2[i]),
    ensures
        type_for_extension(Some(e1)) == type_for_extension(Some(e2)),
{
    assert forall|w: Seq<char>| lower_is(e1, w) <==> lower_is(e2, w) by {
        if lower_is(e1, w) {
            assert forall|i: int| 0 <= i < e2.len() implies lower(#[trigger] e2[i]) == w[i] by {
                assert(lower(e1[i]) == w[i]);
            }
        }
        if lower_is(e2, w) {
            assert forall|i: int| 0 <= i < e1.len() implies lower(#[trigger] e1[i]) == w[i] by {
                assert(lower(e2[i]) == w[i]);
            }
        }
    }
}

/// `ws_end` on a vector.
fn ws_end_exec(v: &Vec<char>, j: usize) -> (r: usize)
    requires
        j <= v@.len(),
    ensures
        r == ws_end(v@, j as int),
        j <= r <= v@.len(),
{
    find_where(v, CharClass::Whitespace, false, j, v.len())
}

/// `inclusion_at` on a vector.
fn inclusion_at_exec(v: &Vec<char>, m: &Vec<char>, i: usize) -> (r: Option<(usize, usize, usize)>)
    requires
        i <= v@.len(),
    ensures
        r matches Some((a, b, e)) ==> inclusion_at(v@, m@, i as int) == Some(
            (a as int, b as int, e as int),
        ) && i < e <= v@.len() && a <= b,
        r is None ==> inclusion_at(v@, m@, i as int) is None,
{
    let n = v.len();
    if !(m.len() <= n - i && match_at(v, i, m)) {
        return None;
    }
    let j = ws_end_exec(v, i + m.len());
    if j >= n || v[j] != '(' {
        return None;
    }
    let k = ws_end_exec(v, j + 1);
    if k >= n || v[k] != '"' {
        return None;
    }
    let a = k + 1;
    let b = find_char(v, '"', a, n);
    if b >= n || b == a {
        return None;
    }
    let e = ws_end_exec(v, b + 1);
    if e >= n || v[e] != ')' {
        return None;
    }
    Some((a, b, e + 1))
}

/// The quoted paths of the matches of the pattern of macro `m` in `v`.
fn inclusions_exec(v: &Vec<char>, m: &str) -> (r: Vec<String>)
    ensures
        string_views(r@) == inclusions_from(v@, m@, 0),
{
    let mv = chars_of(m);
    let n = v.len();
    let mut r: Vec<String> = Vec::new();
    let mut pos: usize = 0;
    while pos < n
        invariant
            pos <= n == v@.len(),
            mv@ == m@,
            inclusions_from(v@, m@, 0) == string_views(r@) + inclusions_from(v@, m@, pos as int),
        decreases n - pos,
    {
        match inclusion_at_exec(v, &mv, pos) {
            Some((a, b, e)) => {
                let ghost before = r@;
                let p = string_of_range(v, a, b);
                r.push(p);
                assert(string_views(r@) == string_views(before).push(p@));
                assert(inclusions_from(v@, m@, pos as int) == seq![p@] + inclusions_from(
                    v@,
                    m@,
                    e as int,
                ));
                pos = e;
            },
            None => {
                pos = pos + 1;
            },
        }
    }
    r
}

/// The bytes of an asset in whole KB.
pub open spec fn asset_kb(a: DetectedAsset) -> nat {
    (a.size_bytes / 1024) as nat
}

/// The whole KB of all assets.
pub open spec fn kb_total(assets: Seq<DetectedAsset>) -> nat
    decreases assets.len(),
{
    if assets.len() == 0 {
        0
    } else {
        kb_total(assets.drop_last()) + asset_kb(assets.last())
    }
}

/// The whole KB of the assets of priority `p` in a bundle of `bundle_kb` KB.
pub open spec fn kb_at_priority(assets: Seq<DetectedAsset>, bundle_kb: u64, p: AssetPriority) -> nat
    decreases assets.len(),
{
    if assets.len() == 0 {
        0
    } else {
        kb_at_priority(assets.drop_last(), bundle_kb, p) + (if priority_for(
            asset_kb(assets.last()) as u64,
            bundle_kb,
        ) == p {
            asset_kb(assets.last())
        } else {
            0
        })
    }
}

/// Savings of externalizing assets, in whole KB.
#[derive(Debug, Clone, Copy, PartialEq, Eq)]
pub struct SavingsKb {
    /// Externalizing the critical assets only.
    pub critical_only_kb: u64,
    /// Externalizing the high and critical assets.
    pub high_and_critical_kb: u64,
    /// Externalizing all assets.
    pub all_assets_kb: u64,
}

proof fn lemma_kb_parts(assets: Seq<DetectedAsset>, bundle_kb: u64)
    ensures
        kb_at_priority(assets, bundle_kb, AssetPriority::Critical) + kb_at_priority(
            assets,
            bundle_kb,
            AssetPriority::High,
        ) <= kb_total(assets),
    decreases assets.len(),
{
    if assets.len() > 0 {
        lemma_kb_parts(assets.drop_last(), bundle_kb);
    }
}

proof fn lemma_kb_prefix(assets: Seq<DetectedAsset>, bundle_kb: u64, i: int)
    requires
        0 <= i <= assets.len(),
    ensures
        kb_total(assets.take(i)) <= kb_total(assets),
    decreases assets.len(),
{
    if i < assets.len() {
        assert(assets.drop_last().take(i) == assets.take(i));
        lemma_kb_prefix(assets.drop_last(), bundle_kb, i);
    } else {
        assert(assets.take(i) == assets);
    }
}

impl AssetDetector {
    /// A detector for the project at `project_root`.
    pub fn new(project_root: &str) -> (r: Self)
        ensures
            r.project_root@ == project_root@,
    {
        AssetDetector { project_root: to_string(project_root) }
    }

    /// The kind of asset a path names, by its extension, ignoring ASCII case.
    pub fn detect_type(path: &str) -> (r: AssetType)
        ensures
            r == type_for_extension(path_extension(path@)),
    {
        match extension_of(path) {
            Some(e) => {
                let v = chars_of(e.as_str());
                let n = v.len();
                if lower_is_range(&v, 0, n, "ttf") || lower_is_range(&v, 0, n, "otf")
                    || lower_is_range(&v, 0, n, "woff") || lower_is_range(&v, 0, n, "woff2") {
                    assert(v@.subrange(0, n as int) == v@);
                    AssetType::Font
                } else if lower_is_range(&v, 0, n, "png") || lower_is_range(&v, 0, n, "jpg")
                    || lower_is_range(&v, 0, n, "jpeg") || lower_is_range(&v, 0, n, "gif")
                    || lower_is_range(&v, 0, n, "svg") || lower_is_range(&v, 0, n, "webp") {
                    assert(v@.subrange(0, n as int) == v@);
                    AssetType::Image
                } else if lower_is_range(&v, 0, n, "json") || lower_is_range(&v, 0, n, "toml")
                    || lower_is_range(&v, 0, n, "yaml") || lower_is_range(&v, 0, n, "txt")
                    || lower_is_range(&v, 0, n, "css") {
                    assert(v@.subrange(0, n as int) == v@);
                    AssetType::Data
                } else {
                    assert(v@.subrange(0, n as int) == v@);
                    AssetType::Unknown
                }
            },
            None => AssetType::Unknown,
        }
    }

    /// The files that the patterns `include_bytes!("..")` and
    /// `include_str!("..")` name in a source text, each with its macro.
    pub fn regex_inclusions(content: &str) -> (r: Vec<(String, String)>)
        ensures
            r@.map_values(|x: (String, String)| (x.0@, x.1@)) == regex_inclusions_of(content@),
    {
        let v = chars_of(content);
        let bytes = inclusions_exec(&v, "include_bytes!");
        let strs = inclusions_exec(&v, "include_str!");
        let ghost bv = string_views(bytes@);
        let ghost sv = string_views(strs@);
        let mut r: Vec<(String, String)> = Vec::new();
        let mut i: usize = 0;
        while i < bytes.len()
            invariant
                i <= bytes@.len(),
                bv == string_views(bytes@),
                r@.map_values(|x: (String, String)| (x.0@, x.1@)) == bv.take(i as int).map_values(
                    |p: Seq<char>| (p, "include_bytes!"@),
                ),
            decreases bytes@.len() - i,
        {
            let ghost before = r@;
            let m = String::from_str("include_bytes!");
            r.push((bytes[i].clone(), m));
            proof {
                let f = |p: Seq<char>| (p, "include_bytes!"@);
                assert(bv.take(i + 1) == bv.take(i as int).push(bv[i as int]));
                assert(bv.take(i + 1).map_values(f) == bv.take(i as int).map_values(f).push(
                    f(bv[i as int]),
                ));
                assert(r@.map_values(|x: (String, String)| (x.0@, x.1@)) == before.map_values(
                    |x: (String, String)| (x.0@, x.1@),
                ).push((bytes@[i as int]@, "include_bytes!"@)));
            }
            i = i + 1;
        }
        assert(bv.take(i as int) == bv);
        let ghost mid = r@.map_values(|x: (String, String)| (x.0@, x.1@));
        let mut j: usize = 0;
        while j < strs.len()
            invariant
                j <= strs@.len(),
                sv == string_views(strs@),
                r@.map_values(|x: (String, String)| (x.0@, x.1@)) == mid + sv.take(j as int).map_values(
                    |p: Seq<char>| (p, "include_str!"@),
                ),
            decreases strs@.len() - j,
        {
            let ghost before = r@;
            let m = String::from_str("include_str!");
            r.push((strs[j].clone(), m));
            proof {
                let f = |p: Seq<char>| (p, "include_str!"@);
                assert(sv.take(j + 1) == sv.take(j as int).push(sv[j as int]));
                assert(sv.take(j + 1).map_values(f) == sv.take(j as int).map_values(f).push(
                    f(sv[j as int]),
                ));
                assert(r@.map_values(|x: (String, String)| (x.0@, x.1@)) == before.map_values(
                    |x: (String, String)| (x.0@, x.1@),
                ).push((strs@[j as int]@, "include_str!"@)));
            }
            j = j + 1;
        }
        assert(sv.take(j as int) == sv);
        r
    }

    /// The savings of externalizing the critical assets, the high and critical
    /// ones, and all of them, in whole KB, for a bundle of `bundle_size_kb` KB.
    pub fn estimate_savings_kb(assets: &Vec<DetectedAsset>, bundle_size_kb: u64) -> (r: SavingsKb)
        requires
            kb_total(assets@) <= u64::MAX,
        ensures
            r.critical_only_kb == kb_at_priority(assets@, bundle_size_kb, AssetPriority::Critical),
            r.high_and_critical_kb == kb_at_priority(assets@, bundle_size_kb, AssetPriority::Critical)
                + kb_at_priority(assets@, bundle_size_kb, AssetPriority::High),
            r.all_assets_kb == kb_total(assets@),
    {
        let mut total: u64 = 0;
        let mut critical: u64 = 0;
        let mut high: u64 = 0;
        let mut i: usize = 0;
        while i < assets.len()
            invariant
                i <= assets@.len(),
                kb_total(assets@) <= u64::MAX,
                total == kb_total(assets@.take(i as int)),
                critical == kb_at_priority(assets@.take(i as int), bundle_size_kb, AssetPriority::Critical),
                high == kb_at_priority(assets@.take(i as int), bundle_size_kb, AssetPriority::High),
            decreases assets@.len() - i,
        {
            let ghost pre = assets@.take(i as int);
            let ghost post = assets@.take(i + 1);
            assert(post.drop_last() == pre);
            assert(post.last() == assets@[i as int]);
            proof {
                lemma_kb_prefix(assets@, bundle_size_kb, i + 1);
                lemma_kb_parts(post, bundle_size_kb);
            }
            let kb = assets[i].size_bytes / 1024;
            total = total + kb;
            let p = AssetPriority::from_size(kb, bundle_size_kb);
            match p {
                AssetPriority::Critical => {
                    critical = critical + kb;
                },
                AssetPriority::High => {
                    high = high + kb;
                },
                _ => {},
            }
            i = i + 1;
        }
        assert(assets@.take(i as int) == assets@);
        proof {
            lemma_kb_parts(assets@, bundle_size_kb);
        }
        SavingsKb {
            critical_only_kb: critical,
            high_and_critical_kb: critical + high,
            all_assets_kb: total,
        }
    }
}


/// The assets, by value, whose priority in a bundle of `bundle_kb` KB is `p`,
/// in order.
pub open spec fn at_priority(assets: Seq<DetectedAsset>, bundle_kb: u64, p: AssetPriority) -> Seq<
    AssetView,
>
    decreases assets.len(),
{
    if assets.len() == 0 {
        seq![]
    } else if priority_for(asset_kb(assets.last()) as u64, bundle_kb) == p {
        at_priority(assets.drop_last(), bundle_kb, p).push(assets.last()@)
    } else {
        at_priority(assets.drop_last(), bundle_kb, p)
    }
}

pub open spec fn asset_views(v: Seq<DetectedAsset>) -> Seq<AssetView> {
    v.map_values(|a: DetectedAsset| a@)
}

/// Assets grouped by their priority.
#[derive(Debug)]
pub struct PriorityGroups {
    pub critical: Vec<DetectedAsset>,
    pub high: Vec<DetectedAsset>,
    pub medium: Vec<DetectedAsset>,
    pub low: Vec<DetectedAsset>,
}

impl AssetDetector {
    /// The assets grouped by their priority in a bundle of `bundle_size_kb` KB,
    /// each group in scan order.
    pub fn group_by_priority(assets: &Vec<DetectedAsset>, bundle_size_kb: u64) -> (r: PriorityGroups)
        ensures
            asset_views(r.critical@) == at_priority(assets@, bundle_size_kb, AssetPriority::Critical),
            asset_views(r.high@) == at_priority(assets@, bundle_size_kb, AssetPriority::High),
            asset_views(r.medium@) == at_priority(assets@, bundle_size_kb, AssetPriority::Medium),
            asset_views(r.low@) == at_priority(assets@, bundle_size_kb, AssetPriority::Low),
    {
        let mut g = PriorityGroups {
            critical: Vec::new(),
            high: Vec::new(),
            medium: Vec::new(),
            low: Vec::new(),
        };
        let mut i: usize = 0;
        while i < assets.len()
            invariant
                i <= assets@.len(),
                asset_views(g.critical@) == at_priority(assets@.take(i as int), bundle_size_kb, AssetPriority::Critical),
                asset_views(g.high@) == at_priority(assets@.take(i as int), bundle_size_kb, AssetPriority::High),
                asset_views(g.medium@) == at_priority(assets@.take(i as int), bundle_size_kb, AssetPriority::Medium),
                asset_views(g.low@) == at_priority(assets@.take(i as int), bundle_size_kb, AssetPriority::Low),
            decreases assets@.len() - i,
        {
            let a = &assets[i];
            let c = a.duplicate();
            let p = AssetPriority::from_size(a.size_bytes / 1024, bundle_size_kb);
            proof {
                let t = assets@.take(i + 1);
                assert(t.drop_last() == assets@.take(i as int));
                assert(t.last() == assets@[i as int]);
            }
            match p {
                AssetPriority::Critical => {
                    let ghost before = g.critical@;
                    g.critical.push(c);
                    assert(asset_views(g.critical@) == asset_views(before).push(c@));
                },
                AssetPriority::High => {
                    let ghost before = g.high@;
                    g.high.push(c);
                    assert(asset_views(g.high@) == asset_views(before).push(c@));
                },
                AssetPriority::Medium => {
                    let ghost before = g.medium@;
                    g.medium.push(c);
                    assert(asset_views(g.medium@) == asset_views(before).push(c@));
                },
                AssetPriority::Low => {
                    let ghost before = g.low@;
                    g.low.push(c);
                    assert(asset_views(g.low@) == asset_views(before).push(c@));
                },
            }
            i = i + 1;
        }
        assert(assets@.take(i as int) == assets@);
        g
    }
}

} // verus!
