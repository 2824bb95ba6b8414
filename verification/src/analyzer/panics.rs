//! Detection of panic sites, which bloat WASM binaries with formatting and
//! unwinding code (500-2000 bytes each).
use vstd::prelude::*;
use vstd::string::*;
use crate::analyzer::assets::ws_end;
use crate::text::{
    CharClass,
    chars_of,
    contains,
    contains_str,
    find_where,
    line_ranges,
    lines,
    match_at,
    occurs_at,
    pieces,
    push_str,
    ranges_ok,
    str_is,
    string_of_range,
    strip_bounds,
    to_string,
    trim,
};

verus! {

broadcast use vstd::string::group_string_axioms;

/// Errors of the panic scan.
#[derive(Debug, Clone, PartialEq, Eq)]
pub enum PanicDetectionError {
    /// I/O error, with its message.
    Io(String),
    /// A pattern that does not compile, with its message.
    Regex(String),
    /// A source file that does not parse: its path and the parser's message.
    ParseError(String, String),
}

impl PanicDetectionError {
    /// The error message.
    pub fn to_string(&self) -> (r: String)
        ensures
            r@ == match *self {
                PanicDetectionError::Io(m) => "I/O error: "@ + m@,
                PanicDetectionError::Regex(m) => "Regex error: "@ + m@,
                PanicDetectionError::ParseError(f, m) => "Failed to parse "@ + f@ + ": "@ + m@,
            },
    {
        let mut s = String::new();
        match self {
            PanicDetectionError::Io(m) => {
                push_str(&mut s, "I/O error: ");
                push_str(&mut s, m.as_str());
            },
            PanicDetectionError::Regex(m) => {
                push_str(&mut s, "Regex error: ");
                push_str(&mut s, m.as_str());
            },
            PanicDetectionError::ParseError(f, m) => {
                push_str(&mut s, "Failed to parse ");
                push_str(&mut s, f.as_str());
                push_str(&mut s, ": ");
                push_str(&mut s, m.as_str());
            },
        }
        s
    }
}

/// Kind of panic site.
#[derive(Debug, Clone, Copy, PartialEq, Eq, Structural, Hash)]
pub enum PanicPattern {
    /// `.unwrap()` call.
    Unwrap,
    /// `.expect("message")` call.
    Expect,
    /// Indexing `arr[i]`.
    Index,
    /// Division operator `/` or `%`.
    Division,
    /// `panic!()` macro.
    PanicMacro,
    /// `assert!()` macro (kept in release builds).
    AssertMacro,
}

/// Estimated bytes that one panic site of a kind costs.
pub open spec fn site_size(p: PanicPattern) -> u64 {
    match p {
        PanicPattern::Unwrap => 800,
        PanicPattern::Expect => 1200,
        PanicPattern::Index => 1000,
        PanicPattern::Division => 600,
        PanicPattern::PanicMacro => 1500,
        PanicPattern::AssertMacro => 1000,
    }
}

pub open spec fn pattern_name(p: PanicPattern) -> Seq<char> {
    match p {
        PanicPattern::Unwrap => "unwrap()"@,
        PanicPattern::Expect => "expect()"@,
        PanicPattern::Index => "array[index]"@,
        PanicPattern::Division => "division operator"@,
        PanicPattern::PanicMacro => "panic!()"@,
        PanicPattern::AssertMacro => "assert!()"@,
    }
}

pub open spec fn pattern_alternative(p: PanicPattern) -> Seq<char> {
    match p {
        PanicPattern::Unwrap | PanicPattern::Expect => "match or if let"@,
        PanicPattern::Index => ".get(index)"@,
        PanicPattern::Division => ".checked_div() or .checked_rem()"@,
        PanicPattern::PanicMacro => "Result<T, E> or Option<T>"@,
        PanicPattern::AssertMacro => "debug_assert!() or runtime checks"@,
    }
}

impl PanicPattern {
    /// Human-readable name.
    pub fn name(&self) -> (r: &'static str)
        ensures
            r@ == pattern_name(*self),
    {
        match self {
            PanicPattern::Unwrap => "unwrap()",
            PanicPattern::Expect => "expect()",
            PanicPattern::Index => "array[index]",
            PanicPattern::Division => "division operator",
            PanicPattern::PanicMacro => "panic!()",
            PanicPattern::AssertMacro => "assert!()",
        }
    }

    /// Recommended alternative.
    pub fn alternative(&self) -> (r: &'static str)
        ensures
            r@ == pattern_alternative(*self),
    {
        match self {
            PanicPattern::Unwrap | PanicPattern::Expect => "match or if let",
            PanicPattern::Index => ".get(index)",
            PanicPattern::Division => ".checked_div() or .checked_rem()",
            PanicPattern::PanicMacro => "Result<T, E> or Option<T>",
            PanicPattern::AssertMacro => "debug_assert!() or runtime checks",
        }
    }

    /// Estimated size per occurrence in bytes.
    pub fn size_per_occurrence(&self) -> (r: u64)
        ensures
            r == site_size(*self),
    {
        match self {
            PanicPattern::Unwrap => 800,
            PanicPattern::Expect => 1200,
            PanicPattern::Index => 1000,
            PanicPattern::Division => 600,
            PanicPattern::PanicMacro => 1500,
            PanicPattern::AssertMacro => 1000,
        }
    }

    /// The pattern of a method call named `method`: `unwrap` and `expect` panic.
    pub fn of_method(method: &str) -> (r: Option<PanicPattern>)
        ensures
            r == (if method@ == "unwrap"@ {
                Some(PanicPattern::Unwrap)
            } else if method@ == "expect"@ {
                Some(PanicPattern::Expect)
            } else {
                None
            }),
    {
        if str_is(method, "unwrap") {
            Some(PanicPattern::Unwrap)
        } else if str_is(method, "expect") {
            Some(PanicPattern::Expect)
        } else {
            None
        }
    }
}

/// A detected panic site.
#[derive(Debug, Clone)]
pub struct DetectedPanic {
    /// File path.
    pub file: String,
    /// Line number (0 if unknown).
    pub line: usize,
    /// Kind of panic site.
    pub pattern: PanicPattern,
    /// The trimmed source line, if known.
    pub snippet: Option<String>,
}

/// The value of a `DetectedPanic`.
pub struct PanicView {
    pub file: Seq<char>,
    pub line: usize,
    pub pattern: PanicPattern,
    pub snippet: Option<Seq<char>>,
}

impl View for DetectedPanic {
    type V = PanicView;

    open spec fn view(&self) -> PanicView {
        PanicView {
            file: self.file@,
            line: self.line,
            pattern: self.pattern,
            snippet: match self.snippet {
                Some(s) => Some(s@),
                None => None,
            },
        }
    }
}

pub open spec fn panic_views(v: Seq<DetectedPanic>) -> Seq<PanicView> {
    v.map_values(|x: DetectedPanic| x@)
}

/// Panic detector of one project.
pub struct PanicDetector {
    /// The project's root directory.
    pub project_root: String,
}

/// `m\s*\(` matches at index `i` of `s`.
pub open spec fn call_at(s: Seq<char>, m: Seq<char>, i: int) -> bool {
    occurs_at(s, m, i) && ws_end(s, i + m.len()) < s.len() && s[ws_end(s, i + m.len())] == '('
}

/// `m\s*\(` matches somewhere in `s`.
pub open spec fn has_call(s: Seq<char>, m: Seq<char>) -> bool {
    exists|i: int| 0 <= i <= s.len() && #[trigger] call_at(s, m, i)
}

/// The sites that the line patterns find in the lines `ls` (numbered from
/// `first`): a `panic!(` call, or an `assert!(` call on a line without
/// `debug_assert!`. All `panic!` sites come first, then the `assert!` ones.
pub open spec fn macro_sites(file: Seq<char>, ls: Seq<Seq<char>>, m: Seq<char>, skip_debug: bool) -> Seq<
    PanicView,
>
    decreases ls.len(),
{
    if ls.len() == 0 {
        seq![]
    } else {
        let l = ls.last();
        let found = has_call(l, m) && !(skip_debug && contains(l, "debug_assert!"@));
        let rest = macro_sites(file, ls.drop_last(), m, skip_debug);
        if found {
            rest.push(
                PanicView {
                    file,
                    line: ls.len() as usize,
                    pattern: if skip_debug {
                        PanicPattern::AssertMacro
                    } else {
                        PanicPattern::PanicMacro
                    },
                    snippet: Some(trim(l)),
                },
            )
        } else {
            rest
        }
    }
}

/// Whether `m\s*\(` matches in `v[lo..hi]`.
fn has_call_range(v: &Vec<char>, lo: usize, hi: usize, m: &Vec<char>) -> (b: bool)
    requires
        lo <= hi <= v@.len(),
    ensures
        b == has_call(v@.subrange(lo as int, hi as int), m@),
{
    let ghost s = v@.subrange(lo as int, hi as int);
    let line = string_of_range(v, lo, hi);
    let lv = chars_of(line.as_str());
    assert(lv@ == s);
    let n = lv.len();
    let mut i: usize = 0;
    while i < n
        invariant
            lo <= hi <= v@.len(),
            s == v@.subrange(lo as int, hi as int),
            lv@ == s,
            n == s.len(),
            i <= n,
            forall|j: int| 0 <= j < i ==> !#[trigger] call_at(s, m@, j),
        decreases n - i,
    {
        if m.len() <= n - i && match_at(&lv, i, m) {
            let j = find_where(&lv, CharClass::Whitespace, false, i + m.len(), n);
            if j < n && lv[j] == '(' {
                assert(call_at(s, m@, i as int));
                return true;
            }
        }
        assert(!call_at(s, m@, i as int));
        i = i + 1;
    }
    proof {
        assert(s.subrange(n as int, n as int).len() == 0);
        assert(!call_at(s, m@, n as int));
        assert forall|j: int| 0 <= j <= s.len() implies !#[trigger] call_at(s, m@, j) by {
            if j < n {
            }
        }
    }
    false
}

impl PanicDetector {
    /// A detector for the project at `project_root`.
    pub fn new(project_root: &str) -> (r: Self)
        ensures
            r.project_root@ == project_root@,
    {
        PanicDetector { project_root: to_string(project_root) }
    }

    /// The panic sites that the line patterns find in `content` (the text of
    /// `source_file`): `panic!(` lines, then `assert!(` lines without
    /// `debug_assert!`, each with its line number and trimmed text.
    pub fn scan_with_regex(&self, content: &str, source_file: &str) -> (r: Vec<DetectedPanic>)
        ensures
            panic_views(r@) == macro_sites(source_file@, lines(content@), "panic!"@, false)
                + macro_sites(source_file@, lines(content@), "assert!"@, true),
    {
        let v = chars_of(content);
        let ranges = line_ranges(&v);
        let mut sites: Vec<DetectedPanic> = Vec::new();
        self.scan_lines(&v, &ranges, source_file, "panic!", false, &mut sites);
        self.scan_lines(&v, &ranges, source_file, "assert!", true, &mut sites);
        sites
    }

    /// Appends the sites of macro `m` in the lines `ranges` of `v`.
    fn scan_lines(
        &self,
        v: &Vec<char>,
        ranges: &Vec<(usize, usize)>,
        source_file: &str,
        m: &str,
        skip_debug: bool,
        sites: &mut Vec<DetectedPanic>,
    )
        requires
            ranges_ok(v@, ranges@),
        ensures
            panic_views(final(sites)@) == panic_views(old(sites)@) + macro_sites(
                source_file@,
                pieces(v@, ranges@),
                m@,
                skip_debug,
            ),
    {
        let ghost ls = pieces(v@, ranges@);
        let ghost start = panic_views(sites@);
        let mv = chars_of(m);
        let mut i: usize = 0;
        while i < ranges.len()
            invariant
                i <= ranges@.len(),
                ranges_ok(v@, ranges@),
                ls == pieces(v@, ranges@),
                mv@ == m@,
                panic_views(sites@) == start + macro_sites(
                    source_file@,
                    ls.take(i as int),
                    m@,
                    skip_debug,
                ),
            decreases ranges@.len() - i,
        {
            let (a, b) = ranges[i];
            assert(ranges@[i as int].0 <= ranges@[i as int].1 <= v@.len());
            let ghost l = v@.subrange(a as int, b as int);
            assert(ls[i as int] == l);
            assert(ls.take(i + 1).drop_last() == ls.take(i as int));
            assert(ls.take(i + 1).last() == l);
            assert(ls.take(i + 1).len() == i + 1);
            let call = has_call_range(v, a, b, &mv);
            let found = call && !(skip_debug && {
                let lv = chars_of(string_of_range(v, a, b).as_str());
                contains_str(&lv, "debug_assert!")
            });
            if found {
                let (c, d) = strip_bounds(v, a, b, CharClass::Whitespace);
                let site = DetectedPanic {
                    file: to_string(source_file),
                    line: i + 1,
                    pattern: if skip_debug {
                        PanicPattern::AssertMacro
                    } else {
                        PanicPattern::PanicMacro
                    },
                    snippet: Some(string_of_range(v, c, d)),
                };
                let ghost before = sites@;
                sites.push(site);
                assert(panic_views(sites@) == panic_views(before).push(site@));
            }
            i = i + 1;
        }
        assert(ls.take(i as int) == ls);
    }
}

/// The estimated size of `count` sites of kind `p`, in KB: their bytes
/// divided by 1024, rounded down.
pub fn pattern_size_kb(p: PanicPattern, count: usize) -> (r: u64)
    requires
        site_size(p) * count <= u64::MAX,
    ensures
        r == (site_size(p) * count) / 1024,
{
    (p.size_per_occurrence() * (count as u64)) / 1024
}

} // verus!
