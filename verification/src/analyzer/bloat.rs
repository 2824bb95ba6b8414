//! Reading of `cargo bloat` output.
//!
//! The table starts after the header line holding `File  .text`; each row is
//! `size percent% name...`, the `.text section size` line gives the code size
//! and the `File size` line, which ends the table, the file size. Sizes are
//! plain bytes (`123`, `123B`) or fractional `KiB`/`MiB`; the fractional ones
//! are kept as the literal they were written with, for the caller to scale.
use vstd::prelude::*;
use vstd::string::*;
use crate::text::{
    CharClass,
    chars_of,
    find_from,
    float_syntax,
    float_syntax_range,
    joined,
    joined_words,
    line_ranges,
    lines,
    match_at,
    occurs_at,
    parse_u64,
    parse_u64_range,
    pieces,
    ranges_ok,
    starts_with,
    contains,
    string_of_range,
    strip_bounds,
    strip_end,
    strip_end_bound,
    to_string,
    trim,
    vec_contains,
    word_ranges,
    words,
};

verus! {

broadcast use vstd::string::group_string_axioms;

/// A size column, read as far as it can be without floating point.
#[derive(Debug, Clone, PartialEq, Eq)]
pub enum SizeText {
    /// Whole bytes (`123B` or `123`).
    Bytes(u64),
    /// A number of KiB: a literal that `f64::from_str` accepts.
    KiB(String),
    /// A number of MiB: a literal that `f64::from_str` accepts.
    MiB(String),
}

/// The value of a `SizeText`.
pub enum SizeView {
    Bytes(u64),
    KiB(Seq<char>),
    MiB(Seq<char>),
}

impl View for SizeText {
    type V = SizeView;

    open spec fn view(&self) -> SizeView {
        match self {
            SizeText::Bytes(n) => SizeView::Bytes(*n),
            SizeText::KiB(t) => SizeView::KiB(t@),
            SizeText::MiB(t) => SizeView::MiB(t@),
        }
    }
}

/// A size that does not parse, by the unit it was written with; each holds the
/// size text as given.
#[derive(Debug, Clone, PartialEq, Eq)]
pub enum BloatParseError {
    /// A `KiB` size whose number is not a float literal.
    KibValue(String),
    /// A `MiB` size whose number is not a float literal.
    MibValue(String),
    /// A `B` size whose number is not a `u64`.
    ByteValue(String),
    /// A size without a unit that is not a `u64`.
    Size(String),
}

/// Which unit a size that does not parse was written with.
pub enum SizeFault {
    Kib,
    Mib,
    Bytes,
    Plain,
}

impl BloatParseError {
    /// The error message.
    pub fn to_string(&self) -> (r: String)
        ensures
            r@ == match *self {
                BloatParseError::KibValue(_) => "Failed to parse KB value"@,
                BloatParseError::MibValue(_) => "Failed to parse MB value"@,
                BloatParseError::ByteValue(_) => "Failed to parse byte value"@,
                BloatParseError::Size(_) => "Failed to parse size"@,
            },
    {
        match self {
            BloatParseError::KibValue(_) => String::from_str("Failed to parse KB value"),
            BloatParseError::MibValue(_) => String::from_str("Failed to parse MB value"),
            BloatParseError::ByteValue(_) => String::from_str("Failed to parse byte value"),
            BloatParseError::Size(_) => String::from_str("Failed to parse size"),
        }
    }
}

/// `s` ends with `p`.
pub open spec fn ends_in(s: Seq<char>, p: Seq<char>) -> bool {
    p.len() <= s.len() && s.skip(s.len() - p.len()) == p
}

/// What a size text denotes: trimmed, a float literal before `KiB` or `MiB`,
/// a `u64` before `B`, or a `u64` alone.
pub open spec fn size_of(s: Seq<char>) -> Result<SizeView, SizeFault> {
    let t = trim(s);
    if ends_in(t, "KiB"@) {
        let k = t.take(t.len() - 3);
        if float_syntax(k) {
            Ok(SizeView::KiB(k))
        } else {
            Err(SizeFault::Kib)
        }
    } else if ends_in(t, "MiB"@) {
        let k = t.take(t.len() - 3);
        if float_syntax(k) {
            Ok(SizeView::MiB(k))
        } else {
            Err(SizeFault::Mib)
        }
    } else if t.len() > 0 && t.last() == 'B' {
        match parse_u64(t.drop_last()) {
            Some(n) => Ok(SizeView::Bytes(n)),
            None => Err(SizeFault::Bytes),
        }
    } else {
        match parse_u64(t) {
            Some(n) => Ok(SizeView::Bytes(n)),
            None => Err(SizeFault::Plain),
        }
    }
}

/// The error for a size text `s` that fails with `f`.
pub open spec fn size_error(f: SizeFault, s: Seq<char>) -> ErrorView {
    match f {
        SizeFault::Kib => ErrorView::KibValue(s),
        SizeFault::Mib => ErrorView::MibValue(s),
        SizeFault::Bytes => ErrorView::ByteValue(s),
        SizeFault::Plain => ErrorView::Size(s),
    }
}

/// The value of a `BloatParseError`.
pub enum ErrorView {
    KibValue(Seq<char>),
    MibValue(Seq<char>),
    ByteValue(Seq<char>),
    Size(Seq<char>),
}

impl View for BloatParseError {
    type V = ErrorView;

    open spec fn view(&self) -> ErrorView {
        match self {
            BloatParseError::KibValue(t) => ErrorView::KibValue(t@),
            BloatParseError::MibValue(t) => ErrorView::MibValue(t@),
            BloatParseError::ByteValue(t) => ErrorView::ByteValue(t@),
            BloatParseError::Size(t) => ErrorView::Size(t@),
        }
    }
}

/// `s` ends with `p` (`v[lo..hi]` for `s`).
fn ends_in_range(v: &Vec<char>, lo: usize, hi: usize, p: &str) -> (b: bool)
    requires
        lo <= hi <= v@.len(),
    ensures
        b == ends_in(v@.subrange(lo as int, hi as int), p@),
{
    let ghost s = v@.subrange(lo as int, hi as int);
    let pv = chars_of(p);
    if pv.len() > hi - lo {
        return false;
    }
    let start = hi - pv.len();
    let b = match_at(v, start, &pv);
    proof {
        assert(s.skip(s.len() - pv@.len()) == v@.subrange(start as int, hi as int));
    }
    b
}

/// The size that `v[lo..hi]` denotes, or the error it gives.
fn size_of_range(v: &Vec<char>, lo: usize, hi: usize) -> (r: Result<SizeText, BloatParseError>)
    requires
        lo <= hi <= v@.len(),
    ensures
        match size_of(v@.subrange(lo as int, hi as int)) {
            Ok(z) => r matches Ok(x) && x@ == z,
            Err(f) => r matches Err(e) && e@ == size_error(f, v@.subrange(lo as int, hi as int)),
        },
{
    let ghost s = v@.subrange(lo as int, hi as int);
    let (a, b) = strip_bounds(v, lo, hi, CharClass::Whitespace);
    let ghost t = v@.subrange(a as int, b as int);
    assert(t == trim(s));
    if ends_in_range(v, a, b, "KiB") {
        proof {
            reveal_strlit("KiB");
            assert(t.take(t.len() - 3) == v@.subrange(a as int, b - 3));
        }
        if float_syntax_range(v, a, b - 3) {
            Ok(SizeText::KiB(string_of_range(v, a, b - 3)))
        } else {
            Err(BloatParseError::KibValue(string_of_range(v, lo, hi)))
        }
    } else if ends_in_range(v, a, b, "MiB") {
        proof {
            reveal_strlit("MiB");
            assert(t.take(t.len() - 3) == v@.subrange(a as int, b - 3));
        }
        if float_syntax_range(v, a, b - 3) {
            Ok(SizeText::MiB(string_of_range(v, a, b - 3)))
        } else {
            Err(BloatParseError::MibValue(string_of_range(v, lo, hi)))
        }
    } else if a < b && v[b - 1] == 'B' {
        assert(t.last() == v@[b - 1]);
        assert(t.drop_last() == v@.subrange(a as int, b - 1));
        match parse_u64_range(v, a, b - 1) {
            Some(n) => Ok(SizeText::Bytes(n)),
            None => Err(BloatParseError::ByteValue(string_of_range(v, lo, hi))),
        }
    } else {
        match parse_u64_range(v, a, b) {
            Some(n) => Ok(SizeText::Bytes(n)),
            None => Err(BloatParseError::Size(string_of_range(v, lo, hi))),
        }
    }
}

/// One row of the table.
#[derive(Debug, Clone, PartialEq, Eq)]
pub struct BloatRow {
    /// Size of the item.
    pub size: SizeText,
    /// Share of the binary, as written without its `%`; a float literal.
    pub percentage: String,
    /// The words after the percentage, joined by single spaces.
    pub name: String,
    /// The name up to its first `::`.
    pub crate_name: String,
}

/// The value of a `BloatRow`.
pub struct RowView {
    pub size: SizeView,
    pub percentage: Seq<char>,
    pub name: Seq<char>,
    pub crate_name: Seq<char>,
}

impl View for BloatRow {
    type V = RowView;

    open spec fn view(&self) -> RowView {
        RowView {
            size: self.size@,
            percentage: self.percentage@,
            name: self.name@,
            crate_name: self.crate_name@,
        }
    }
}

/// The first index at or after `i` where `p` occurs in `s`, or `s.len()`.
pub open spec fn first_occurrence(s: Seq<char>, p: Seq<char>, i: int) -> int
    decreases s.len() - i,
{
    if i >= s.len() {
        s.len() as int
    } else if occurs_at(s, p, i) {
        i
    } else {
        first_occurrence(s, p, i + 1)
    }
}

/// The part of a symbol before its first `::` (all of it when there is none).
pub open spec fn crate_of(name: Seq<char>) -> Seq<char> {
    name.take(first_occurrence(name, "::"@, 0))
}

/// The row a line denotes: three words or more, the first a size, the second
/// a float literal once its trailing `%` are removed; the name is the other
/// words joined by spaces.
pub open spec fn row_of(line: Seq<char>) -> Option<RowView> {
    let ws = words(line);
    if ws.len() < 3 {
        None
    } else {
        let pct = strip_end(ws[1], CharClass::Exactly('%'));
        let name = joined(ws.skip(2), seq![' ']);
        match size_of(ws[0]) {
            Ok(z) => if float_syntax(pct) {
                Some(RowView { size: z, percentage: pct, name, crate_name: crate_of(name) })
            } else {
                None
            },
            Err(_) => None,
        }
    }
}

proof fn lemma_first_occurrence(s: Seq<char>, p: Seq<char>, i: int, k: int)
    requires
        0 <= i <= k <= s.len(),
        forall|j: int| i <= j < k ==> !occurs_at(s, p, j),
        k == s.len() || occurs_at(s, p, k),
    ensures
        first_occurrence(s, p, i) == k,
    decreases k - i,
{
    if i < k {
        lemma_first_occurrence(s, p, i + 1, k);
    }
}

/// The part of `name` before its first `::`.
fn crate_of_exec(name: &Vec<char>) -> (r: String)
    ensures
        r@ == crate_of(name@),
{
    let sep = chars_of("::");
    proof {
        reveal_strlit("::");
    }
    match find_from(name, &sep, 0) {
        Some(i) => {
            proof {
                assert(occurs_at(name@, sep@, i as int));
                lemma_first_occurrence(name@, sep@, 0, i as int);
            }
            string_of_range(name, 0, i)
        },
        None => {
            proof {
                lemma_first_occurrence(name@, sep@, 0, name@.len() as int);
            }
            assert(name@.subrange(0, name@.len() as int) == name@.take(name@.len() as int));
            string_of_range(name, 0, name.len())
        },
    }
}

/// The row of the line `v[lo..hi]`.
fn row_of_range(v: &Vec<char>, lo: usize, hi: usize) -> (r: Option<BloatRow>)
    requires
        lo <= hi <= v@.len(),
    ensures
        r matches Some(x) ==> row_of(v@.subrange(lo as int, hi as int)) == Some(x@),
        r is None ==> row_of(v@.subrange(lo as int, hi as int)) is None,
{
    let ghost line = v@.subrange(lo as int, hi as int);
    let w = word_ranges(v, lo, hi);
    let ghost ws = pieces(v@, w@);
    assert(ws == words(line));
    if w.len() < 3 {
        return None;
    }
    let (s0, e0) = w[0];
    let (s1, e1) = w[1];
    assert(w@[0].0 <= w@[0].1 <= v@.len());
    assert(w@[1].0 <= w@[1].1 <= v@.len());
    assert(ws[0] == v@.subrange(s0 as int, e0 as int));
    assert(ws[1] == v@.subrange(s1 as int, e1 as int));
    let size = match size_of_range(v, s0, e0) {
        Ok(z) => z,
        Err(_) => {
            return None;
        },
    };
    let p_end = strip_end_bound(v, s1, e1, CharClass::Exactly('%'));
    if !float_syntax_range(v, s1, p_end) {
        return None;
    }
    let percentage = string_of_range(v, s1, p_end);
    let jv = joined_words(v, &w, 2);
    assert(jv@.subrange(0, jv@.len() as int) == jv@);
    let name = string_of_range(&jv, 0, jv.len());
    let crate_name = crate_of_exec(&jv);
    Some(BloatRow { size, percentage, name, crate_name })
}

/// What a table holds: its rows and its two summary sizes (0 bytes when absent).
#[derive(Debug, Clone, PartialEq, Eq)]
pub struct BloatTable {
    /// The rows that parse, in order.
    pub rows: Vec<BloatRow>,
    /// The `.text section size`.
    pub text_size: SizeText,
    /// The `File size`.
    pub file_size: SizeText,
}

/// The value of a `BloatTable`.
pub struct TableView {
    pub rows: Seq<RowView>,
    pub text_size: SizeView,
    pub file_size: SizeView,
}

pub open spec fn row_views(v: Seq<BloatRow>) -> Seq<RowView> {
    v.map_values(|r: BloatRow| r@)
}

impl View for BloatTable {
    type V = TableView;

    open spec fn view(&self) -> TableView {
        TableView { rows: row_views(self.rows@), text_size: self.text_size@, file_size: self.file_size@ }
    }
}

/// A table with nothing read yet.
pub open spec fn empty_table() -> TableView {
    TableView { rows: seq![], text_size: SizeView::Bytes(0), file_size: SizeView::Bytes(0) }
}

/// Reading the lines `ls`, inside the table or not, having read `acc`: the
/// table, or the error of the first summary size that does not parse.
pub open spec fn scan_lines(ls: Seq<Seq<char>>, in_table: bool, acc: TableView) -> Result<
    TableView,
    ErrorView,
>
    decreases ls.len(),
{
    if ls.len() == 0 {
        Ok(acc)
    } else {
        let line = ls[0];
        let rest = ls.drop_first();
        let ws = words(line);
        if contains(line, "File  .text"@) {
            scan_lines(rest, true, acc)
        } else if !in_table {
            scan_lines(rest, false, acc)
        } else if starts_with(line, ".text section size"@) {
            if ws.len() > 3 {
                match size_of(ws[3]) {
                    Ok(z) => scan_lines(rest, true, TableView { text_size: z, ..acc }),
                    Err(f) => Err(size_error(f, ws[3])),
                }
            } else {
                scan_lines(rest, true, acc)
            }
        } else if starts_with(line, "File size"@) {
            if ws.len() > 2 {
                match size_of(ws[2]) {
                    Ok(z) => Ok(TableView { file_size: z, ..acc }),
                    Err(f) => Err(size_error(f, ws[2])),
                }
            } else {
                Ok(acc)
            }
        } else {
            match row_of(line) {
                Some(r) => scan_lines(rest, true, TableView { rows: acc.rows.push(r), ..acc }),
                None => scan_lines(rest, true, acc),
            }
        }
    }
}

/// Runs `cargo bloat` on a project and reads its report.
pub struct BloatAnalyzer {
    /// The directory holding the project's `Cargo.toml`.
    pub project_root: String,
}

impl BloatAnalyzer {
    /// An analyzer for the project at `project_root`.
    pub fn new(project_root: &str) -> (r: Self)
        ensures
            r.project_root@ == project_root@,
    {
        BloatAnalyzer { project_root: to_string(project_root) }
    }

    /// Reads one size: `12.5KiB`, `1.5MiB`, `1024B` or `1024`, white space
    /// around it ignored.
    pub fn parse_size(size: &str) -> (r: Result<SizeText, BloatParseError>)
        ensures
            match size_of(size@) {
                Ok(z) => r matches Ok(x) && x@ == z,
                Err(f) => r matches Err(e) && e@ == size_error(f, size@),
            },
    {
        let v = chars_of(size);
        assert(v@.subrange(0, v@.len() as int) == v@);
        size_of_range(&v, 0, v.len())
    }

    /// Reads one row: `size percent% name...`.
    pub fn parse_line(line: &str) -> (r: Option<BloatRow>)
        ensures
            r matches Some(x) ==> row_of(line@) == Some(x@),
            r is None ==> row_of(line@) is None,
    {
        let v = chars_of(line);
        assert(v@.subrange(0, v@.len() as int) == v@);
        row_of_range(&v, 0, v.len())
    }

    /// Reads a `cargo bloat` report: the rows after the header line, the
    /// `.text section size`, and the `File size` that ends the table.
    pub fn parse_output(&self, output: &str) -> (r: Result<BloatTable, BloatParseError>)
        ensures
            match scan_lines(lines(output@), false, empty_table()) {
                Ok(t) => r matches Ok(x) && x@ == t,
                Err(e) => r matches Err(x) && x@ == e,
            },
    {
        let v = chars_of(output);
        let ranges = line_ranges(&v);
        let ghost ls = pieces(v@, ranges@);
        let header = chars_of("File  .text");
        let text_line = chars_of(".text section size");
        let file_line = chars_of("File size");
        let mut rows: Vec<BloatRow> = Vec::new();
        let mut text_size = SizeText::Bytes(0);
        let mut file_size = SizeText::Bytes(0);
        let mut in_table = false;
        let mut i: usize = 0;
        proof {
            assert(ls.skip(0) == ls);
            assert(row_views(rows@) == Seq::<RowView>::empty());
            assert(TableView { rows: row_views(rows@), text_size: text_size@, file_size: file_size@ }
                == empty_table());
        }
        while i < ranges.len()
            invariant
                i <= ranges@.len(),
                ranges_ok(v@, ranges@),
                ls == pieces(v@, ranges@),
                ls == lines(output@),
                v@ == output@,
                header@ == "File  .text"@,
                text_line@ == ".text section size"@,
                file_line@ == "File size"@,
                scan_lines(ls, false, empty_table()) == scan_lines(
                    ls.skip(i as int),
                    in_table,
                    TableView { rows: row_views(rows@), text_size: text_size@, file_size: file_size@ },
                ),
            decreases ranges@.len() - i,
        {
            let (a, b) = ranges[i];
            assert(ranges@[i as int].0 <= ranges@[i as int].1 <= v@.len());
            let ghost line = v@.subrange(a as int, b as int);
            let ghost rest = ls.skip(i + 1);
            proof {
                assert(ls[i as int] == line);
                assert(ls.skip(i as int)[0] == line);
                assert(ls.skip(i as int).drop_first() == rest);
            }
            let lv = string_of_range(&v, a, b);
            let lc = chars_of(lv.as_str());
            assert(lc@ == line);
            let ghost acc = TableView { rows: row_views(rows@), text_size: text_size@, file_size: file_size@ };
            if vec_contains(&lc, &header) {
                in_table = true;
            } else if !in_table {
            } else if match_at(&lc, 0, &text_line) {
                let w = word_ranges(&lc, 0, lc.len());
                proof {
                    assert(lc@.subrange(0, lc@.len() as int) == lc@);
                }
                if w.len() > 3 {
                    let (s3, e3) = w[3];
                    assert(w@[3].0 <= w@[3].1 <= lc@.len());
                    assert(pieces(lc@, w@)[3] == lc@.subrange(s3 as int, e3 as int));
                    match size_of_range(&lc, s3, e3) {
                        Ok(z) => {
                            text_size = z;
                        },
                        Err(e) => {
                            return Err(e);
                        },
                    }
                }
            } else if match_at(&lc, 0, &file_line) {
                let w = word_ranges(&lc, 0, lc.len());
                proof {
                    assert(lc@.subrange(0, lc@.len() as int) == lc@);
                }
                if w.len() > 2 {
                    let (s2, e2) = w[2];
                    assert(w@[2].0 <= w@[2].1 <= lc@.len());
                    assert(pieces(lc@, w@)[2] == lc@.subrange(s2 as int, e2 as int));
                    match size_of_range(&lc, s2, e2) {
                        Ok(z) => {
                            file_size = z;
                        },
                        Err(e) => {
                            return Err(e);
                        },
                    }
                }
                return Ok(BloatTable { rows, text_size, file_size });
            } else {
                assert(lc@.subrange(0, lc@.len() as int) == lc@);
                match row_of_range(&lc, 0, lc.len()) {
                    Some(r) => {
                        let ghost before = rows@;
                        rows.push(r);
                        assert(row_views(rows@) == row_views(before).push(r@));
                    },
                    None => {},
                }
            }
            i = i + 1;
        }
        assert(ls.skip(i as int).len() == 0);
        Ok(BloatTable { rows, text_size, file_size })
    }
}

} // verus!
