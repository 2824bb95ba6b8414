//! Parsing of twiggy's tables (`top`, `dominators`, `garbage`, `monos`) and of
//! `twiggy diff`.
//!
//! A table row is `size | percent% | name`, the columns separated by `|` or by
//! the box-drawing bars `│` and `┊`; sizes may carry thousands commas. A diff row
//! is `+delta | name` or `-delta | name`. The first two lines of each output are
//! headers, blank lines are skipped and rows that do not parse are dropped.
use vstd::prelude::*;
use vstd::string::*;
use crate::text::{
    CharClass,
    chars_of,
    chars_without,
    find_char,
    float_syntax,
    float_syntax_range,
    index_of,
    line_ranges,
    lines,
    parse_i64,
    parse_i64_range,
    parse_u64,
    parse_u64_range,
    pieces,
    ranges_ok,
    split_class,
    split_class_ranges,
    string_of_range,
    strip_bounds,
    strip_end,
    strip_end_bound,
    trim,
    without_char,
    all_digits,
    dec,
    float_char,
    group3,
    joined,
    in_class,
    is_ws,
    lemma_dec_digits,
    lemma_digits_no_comma,
    lemma_float_char_plain,
    lemma_float_chars,
    lemma_group3_chars,
    lemma_group3_commas,
    lemma_index_of,
    lemma_lines_joined,
    lemma_parse_i64_signed_dec,
    lemma_parse_u64_dec,
    lemma_split_class_cons,
    lemma_split_class_none,
    lemma_trim_padded,
    lemma_without_absent,
    signed_dec,
};

verus! {

broadcast use vstd::string::group_string_axioms;

/// One row of a twiggy table.
#[derive(Debug)]
pub struct AnalysisItem {
    /// Size in bytes.
    pub size_bytes: u64,
    /// The percentage column as written, without its `%` signs; always a literal
    /// that `f64::from_str` accepts.
    pub percentage: String,
    /// Symbol name or description.
    pub name: String,
}

/// The value of an `AnalysisItem`.
pub struct ItemView {
    pub size_bytes: u64,
    pub percentage: Seq<char>,
    pub name: Seq<char>,
}

impl View for AnalysisItem {
    type V = ItemView;

    open spec fn view(&self) -> ItemView {
        ItemView { size_bytes: self.size_bytes, percentage: self.percentage@, name: self.name@ }
    }
}

impl AnalysisItem {
    /// A copy of the item.
    pub fn duplicate(&self) -> (r: Self)
        ensures
            r@ == self@,
    {
        AnalysisItem {
            size_bytes: self.size_bytes,
            percentage: self.percentage.clone(),
            name: self.name.clone(),
        }
    }
}

/// A single change between two builds.
#[derive(Debug)]
pub struct ChangeItem {
    /// Size delta in bytes.
    pub delta_bytes: i64,
    /// Symbol name.
    pub name: String,
}

/// The value of a `ChangeItem`.
pub struct ChangeView {
    pub delta_bytes: i64,
    pub name: Seq<char>,
}

impl View for ChangeItem {
    type V = ChangeView;

    open spec fn view(&self) -> ChangeView {
        ChangeView { delta_bytes: self.delta_bytes, name: self.name@ }
    }
}

/// The column separators of twiggy tables.
pub open spec fn column_bars() -> CharClass {
    CharClass::AnyOf('|', '│', '┊')
}

/// The columns of a table row, each trimmed.
pub open spec fn columns(line: Seq<char>) -> Seq<Seq<char>> {
    split_class(line, column_bars()).map_values(|p: Seq<char>| trim(p))
}

/// The item a table row denotes: at least three columns, the first a `u64` once
/// its commas are removed, the second a float literal once its trailing `%` signs
/// are removed; the third column is the name.
pub open spec fn line_item(line: Seq<char>) -> Option<ItemView> {
    let cols = columns(line);
    if cols.len() < 3 {
        None
    } else {
        let size = parse_u64(without_char(cols[0], ','));
        let pct = strip_end(cols[1], CharClass::Exactly('%'));
        if size is Some && float_syntax(pct) {
            Some(ItemView { size_bytes: size.unwrap(), percentage: pct, name: cols[2] })
        } else {
            None
        }
    }
}

/// The change a diff row denotes: the text before the first `|`, trimmed and
/// without commas, is an `i64`; the trimmed rest is the name.
pub open spec fn line_change(line: Seq<char>) -> Option<ChangeView> {
    let k = index_of(line, '|');
    if k >= line.len() {
        None
    } else {
        match parse_i64(without_char(trim(line.take(k)), ',')) {
            Some(d) => Some(ChangeView { delta_bytes: d, name: trim(line.skip(k + 1)) }),
            None => None,
        }
    }
}

/// The trimmed lines of `ls` that are not blank.
pub open spec fn nonblank_trimmed(ls: Seq<Seq<char>>) -> Seq<Seq<char>>
    decreases ls.len(),
{
    if ls.len() == 0 {
        seq![]
    } else if trim(ls.last()).len() == 0 {
        nonblank_trimmed(ls.drop_last())
    } else {
        nonblank_trimmed(ls.drop_last()).push(trim(ls.last()))
    }
}

/// The data lines of an output: all lines but the two headers, trimmed, blank
/// ones dropped.
pub open spec fn data_lines(output: Seq<char>) -> Seq<Seq<char>> {
    let ls = lines(output);
    if ls.len() <= 2 {
        seq![]
    } else {
        nonblank_trimmed(ls.subrange(2, ls.len() as int))
    }
}

/// The items of the rows that parse, in order.
pub open spec fn parsed_items(ls: Seq<Seq<char>>) -> Seq<ItemView>
    decreases ls.len(),
{
    if ls.len() == 0 {
        seq![]
    } else {
        match line_item(ls.last()) {
            Some(x) => parsed_items(ls.drop_last()).push(x),
            None => parsed_items(ls.drop_last()),
        }
    }
}

/// The changes of the diff rows that parse, in order.
pub open spec fn parsed_changes(ls: Seq<Seq<char>>) -> Seq<ChangeView>
    decreases ls.len(),
{
    if ls.len() == 0 {
        seq![]
    } else {
        match line_change(ls.last()) {
            Some(x) => parsed_changes(ls.drop_last()).push(x),
            None => parsed_changes(ls.drop_last()),
        }
    }
}

pub open spec fn item_views(v: Seq<AnalysisItem>) -> Seq<ItemView> {
    v.map_values(|x: AnalysisItem| x@)
}

pub open spec fn change_views(v: Seq<ChangeItem>) -> Seq<ChangeView> {
    v.map_values(|x: ChangeItem| x@)
}

/// The item of the row `v[lo..hi]`.
pub fn item_of_range(v: &Vec<char>, lo: usize, hi: usize) -> (r: Option<AnalysisItem>)
    requires
        lo <= hi <= v@.len(),
    ensures
        r matches Some(x) ==> line_item(v@.subrange(lo as int, hi as int)) == Some(x@),
        r is None ==> line_item(v@.subrange(lo as int, hi as int)) is None,
{
    let ghost line = v@.subrange(lo as int, hi as int);
    let parts = split_class_ranges(v, lo, hi, CharClass::AnyOf('|', '│', '┊'));
    let ghost ps = pieces(v@, parts@);
    assert(columns(line).len() == parts@.len());
    if parts.len() < 3 {
        return None;
    }
    let (a0, b0) = strip_bounds(v, parts[0].0, parts[0].1, CharClass::Whitespace);
    assert(ps[0] == v@.subrange(parts@[0].0 as int, parts@[0].1 as int));
    assert(columns(line)[0] == v@.subrange(a0 as int, b0 as int));
    let digits = chars_without(v, a0, b0, ',');
    assert(digits@.subrange(0, digits@.len() as int) == digits@);
    let size = parse_u64_range(&digits, 0, digits.len());
    let size_bytes = match size {
        Some(x) => x,
        None => {
            return None;
        },
    };
    let (a1, b1) = strip_bounds(v, parts[1].0, parts[1].1, CharClass::Whitespace);
    assert(ps[1] == v@.subrange(parts@[1].0 as int, parts@[1].1 as int));
    assert(columns(line)[1] == v@.subrange(a1 as int, b1 as int));
    let e1 = strip_end_bound(v, a1, b1, CharClass::Exactly('%'));
    if !float_syntax_range(v, a1, e1) {
        return None;
    }
    let (a2, b2) = strip_bounds(v, parts[2].0, parts[2].1, CharClass::Whitespace);
    assert(ps[2] == v@.subrange(parts@[2].0 as int, parts@[2].1 as int));
    assert(columns(line)[2] == v@.subrange(a2 as int, b2 as int));
    let item = AnalysisItem {
        size_bytes,
        percentage: string_of_range(v, a1, e1),
        name: string_of_range(v, a2, b2),
    };
    Some(item)
}

/// The change of the diff row `v[lo..hi]`.
pub fn change_of_range(v: &Vec<char>, lo: usize, hi: usize) -> (r: Option<ChangeItem>)
    requires
        lo <= hi <= v@.len(),
    ensures
        r matches Some(x) ==> line_change(v@.subrange(lo as int, hi as int)) == Some(x@),
        r is None ==> line_change(v@.subrange(lo as int, hi as int)) is None,
{
    let ghost line = v@.subrange(lo as int, hi as int);
    let k = find_char(v, '|', lo, hi);
    if k == hi {
        return None;
    }
    assert(line.take(k - lo) == v@.subrange(lo as int, k as int));
    assert(line.skip(k - lo + 1) == v@.subrange(k + 1, hi as int));
    let (a0, b0) = strip_bounds(v, lo, k, CharClass::Whitespace);
    let digits = chars_without(v, a0, b0, ',');
    assert(digits@.subrange(0, digits@.len() as int) == digits@);
    let delta = parse_i64_range(&digits, 0, digits.len());
    match delta {
        Some(d) => {
            let (a1, b1) = strip_bounds(v, k + 1, hi, CharClass::Whitespace);
            Some(ChangeItem { delta_bytes: d, name: string_of_range(v, a1, b1) })
        },
        None => None,
    }
}

/// The items of the rows of `v`, headers and blank lines skipped.
pub fn items_of_output(v: &Vec<char>) -> (r: Vec<AnalysisItem>)
    ensures
        item_views(r@) == parsed_items(data_lines(v@)),
{
    let ranges = line_ranges(v);
    let ghost ls = pieces(v@, ranges@);
    let mut items: Vec<AnalysisItem> = Vec::new();
    if ranges.len() <= 2 {
        assert(item_views(items@) == Seq::<ItemView>::empty());
        return items;
    }
    let mut i: usize = 2;
    assert(nonblank_trimmed(ls.subrange(2, 2)) == Seq::<Seq<char>>::empty()) by {
        assert(ls.subrange(2, 2) == Seq::<Seq<char>>::empty());
    }
    while i < ranges.len()
        invariant
            2 <= i <= ranges@.len(),
            ranges_ok(v@, ranges@),
            ls == pieces(v@, ranges@),
            ls == lines(v@),
            item_views(items@) == parsed_items(nonblank_trimmed(ls.subrange(2, i as int))),
        decreases ranges@.len() - i,
    {
        let ghost prev = ls.subrange(2, i as int);
        let ghost next = ls.subrange(2, i + 1);
        assert(next.drop_last() == prev);
        assert(next.last() == ls[i as int]);
        let (a, b) = strip_bounds(v, ranges[i].0, ranges[i].1, CharClass::Whitespace);
        assert(ls[i as int] == v@.subrange(ranges@[i as int].0 as int, ranges@[i as int].1 as int));
        proof {
            let t = trim(ls[i as int]);
            let nb = nonblank_trimmed(prev);
            assert(t == v@.subrange(a as int, b as int));
            if a < b {
                assert(nonblank_trimmed(next) == nb.push(t));
                assert(nb.push(t).drop_last() == nb);
                assert(nb.push(t).last() == t);
            } else {
                assert(nonblank_trimmed(next) == nb);
            }
        }
        if a < b {
            let ghost before = items@;
            match item_of_range(v, a, b) {
                Some(x) => {
                    items.push(x);
                    assert(item_views(items@) == item_views(before).push(x@));
                },
                None => {},
            }
        }
        i = i + 1;
    }
    assert(ls.subrange(2, i as int) == ls.subrange(2, ls.len() as int));
    items
}

/// The changes of the diff rows of `v`, headers and blank lines skipped.
pub fn changes_of_output(v: &Vec<char>) -> (r: Vec<ChangeItem>)
    ensures
        change_views(r@) == parsed_changes(data_lines(v@)),
{
    let ranges = line_ranges(v);
    let ghost ls = pieces(v@, ranges@);
    let mut changes: Vec<ChangeItem> = Vec::new();
    if ranges.len() <= 2 {
        assert(change_views(changes@) == Seq::<ChangeView>::empty());
        return changes;
    }
    let mut i: usize = 2;
    assert(nonblank_trimmed(ls.subrange(2, 2)) == Seq::<Seq<char>>::empty()) by {
        assert(ls.subrange(2, 2) == Seq::<Seq<char>>::empty());
    }
    while i < ranges.len()
        invariant
            2 <= i <= ranges@.len(),
            ranges_ok(v@, ranges@),
            ls == pieces(v@, ranges@),
            ls == lines(v@),
            change_views(changes@) == parsed_changes(nonblank_trimmed(ls.subrange(2, i as int))),
        decreases ranges@.len() - i,
    {
        let ghost prev = ls.subrange(2, i as int);
        let ghost next = ls.subrange(2, i + 1);
        assert(next.drop_last() == prev);
        assert(next.last() == ls[i as int]);
        let (a, b) = strip_bounds(v, ranges[i].0, ranges[i].1, CharClass::Whitespace);
        assert(ls[i as int] == v@.subrange(ranges@[i as int].0 as int, ranges@[i as int].1 as int));
        proof {
            let t = trim(ls[i as int]);
            let nb = nonblank_trimmed(prev);
            assert(t == v@.subrange(a as int, b as int));
            if a < b {
                assert(nonblank_trimmed(next) == nb.push(t));
                assert(nb.push(t).drop_last() == nb);
                assert(nb.push(t).last() == t);
            } else {
                assert(nonblank_trimmed(next) == nb);
            }
        }
        if a < b {
            let ghost before = changes@;
            match change_of_range(v, a, b) {
                Some(x) => {
                    changes.push(x);
                    assert(change_views(changes@) == change_views(before).push(x@));
                },
                None => {},
            }
        }
        i = i + 1;
    }
    assert(ls.subrange(2, i as int) == ls.subrange(2, ls.len() as int));
    changes
}


/// The size column as twiggy writes it: plain decimal, or grouped by thousands.
pub open spec fn size_text(size: u64, commas: bool) -> Seq<char> {
    if commas {
        group3(dec(size as nat))
    } else {
        dec(size as nat)
    }
}

/// A table row `size | percent% | name`.
pub open spec fn row_text(size: u64, pct: Seq<char>, name: Seq<char>, commas: bool) -> Seq<char> {
    size_text(size, commas) + seq![' ', '|', ' '] + pct + seq!['%', ' ', '|', ' '] + name
}

/// A diff row `delta | name`, the delta signed.
pub open spec fn diff_row_text(delta: i64, name: Seq<char>) -> Seq<char> {
    signed_dec(delta as int) + seq![' ', '|', ' '] + name
}

proof fn lemma_size_text(size: u64, commas: bool)
    ensures
        ({
            let d = size_text(size, commas);
            &&& d.len() > 0
            &&& !is_ws(d[0]) && !is_ws(d.last())
            &&& forall|i: int| 0 <= i < d.len() ==> (crate::text::is_digit(#[trigger] d[i]) || d[i] == ',')
            &&& parse_u64(without_char(d, ',')) == Some(size)
        }),
{
    let n = size as nat;
    lemma_dec_digits(n);
    lemma_parse_u64_dec(size);
    lemma_digits_no_comma(dec(n));
    if commas {
        lemma_group3_chars(dec(n));
        lemma_group3_commas(dec(n));
    } else {
        let d = dec(n);
        assert(crate::text::is_digit(d[0]) && crate::text::is_digit(d.last()));
        assert forall|i: int| 0 <= i < d.len() implies (crate::text::is_digit(#[trigger] d[i]) || d[i] == ',') by {
            assert(all_digits(d));
        }
    }
}

/// A row that twiggy writes, `size | percent% | name`, parses back to its size,
/// percent text and name, whether the size is written with thousands commas
/// or without.
pub proof fn lemma_row_roundtrip(size: u64, pct: Seq<char>, name: Seq<char>, commas: bool)
    requires
        float_syntax(pct),
        name.len() > 0,
        !is_ws(name[0]),
        !is_ws(name.last()),
        forall|i: int| 0 <= i < name.len() ==> !in_class(column_bars(), #[trigger] name[i]),
    ensures
        line_item(row_text(size, pct, name, commas)) == Some(
            ItemView { size_bytes: size, percentage: pct, name },
        ),
{
    let d = size_text(size, commas);
    lemma_size_text(size, commas);
    lemma_float_chars(pct);
    assert forall|i: int| 0 <= i < pct.len() implies !is_ws(#[trigger] pct[i]) && pct[i] != '%'
        && !in_class(column_bars(), pct[i]) by {
        lemma_float_char_plain(pct[i]);
    }
    let k = column_bars();
    let a = d + seq![' '];
    let b = seq![' '] + pct + seq!['%', ' '];
    let c = seq![' '] + name;
    let line = row_text(size, pct, name, commas);
    assert(line == a + seq!['|'] + (b + seq!['|'] + c));
    assert forall|i: int| 0 <= i < a.len() implies !in_class(k, #[trigger] a[i]) by {
        if i < d.len() {
            assert(a[i] == d[i]);
        }
    }
    assert forall|i: int| 0 <= i < b.len() implies !in_class(k, #[trigger] b[i]) by {
        if 0 < i && i < pct.len() + 1 {
            assert(b[i] == pct[i - 1]);
        }
    }
    assert forall|i: int| 0 <= i < c.len() implies !in_class(k, #[trigger] c[i]) by {
        if i > 0 {
            assert(c[i] == name[i - 1]);
        }
    }
    lemma_split_class_cons(a, '|', b + seq!['|'] + c, k);
    lemma_split_class_cons(b, '|', c, k);
    lemma_split_class_none(c, k);
    let parts = split_class(line, k);
    assert(parts == seq![a, b, c]);
    let cols = columns(line);
    let e: Seq<char> = Seq::empty();
    lemma_trim_padded(e, d, seq![' ']);
    assert(e + d + seq![' '] == a);
    let p = pct + seq!['%'];
    assert(p[0] == pct[0]);
    lemma_trim_padded(seq![' '], p, seq![' ']);
    assert(seq![' '] + p + seq![' '] == b);
    lemma_trim_padded(seq![' '], name, e);
    assert(seq![' '] + name + e == c);
    assert(cols == seq![d, p, name]);
    crate::text::lemma_strip_end_one(pct, '%');
}

/// A diff row that twiggy writes, `delta | name`, parses back to its delta
/// and name.
pub proof fn lemma_diff_row_roundtrip(delta: i64, name: Seq<char>)
    requires
        name.len() > 0,
        !is_ws(name[0]),
        !is_ws(name.last()),
    ensures
        line_change(diff_row_text(delta, name)) == Some(ChangeView { delta_bytes: delta, name }),
{
    let d = signed_dec(delta as int);
    let line = diff_row_text(delta, name);
    lemma_parse_i64_signed_dec(delta);
    let m: nat = if delta < 0 { (-(delta as int)) as nat } else { delta as nat };
    lemma_dec_digits(m);
    assert forall|i: int| 0 <= i < d.len() implies (#[trigger] d[i] == '-' || crate::text::is_digit(d[i])) by {
        if delta < 0 && i > 0 {
            assert(d[i] == dec(m)[i - 1]);
        }
    }
    assert(d.len() > 0);
    assert forall|i: int| 0 <= i < d.len() implies #[trigger] d[i] != '|' && d[i] != ',' by {
        assert(d[i] == '-' || crate::text::is_digit(d[i]));
    }
    assert(line[d.len() as int] == ' ');
    assert(line[d.len() as int + 1] == '|');
    assert forall|j: int| 0 <= j < d.len() + 1 implies #[trigger] line[j] != '|' by {
        if j < d.len() {
            assert(line[j] == d[j]);
        }
    }
    lemma_index_of(line, '|', d.len() as int + 1);
    let e: Seq<char> = Seq::empty();
    assert(line.take(d.len() as int + 1) == e + d + seq![' ']);
    if delta < 0 {
        assert(d.last() == dec(m).last());
    }
    lemma_trim_padded(e, d, seq![' ']);
    lemma_without_absent(d, ',');
    assert(line.skip(d.len() as int + 2) == seq![' '] + name + e);
    lemma_trim_padded(seq![' '], name, e);
}


/// A header line: not empty, no newline, no carriage return at its end.
pub open spec fn header_ok(h: Seq<char>) -> bool {
    h.len() > 0 && h.last() != '\r' && !h.contains('\n')
}

/// A row of a table: a float literal for the percent, and a name that is not
/// empty, not padded with white space, and holds no column bar or newline.
pub open spec fn row_ok(r: (u64, Seq<char>, Seq<char>)) -> bool {
    &&& float_syntax(r.1)
    &&& r.2.len() > 0
    &&& !is_ws(r.2[0])
    &&& !is_ws(r.2.last())
    &&& forall|i: int| 0 <= i < r.2.len() ==> !in_class(column_bars(), #[trigger] r.2[i]) && r.2[i] != '\n'
}

/// The texts of rows given as (size, percent text, name).
pub open spec fn row_texts(rows: Seq<(u64, Seq<char>, Seq<char>)>, commas: bool) -> Seq<Seq<char>> {
    rows.map_values(|r: (u64, Seq<char>, Seq<char>)| row_text(r.0, r.1, r.2, commas))
}

/// The items of rows given as (size, percent text, name).
pub open spec fn row_items(rows: Seq<(u64, Seq<char>, Seq<char>)>) -> Seq<ItemView> {
    rows.map_values(|r: (u64, Seq<char>, Seq<char>)| ItemView { size_bytes: r.0, percentage: r.1, name: r.2 })
}

proof fn lemma_row_text_line(r: (u64, Seq<char>, Seq<char>), commas: bool)
    requires
        row_ok(r),
    ensures
        ({
            let t = row_text(r.0, r.1, r.2, commas);
            &&& t.len() > 0
            &&& t.last() != '\r'
            &&& !t.contains('\n')
            &&& trim(t) == t
        }),
{
    let (size, pct, name) = r;
    let d = size_text(size, commas);
    lemma_size_text(size, commas);
    lemma_float_chars(pct);
    let t = row_text(size, pct, name, commas);
    let mid = seq![' ', '|', ' '] + pct + seq!['%', ' ', '|', ' '];
    assert(t == d + mid + name);
    assert forall|j: int| 0 <= j < t.len() implies #[trigger] t[j] != '\n' by {
        if j < d.len() {
            assert(t[j] == d[j]);
        } else if j < d.len() + mid.len() {
            assert(t[j] == mid[j - d.len()]);
            if j - d.len() >= 3 && j - d.len() < 3 + pct.len() {
                assert(mid[j - d.len()] == pct[j - d.len() - 3]);
                lemma_float_char_plain(pct[j - d.len() - 3]);
            }
        } else {
            assert(t[j] == name[j - d.len() - mid.len()]);
        }
    }
    assert(t[0] == d[0]);
    assert(t.last() == name.last());
    let e: Seq<char> = Seq::empty();
    assert(e + t + e == t);
    lemma_trim_padded(e, t, e);
}

proof fn lemma_nonblank_trimmed_same(ls: Seq<Seq<char>>)
    requires
        forall|i: int| 0 <= i < ls.len() ==> (#[trigger] ls[i]).len() > 0 && trim(ls[i]) == ls[i],
    ensures
        nonblank_trimmed(ls) == ls,
    decreases ls.len(),
{
    if ls.len() > 0 {
        let t = ls.drop_last();
        assert forall|i: int| 0 <= i < t.len() implies (#[trigger] t[i]).len() > 0 && trim(t[i]) == t[i] by {
            assert(t[i] == ls[i]);
        }
        lemma_nonblank_trimmed_same(t);
        assert(ls.last() == ls[ls.len() - 1]);
        assert(t.push(ls.last()) == ls);
    }
}

proof fn lemma_parsed_rows(rows: Seq<(u64, Seq<char>, Seq<char>)>, commas: bool)
    requires
        forall|i: int| 0 <= i < rows.len() ==> row_ok(#[trigger] rows[i]),
    ensures
        parsed_items(row_texts(rows, commas)) == row_items(rows),
    decreases rows.len(),
{
    if rows.len() > 0 {
        let t = rows.drop_last();
        assert forall|i: int| 0 <= i < t.len() implies row_ok(#[trigger] t[i]) by {
            assert(t[i] == rows[i]);
        }
        lemma_parsed_rows(t, commas);
        let r = rows.last();
        assert(row_ok(rows[rows.len() - 1]));
        lemma_row_roundtrip(r.0, r.1, r.2, commas);
        assert(row_texts(rows, commas).drop_last() == row_texts(t, commas));
        assert(row_texts(rows, commas).last() == row_text(r.0, r.1, r.2, commas));
        assert(row_items(rows) == row_items(t).push(
            ItemView { size_bytes: r.0, percentage: r.1, name: r.2 },
        ));
    }
}

/// Twiggy output of two header lines and then rows, one per line, parses to
/// the rows' items, one for each row, in order.
pub proof fn lemma_table_roundtrip(
    h1: Seq<char>,
    h2: Seq<char>,
    rows: Seq<(u64, Seq<char>, Seq<char>)>,
    commas: bool,
)
    requires
        header_ok(h1),
        header_ok(h2),
        forall|i: int| 0 <= i < rows.len() ==> row_ok(#[trigger] rows[i]),
    ensures
        parsed_items(data_lines(joined(seq![h1, h2] + row_texts(rows, commas), seq!['\n'])))
            == row_items(rows),
{
    let texts = row_texts(rows, commas);
    let ls = seq![h1, h2] + texts;
    assert forall|i: int| 0 <= i < texts.len() implies (#[trigger] texts[i]).len() > 0
        && texts[i].last() != '\r' && !texts[i].contains('\n') && trim(texts[i]) == texts[i] by {
        lemma_row_text_line(rows[i], commas);
    }
    assert forall|i: int| 0 <= i < ls.len() implies (#[trigger] ls[i]).len() > 0 && ls[i].last()
        != '\r' && !ls[i].contains('\n') by {
        if i >= 2 {
            assert(ls[i] == texts[i - 2]);
        }
    }
    lemma_lines_joined(ls);
    if rows.len() == 0 {
        assert(ls.len() == 2);
    } else {
        assert(ls.subrange(2, ls.len() as int) == texts);
        lemma_nonblank_trimmed_same(texts);
    }
    lemma_parsed_rows(rows, commas);
}

} // verus!
