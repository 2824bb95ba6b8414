//! Character-level text primitives with specifications over `Seq<char>`.
//!
//! Every report and parser of the crate is written on top of these: they turn
//! a `&str` into its characters, build `String`s back, trim, search and split.
use vstd::prelude::*;
use vstd::string::*;

verus! {

broadcast use vstd::string::group_string_axioms;

/// `String::push`: appends one character (std documents that the character is
/// added at the end; the contract claims exactly that).
#[verifier::external_body]
pub(crate) fn push_char(s: &mut String, c: char)
    ensures
        final(s)@ == old(s)@.push(c),
{
    s.push(c);
}

/// The characters of a string slice, in order.
pub fn chars_of(s: &str) -> (v: Vec<char>)
    ensures
        v@ == s@,
{
    let mut v: Vec<char> = Vec::new();
    for c in it: s.chars()
        invariant
            v@ == it.seq().take(it.index() as int),
    {
        v.push(c);
    }
    v
}

/// Appends all characters of `v` to `s`.
pub fn push_chars(s: &mut String, v: &[char])
    ensures
        final(s)@ == old(s)@ + v@,
{
    let mut i: usize = 0;
    while i < v.len()
        invariant
            i <= v@.len(),
            s@ == old(s)@ + v@.take(i as int),
        decreases v@.len() - i,
    {
        push_char(s, v[i]);
        i = i + 1;
        assert(v@.take(i as int) == v@.take((i - 1) as int).push(v@[i - 1]));
    }
    assert(v@.take(v@.len() as int) == v@);
}

/// A `String` holding exactly the given characters.
pub fn string_of(v: &[char]) -> (r: String)
    ensures
        r@ == v@,
{
    let mut s = String::new();
    push_chars(&mut s, v);
    s
}

/// A `String` holding the characters of `v[lo..hi]`.
pub fn string_of_range(v: &Vec<char>, lo: usize, hi: usize) -> (r: String)
    requires
        lo <= hi <= v@.len(),
    ensures
        r@ == v@.subrange(lo as int, hi as int),
{
    let mut s = String::new();
    let mut i: usize = lo;
    while i < hi
        invariant
            lo <= i <= hi <= v@.len(),
            s@ == v@.subrange(lo as int, i as int),
        decreases hi - i,
    {
        push_char(&mut s, v[i]);
        i = i + 1;
        assert(v@.subrange(lo as int, i as int) == v@.subrange(lo as int, (i - 1) as int).push(
            v@[i - 1],
        ));
    }
    s
}

/// Appends a string slice to `s`.
pub fn push_str(s: &mut String, t: &str)
    ensures
        final(s)@ == old(s)@ + t@,
{
    s.append(t);
}

/// A fresh `String` copied from a string slice.
pub fn to_string(t: &str) -> (r: String)
    ensures
        r@ == t@,
{
    String::from_str(t)
}

/// Unicode `White_Space`: what `char::is_whitespace` and the regex class `\s` accept.
pub open spec fn is_ws(c: char) -> bool {
    ||| ('\u{9}' <= c && c <= '\u{d}')
    ||| c == ' '
    ||| c == '\u{85}'
    ||| c == '\u{a0}'
    ||| c == '\u{1680}'
    ||| ('\u{2000}' <= c && c <= '\u{200a}')
    ||| c == '\u{2028}'
    ||| c == '\u{2029}'
    ||| c == '\u{202f}'
    ||| c == '\u{205f}'
    ||| c == '\u{3000}'
}

/// Executable `is_ws`.
pub fn is_whitespace(c: char) -> (b: bool)
    ensures
        b == is_ws(c),
{
    ('\u{9}' <= c && c <= '\u{d}') || c == ' ' || c == '\u{85}' || c == '\u{a0}' || c
        == '\u{1680}' || ('\u{2000}' <= c && c <= '\u{200a}') || c == '\u{2028}' || c
        == '\u{2029}' || c == '\u{202f}' || c == '\u{205f}' || c == '\u{3000}'
}

/// Which characters a strip removes: white space, or one given character.
#[derive(Clone, Copy)]
pub enum CharClass {
    Whitespace,
    Exactly(char),
    AnyOf(char, char, char),
}

pub open spec fn in_class(k: CharClass, c: char) -> bool {
    match k {
        CharClass::Whitespace => is_ws(c),
        CharClass::Exactly(d) => c == d,
        CharClass::AnyOf(a, b, d) => c == a || c == b || c == d,
    }
}

pub fn class_has(k: CharClass, c: char) -> (b: bool)
    ensures
        b == in_class(k, c),
{
    match k {
        CharClass::Whitespace => is_whitespace(c),
        CharClass::Exactly(d) => c == d,
        CharClass::AnyOf(a, b, d) => c == a || c == b || c == d,
    }
}

/// `s` without its leading characters of class `k` (`str::trim_start_matches`).
pub open spec fn strip_start(s: Seq<char>, k: CharClass) -> Seq<char>
    decreases s.len(),
{
    if s.len() > 0 && in_class(k, s[0]) {
        strip_start(s.drop_first(), k)
    } else {
        s
    }
}

/// `s` without its trailing characters of class `k` (`str::trim_end_matches`).
pub open spec fn strip_end(s: Seq<char>, k: CharClass) -> Seq<char>
    decreases s.len(),
{
    if s.len() > 0 && in_class(k, s.last()) {
        strip_end(s.drop_last(), k)
    } else {
        s
    }
}

/// Both ends stripped (`str::trim_matches`; with white space, `str::trim`).
pub open spec fn strip(s: Seq<char>, k: CharClass) -> Seq<char> {
    strip_end(strip_start(s, k), k)
}

pub open spec fn trim(s: Seq<char>) -> Seq<char> {
    strip(s, CharClass::Whitespace)
}

proof fn lemma_strip_start(s: Seq<char>, k: CharClass, i: int)
    requires
        0 <= i <= s.len(),
        forall|j: int| 0 <= j < i ==> in_class(k, #[trigger] s[j]),
        i == s.len() || !in_class(k, s[i]),
    ensures
        strip_start(s, k) == s.skip(i),
    decreases i,
{
    if i == 0 {
        assert(s.skip(0) == s);
    } else {
        assert(in_class(k, s[0]));
        let t = s.drop_first();
        assert forall|j: int| 0 <= j < i - 1 implies in_class(k, #[trigger] t[j]) by {
            assert(t[j] == s[j + 1]);
        }
        if i < s.len() {
            assert(t[i - 1] == s[i]);
        }
        lemma_strip_start(t, k, i - 1);
        assert(t.skip(i - 1) == s.skip(i));
    }
}

proof fn lemma_strip_end(s: Seq<char>, k: CharClass, i: int)
    requires
        0 <= i <= s.len(),
        forall|j: int| i <= j < s.len() ==> in_class(k, #[trigger] s[j]),
        i == 0 || !in_class(k, s[i - 1]),
    ensures
        strip_end(s, k) == s.take(i),
    decreases s.len() - i,
{
    if i == s.len() {
        assert(s.take(i) == s);
    } else {
        assert(in_class(k, s[s.len() - 1]));
        let t = s.drop_last();
        assert forall|j: int| i <= j < t.len() implies in_class(k, #[trigger] t[j]) by {
            assert(t[j] == s[j]);
        }
        if i > 0 {
            assert(t[i - 1] == s[i - 1]);
        }
        lemma_strip_end(t, k, i);
        assert(t.take(i) == s.take(i));
    }
}

/// Bounds `(a, b)` such that `v[a..b]` is `v[lo..hi]` stripped of class `k` at both ends.
pub fn strip_bounds(v: &Vec<char>, lo: usize, hi: usize, k: CharClass) -> (r: (usize, usize))
    requires
        lo <= hi <= v@.len(),
    ensures
        lo <= r.0 <= r.1 <= hi,
        v@.subrange(r.0 as int, r.1 as int) == strip(v@.subrange(lo as int, hi as int), k),
{
    let ghost s = v@.subrange(lo as int, hi as int);
    let mut a: usize = lo;
    while a < hi && class_has(k, v[a])
        invariant
            lo <= a <= hi <= v@.len(),
            s == v@.subrange(lo as int, hi as int),
            forall|j: int| lo <= j < a ==> in_class(k, #[trigger] v@[j]),
        decreases hi - a,
    {
        a = a + 1;
    }
    proof {
        assert forall|j: int| 0 <= j < a - lo implies in_class(k, #[trigger] s[j]) by {
            assert(s[j] == v@[lo + j]);
        }
        if a < hi {
            assert(s[a - lo] == v@[a as int]);
        }
        lemma_strip_start(s, k, a - lo);
        assert(s.skip(a - lo) == v@.subrange(a as int, hi as int));
    }
    let ghost t = v@.subrange(a as int, hi as int);
    let mut b: usize = hi;
    while b > a && class_has(k, v[b - 1])
        invariant
            lo <= a <= b <= hi <= v@.len(),
            t == v@.subrange(a as int, hi as int),
            forall|j: int| b <= j < hi ==> in_class(k, #[trigger] v@[j]),
        decreases b - a,
    {
        b = b - 1;
    }
    proof {
        assert forall|j: int| b - a <= j < t.len() implies in_class(k, #[trigger] t[j]) by {
            assert(t[j] == v@[a + j]);
        }
        if b > a {
            assert(t[b - a - 1] == v@[b - 1]);
        }
        lemma_strip_end(t, k, b - a);
        assert(t.take(b - a) == v@.subrange(a as int, b as int));
    }
    (a, b)
}

/// End `e` such that `v[lo..e]` is `v[lo..hi]` stripped of class `k` at its end.
pub fn strip_end_bound(v: &Vec<char>, lo: usize, hi: usize, k: CharClass) -> (e: usize)
    requires
        lo <= hi <= v@.len(),
    ensures
        lo <= e <= hi,
        v@.subrange(lo as int, e as int) == strip_end(v@.subrange(lo as int, hi as int), k),
{
    let ghost t = v@.subrange(lo as int, hi as int);
    let mut b: usize = hi;
    while b > lo && class_has(k, v[b - 1])
        invariant
            lo <= b <= hi <= v@.len(),
            t == v@.subrange(lo as int, hi as int),
            forall|j: int| b <= j < hi ==> in_class(k, #[trigger] v@[j]),
        decreases b - lo,
    {
        b = b - 1;
    }
    proof {
        assert forall|j: int| b - lo <= j < t.len() implies in_class(k, #[trigger] t[j]) by {
            assert(t[j] == v@[lo + j]);
        }
        if b > lo {
            assert(t[b - lo - 1] == v@[b - 1]);
        }
        lemma_strip_end(t, k, b - lo);
        assert(t.take(b - lo) == v@.subrange(lo as int, b as int));
    }
    b
}

/// `p` occurs in `s` starting at index `i`.
pub open spec fn occurs_at(s: Seq<char>, p: Seq<char>, i: int) -> bool {
    0 <= i && i + p.len() <= s.len() && s.subrange(i, i + p.len()) == p
}

/// `str::contains` with a string pattern.
pub open spec fn contains(s: Seq<char>, p: Seq<char>) -> bool {
    exists|i: int| occurs_at(s, p, i)
}

/// `str::starts_with`.
pub open spec fn starts_with(s: Seq<char>, p: Seq<char>) -> bool {
    occurs_at(s, p, 0)
}

/// `str::ends_with`.
pub open spec fn ends_with(s: Seq<char>, p: Seq<char>) -> bool {
    p.len() <= s.len() && occurs_at(s, p, s.len() - p.len())
}

/// Whether `p` occurs in `v` at index `i`.
pub fn match_at(v: &Vec<char>, i: usize, p: &Vec<char>) -> (b: bool)
    ensures
        b == occurs_at(v@, p@, i as int),
{
    if i > v.len() || p.len() > v.len() - i {
        return false;
    }
    let vlen = v.len();
    let mut j: usize = 0;
    while j < p.len()
        invariant
            vlen == v@.len(),
            i + p@.len() <= v@.len(),
            j <= p@.len(),
            forall|k: int| 0 <= k < j ==> v@[i + k] == p@[k],
        decreases p@.len() - j,
    {
        assert(i + j < v@.len());
        if v[i + j] != p[j] {
            assert(v@.subrange(i as int, i + p@.len())[j as int] != p@[j as int]);
            return false;
        }
        j = j + 1;
    }
    assert(v@.subrange(i as int, i + p@.len()) == p@);
    true
}

/// First occurrence of `p` in `v` at or after `from`.
pub fn find_from(v: &Vec<char>, p: &Vec<char>, from: usize) -> (r: Option<usize>)
    ensures
        r matches Some(i) ==> from <= i && occurs_at(v@, p@, i as int) && forall|j: int|
            from <= j < i ==> !occurs_at(v@, p@, j),
        r is None ==> forall|j: int| from <= j ==> !occurs_at(v@, p@, j),
{
    let mut i: usize = from;
    while i < v.len()
        invariant
            from <= i || i == from,
            forall|j: int| from <= j < i ==> !occurs_at(v@, p@, j),
        decreases v@.len() - i,
    {
        if match_at(v, i, p) {
            return Some(i);
        }
        i = i + 1;
    }
    if match_at(v, i, p) {
        return Some(i);
    }
    assert forall|j: int| from <= j implies !occurs_at(v@, p@, j) by {
        if j > i {
            assert(j + p@.len() > v@.len() || !occurs_at(v@, p@, j));
        }
    }
    None
}

/// Whether `p` occurs anywhere in `v`.
pub fn vec_contains(v: &Vec<char>, p: &Vec<char>) -> (b: bool)
    ensures
        b == contains(v@, p@),
{
    match find_from(v, p, 0) {
        Some(i) => true,
        None => false,
    }
}

/// Whether the string slice `p` occurs in `v`.
pub fn contains_str(v: &Vec<char>, p: &str) -> (b: bool)
    ensures
        b == contains(v@, p@),
{
    let pv = chars_of(p);
    vec_contains(v, &pv)
}

/// Whether `v` begins with the string slice `p`.
pub fn starts_with_str(v: &Vec<char>, p: &str) -> (b: bool)
    ensures
        b == starts_with(v@, p@),
{
    let pv = chars_of(p);
    match_at(v, 0, &pv)
}

/// Whether `v` ends with the string slice `p`.
pub fn ends_with_str(v: &Vec<char>, p: &str) -> (b: bool)
    ensures
        b == ends_with(v@, p@),
{
    let pv = chars_of(p);
    if pv.len() > v.len() {
        false
    } else {
        match_at(v, v.len() - pv.len(), &pv)
    }
}

/// Whether two character sequences are equal.
pub fn chars_eq(a: &Vec<char>, b: &Vec<char>) -> (r: bool)
    ensures
        r == (a@ == b@),
{
    if a.len() != b.len() {
        return false;
    }
    let r = match_at(a, 0, b);
    assert(a@.subrange(0, b@.len() as int) == a@);
    r
}

/// Whether `v` is exactly the string slice `p`.
pub fn is_str(v: &Vec<char>, p: &str) -> (r: bool)
    ensures
        r == (v@ == p@),
{
    let pv = chars_of(p);
    chars_eq(v, &pv)
}

/// Whether the string slice `s` is exactly `p`.
pub fn str_is(s: &str, p: &str) -> (r: bool)
    ensures
        r == (s@ == p@),
{
    let v = chars_of(s);
    is_str(&v, p)
}

/// The decimal digit character for `d < 10`.
pub open spec fn digit(d: int) -> char {
    ((d + 48) as u8) as char
}

pub fn digit_char(d: u64) -> (c: char)
    requires
        d < 10,
    ensures
        c == digit(d as int),
{
    ((d as u8) + 48u8) as char
}

/// The decimal notation of `n`, without sign or leading zeros (`"0"` for zero).
pub open spec fn dec(n: nat) -> Seq<char>
    decreases n,
{
    if n < 10 {
        seq![digit(n as int)]
    } else {
        dec(n / 10).push(digit((n % 10) as int))
    }
}

/// Appends the decimal notation of `n`.
pub fn push_dec(s: &mut String, n: u64)
    ensures
        final(s)@ == old(s)@ + dec(n as nat),
    decreases n,
{
    if n >= 10 {
        push_dec(s, n / 10);
    }
    push_char(s, digit_char(n % 10));
    proof {
        if n >= 10 {
            assert(dec(n as nat) == dec((n / 10) as nat).push(digit((n % 10) as int)));
        }
    }
}

/// Appends the decimal notation of a wide `n`.
pub fn push_dec_wide(s: &mut String, n: u128)
    ensures
        final(s)@ == old(s)@ + dec(n as nat),
    decreases n,
{
    if n >= 10 {
        push_dec_wide(s, n / 10);
    }
    push_char(s, digit_char((n % 10) as u64));
    proof {
        if n >= 10 {
            assert(dec(n as nat) == dec((n / 10) as nat).push(digit((n % 10) as int)));
        }
    }
}

/// The decimal notation of a signed `x`, with `-` before negative numbers.
pub open spec fn signed_dec(x: int) -> Seq<char> {
    if x < 0 {
        seq!['-'] + dec((-x) as nat)
    } else {
        dec(x as nat)
    }
}

/// Appends the decimal notation of `x`.
pub fn push_signed(s: &mut String, x: i64)
    ensures
        final(s)@ == old(s)@ + signed_dec(x as int),
{
    if x < 0 {
        push_char(s, '-');
        let m: u64 = if x == i64::MIN {
            0x8000_0000_0000_0000u64
        } else {
            (-x) as u64
        };
        push_dec(s, m);
    } else {
        push_dec(s, x as u64);
    }
}

/// The values of a sequence of `String`s.
pub open spec fn string_views(v: Seq<String>) -> Seq<Seq<char>> {
    v.map_values(|s: String| s@)
}

/// `parts` joined with `sep` between consecutive parts (`[..].join(sep)`).
pub open spec fn joined(parts: Seq<Seq<char>>, sep: Seq<char>) -> Seq<char>
    decreases parts.len(),
{
    if parts.len() == 0 {
        seq![]
    } else if parts.len() == 1 {
        parts[0]
    } else {
        joined(parts.drop_last(), sep) + sep + parts.last()
    }
}

/// `s` with its repeated elements dropped, the first of each kept in place.
pub open spec fn distinct_in_order(s: Seq<Seq<char>>) -> Seq<Seq<char>>
    decreases s.len(),
{
    if s.len() == 0 {
        s
    } else if distinct_in_order(s.drop_last()).contains(s.last()) {
        distinct_in_order(s.drop_last())
    } else {
        distinct_in_order(s.drop_last()).push(s.last())
    }
}

/// Whether `v` holds a string equal to `x`.
pub fn strings_contain(v: &Vec<String>, x: &String) -> (b: bool)
    ensures
        b == string_views(v@).contains(x@),
{
    let mut i: usize = 0;
    while i < v.len()
        invariant
            i <= v@.len(),
            forall|j: int| 0 <= j < i ==> (#[trigger] v@[j])@ != x@,
        decreases v@.len() - i,
    {
        if v[i] == *x {
            assert(string_views(v@)[i as int] == x@);
            return true;
        }
        i = i + 1;
    }
    proof {
        if string_views(v@).contains(x@) {
            let j = choose|j: int| 0 <= j < string_views(v@).len() && string_views(v@)[j] == x@;
            assert(v@[j]@ == x@);
        }
    }
    false
}

/// `n.to_string()`.
pub fn dec_string(n: u64) -> (r: String)
    ensures
        r@ == dec(n as nat),
{
    let mut s = String::new();
    push_dec(&mut s, n);
    s
}

/// `n` zeros.
pub open spec fn zeros(n: nat) -> Seq<char> {
    Seq::new(n, |i: int| '0')
}

/// `d` left-padded with zeros to at least `width` characters (`{:0width$}`).
pub open spec fn zero_pad(d: Seq<char>, width: nat) -> Seq<char> {
    if d.len() < width {
        zeros((width - d.len()) as nat) + d
    } else {
        d
    }
}

/// Decimal digits `d` grouped by threes from the right with commas.
pub open spec fn group3(d: Seq<char>) -> Seq<char>
    decreases d.len(),
{
    if d.len() <= 3 {
        d
    } else {
        group3(d.take(d.len() - 3)) + seq![','] + d.skip(d.len() - 3)
    }
}

pub open spec fn is_digit(c: char) -> bool {
    '0' <= c && c <= '9'
}

pub open spec fn digit_val(c: char) -> int {
    (c as int) - 48
}

pub open spec fn all_digits(s: Seq<char>) -> bool {
    forall|i: int| 0 <= i < s.len() ==> is_digit(#[trigger] s[i])
}

/// The number that a string of decimal digits denotes.
pub open spec fn digits_value(s: Seq<char>) -> nat
    decreases s.len(),
{
    if s.len() == 0 {
        0
    } else {
        (digits_value(s.drop_last()) * 10 + digit_val(s.last())) as nat
    }
}

/// `s` without one leading `c`, if it starts with `c`.
pub open spec fn drop_sign(s: Seq<char>, c: char) -> Seq<char> {
    if s.len() > 0 && s[0] == c {
        s.drop_first()
    } else {
        s
    }
}

/// `u64::from_str`: an optional `+`, then one or more digits, in range.
pub open spec fn parse_u64(s: Seq<char>) -> Option<u64> {
    let body = drop_sign(s, '+');
    if body.len() > 0 && all_digits(body) && digits_value(body) <= u64::MAX {
        Some(digits_value(body) as u64)
    } else {
        None
    }
}

/// `i64::from_str`: an optional `+` or `-`, then one or more digits, in range.
pub open spec fn parse_i64(s: Seq<char>) -> Option<i64> {
    if s.len() > 0 && s[0] == '-' {
        let body = s.drop_first();
        if body.len() > 0 && all_digits(body) && digits_value(body) <= 0x8000_0000_0000_0000 {
            Some((0 - digits_value(body)) as i64)
        } else {
            None
        }
    } else {
        let body = drop_sign(s, '+');
        if body.len() > 0 && all_digits(body) && digits_value(body) <= i64::MAX {
            Some(digits_value(body) as i64)
        } else {
            None
        }
    }
}

proof fn lemma_digits_value_prefix(s: Seq<char>, i: int)
    requires
        0 <= i <= s.len(),
        all_digits(s),
    ensures
        digits_value(s.take(i)) <= digits_value(s),
    decreases s.len(),
{
    if i < s.len() {
        let t = s.drop_last();
        assert(all_digits(t)) by {
            assert forall|k: int| 0 <= k < t.len() implies is_digit(#[trigger] t[k]) by {
                assert(t[k] == s[k]);
            }
        }
        assert(t.take(i) == s.take(i));
        lemma_digits_value_prefix(t, i);
        assert(is_digit(s[s.len() - 1]));
    } else {
        assert(s.take(i) == s);
    }
}

/// The value of the digits `v[lo..hi]` when they are one or more digits and at most `limit`.
pub fn parse_digits(v: &Vec<char>, lo: usize, hi: usize, limit: u64) -> (r: Option<u64>)
    requires
        lo <= hi <= v@.len(),
    ensures
        ({
            let d = v@.subrange(lo as int, hi as int);
            &&& r matches Some(x) ==> d.len() > 0 && all_digits(d) && digits_value(d) <= limit
                && x == digits_value(d)
            &&& r is None ==> !(d.len() > 0 && all_digits(d) && digits_value(d) <= limit)
        }),
{
    let ghost d = v@.subrange(lo as int, hi as int);
    if lo == hi {
        return None;
    }
    let mut acc: u64 = 0;
    let mut i: usize = lo;
    while i < hi
        invariant
            lo <= i <= hi <= v@.len(),
            d == v@.subrange(lo as int, hi as int),
            all_digits(v@.subrange(lo as int, i as int)),
            acc == digits_value(v@.subrange(lo as int, i as int)),
            acc <= limit,
        decreases hi - i,
    {
        let c = v[i];
        if !('0' <= c && c <= '9') {
            proof {
                assert(d[i - lo] == c);
                assert(!is_digit(d[i - lo]));
            }
            return None;
        }
        let dv: u64 = ((c as u32) - 48) as u64;
        let next: u128 = (acc as u128) * 10 + (dv as u128);
        proof {
            let p = v@.subrange(lo as int, i + 1);
            assert(p.drop_last() == v@.subrange(lo as int, i as int));
            assert(p.last() == c);
            assert forall|k: int| 0 <= k < p.len() implies is_digit(#[trigger] p[k]) by {
                if k < p.len() - 1 {
                    assert(p[k] == v@.subrange(lo as int, i as int)[k]);
                }
            }
        }
        if next > limit as u128 {
            proof {
                let p = v@.subrange(lo as int, i + 1);
                if all_digits(d) {
                    assert(d.take(i + 1 - lo) == p);
                    lemma_digits_value_prefix(d, i + 1 - lo);
                }
            }
            return None;
        }
        acc = next as u64;
        i = i + 1;
    }
    assert(v@.subrange(lo as int, i as int) == d);
    Some(acc)
}

/// `u64::from_str` on `v[lo..hi]`.
pub fn parse_u64_range(v: &Vec<char>, lo: usize, hi: usize) -> (r: Option<u64>)
    requires
        lo <= hi <= v@.len(),
    ensures
        r == parse_u64(v@.subrange(lo as int, hi as int)),
{
    let ghost s = v@.subrange(lo as int, hi as int);
    if lo < hi && v[lo] == '+' {
        assert(s.drop_first() == v@.subrange(lo + 1, hi as int));
        parse_digits(v, lo + 1, hi, u64::MAX)
    } else {
        parse_digits(v, lo, hi, u64::MAX)
    }
}

/// `u64::from_str`.
pub fn parse_u64_str(t: &str) -> (r: Option<u64>)
    ensures
        r == parse_u64(t@),
{
    let v = chars_of(t);
    assert(v@.subrange(0, v@.len() as int) == v@);
    parse_u64_range(&v, 0, v.len())
}

/// `i64::from_str` on `v[lo..hi]`.
pub fn parse_i64_range(v: &Vec<char>, lo: usize, hi: usize) -> (r: Option<i64>)
    requires
        lo <= hi <= v@.len(),
    ensures
        r == parse_i64(v@.subrange(lo as int, hi as int)),
{
    let ghost s = v@.subrange(lo as int, hi as int);
    if lo < hi && v[lo] == '-' {
        assert(s.drop_first() == v@.subrange(lo + 1, hi as int));
        match parse_digits(v, lo + 1, hi, 0x8000_0000_0000_0000u64) {
            Some(x) => {
                let r: i64 = if x == 0x8000_0000_0000_0000u64 {
                    i64::MIN
                } else {
                    0 - (x as i64)
                };
                Some(r)
            },
            None => None,
        }
    } else if lo < hi && v[lo] == '+' {
        assert(s.drop_first() == v@.subrange(lo + 1, hi as int));
        match parse_digits(v, lo + 1, hi, i64::MAX as u64) {
            Some(x) => Some(x as i64),
            None => None,
        }
    } else {
        match parse_digits(v, lo, hi, i64::MAX as u64) {
            Some(x) => Some(x as i64),
            None => None,
        }
    }
}

/// Index of the first `c` in `s`, or `s.len()` when there is none.
pub open spec fn index_of(s: Seq<char>, c: char) -> int
    decreases s.len(),
{
    if s.len() == 0 {
        0
    } else if s[0] == c {
        0
    } else {
        1 + index_of(s.drop_first(), c)
    }
}

pub proof fn lemma_index_of(s: Seq<char>, c: char, k: int)
    requires
        0 <= k <= s.len(),
        forall|j: int| 0 <= j < k ==> #[trigger] s[j] != c,
        k == s.len() || s[k] == c,
    ensures
        index_of(s, c) == k,
    decreases k,
{
    if k > 0 {
        let t = s.drop_first();
        assert forall|j: int| 0 <= j < k - 1 implies #[trigger] t[j] != c by {
            assert(t[j] == s[j + 1]);
        }
        if k < s.len() {
            assert(t[k - 1] == s[k]);
        }
        lemma_index_of(t, c, k - 1);
    }
}

/// First index `>= from` and `< hi` holding `c`, or `hi`.
pub fn find_char(v: &Vec<char>, c: char, from: usize, hi: usize) -> (k: usize)
    requires
        from <= hi <= v@.len(),
    ensures
        from <= k <= hi,
        index_of(v@.subrange(from as int, hi as int), c) == k - from,
{
    let mut k: usize = from;
    while k < hi && v[k] != c
        invariant
            from <= k <= hi <= v@.len(),
            forall|j: int| from <= j < k ==> v@[j] != c,
        decreases hi - k,
    {
        k = k + 1;
    }
    proof {
        let s = v@.subrange(from as int, hi as int);
        assert forall|j: int| 0 <= j < k - from implies #[trigger] s[j] != c by {
            assert(s[j] == v@[from + j]);
        }
        if k < hi {
            assert(s[k - from] == v@[k as int]);
        }
        lemma_index_of(s, c, k - from);
    }
    k
}

/// `l` without one trailing carriage return.
pub open spec fn drop_cr(l: Seq<char>) -> Seq<char> {
    if l.len() > 0 && l.last() == '\r' {
        l.drop_last()
    } else {
        l
    }
}

/// `str::lines`: the pieces between `\n`s, each without a `\r` before its `\n`;
/// a final `\n` ends the last line rather than opening an empty one.
pub open spec fn lines(s: Seq<char>) -> Seq<Seq<char>>
    decreases s.len(),
{
    if s.len() == 0 {
        seq![]
    } else {
        let k = index_of(s, '\n');
        proof {
            lemma_index_of_bounds(s, '\n');
        }
        if k >= s.len() {
            seq![s]
        } else {
            seq![drop_cr(s.take(k))] + lines(s.skip(k + 1))
        }
    }
}

/// `str::split` on one character: always at least one piece.
pub open spec fn split_char(s: Seq<char>, c: char) -> Seq<Seq<char>>
    decreases s.len(),
{
    let k = index_of(s, c);
    proof {
        lemma_index_of_bounds(s, c);
    }
    if k >= s.len() {
        seq![s]
    } else {
        seq![s.take(k)] + split_char(s.skip(k + 1), c)
    }
}

pub proof fn lemma_index_of_bounds(s: Seq<char>, c: char)
    ensures
        0 <= index_of(s, c) <= s.len(),
        index_of(s, c) < s.len() ==> s[index_of(s, c)] == c,
    decreases s.len(),
{
    if s.len() > 0 && s[0] != c {
        lemma_index_of_bounds(s.drop_first(), c);
    }
}

/// The pieces that a sequence of ranges of `v` selects.
pub open spec fn pieces(v: Seq<char>, r: Seq<(usize, usize)>) -> Seq<Seq<char>> {
    Seq::new(r.len(), |i: int| v.subrange(r[i].0 as int, r[i].1 as int))
}

pub open spec fn ranges_ok(v: Seq<char>, r: Seq<(usize, usize)>) -> bool {
    forall|i: int| 0 <= i < r.len() ==> #[trigger] r[i].0 <= r[i].1 && r[i].1 <= v.len()
}

/// The ranges of `v` that hold its lines.
pub fn line_ranges(v: &Vec<char>) -> (r: Vec<(usize, usize)>)
    ensures
        ranges_ok(v@, r@),
        pieces(v@, r@) == lines(v@),
{
    let mut r: Vec<(usize, usize)> = Vec::new();
    let mut pos: usize = 0;
    let n = v.len();
    assert(v@.skip(0) == v@);
    while pos < n
        invariant
            n == v@.len(),
            pos <= n,
            ranges_ok(v@, r@),
            lines(v@) == pieces(v@, r@) + lines(v@.skip(pos as int)),
        decreases n - pos,
    {
        let ghost rest = v@.skip(pos as int);
        let k = find_char(v, '\n', pos, n);
        assert(v@.subrange(pos as int, n as int) == rest);
        let ghost old_r = r@;
        if k == n {
            r.push((pos, n));
            proof {
                assert(lines(rest) == seq![rest]);
                assert(v@.subrange(pos as int, n as int) == rest);
                assert(pieces(v@, r@) == pieces(v@, old_r).push(rest));
                assert(v@.skip(n as int) =~= Seq::<char>::empty());
                assert(lines(v@.skip(n as int)) == Seq::<Seq<char>>::empty());
            }
            pos = n;
        } else {
            let e: usize = if k > pos && v[k - 1] == '\r' {
                k - 1
            } else {
                k
            };
            r.push((pos, e));
            proof {
                assert(rest.take(k - pos) == v@.subrange(pos as int, k as int));
                assert(drop_cr(rest.take(k - pos)) == v@.subrange(pos as int, e as int));
                assert(rest.skip(k - pos + 1) == v@.skip(k + 1));
                let x = v@.subrange(pos as int, e as int);
                assert(pieces(v@, r@) == pieces(v@, old_r).push(x));
                assert(lines(rest) == seq![x] + lines(v@.skip(k + 1)));
                assert(pieces(v@, old_r) + lines(rest) == pieces(v@, r@) + lines(v@.skip(k + 1)));
            }
            pos = k + 1;
        }
    }
    assert(lines(v@.skip(pos as int)) == Seq::<Seq<char>>::empty());
    r
}

/// The ranges of `v[lo..hi]` that `str::split` on `c` yields.
pub fn split_ranges(v: &Vec<char>, lo: usize, hi: usize, c: char) -> (r: Vec<(usize, usize)>)
    requires
        lo <= hi <= v@.len(),
    ensures
        ranges_ok(v@, r@),
        pieces(v@, r@) == split_char(v@.subrange(lo as int, hi as int), c),
        r@.len() >= 1,
{
    let mut r: Vec<(usize, usize)> = Vec::new();
    let mut pos: usize = lo;
    loop
        invariant
            lo <= pos <= hi <= v@.len(),
            ranges_ok(v@, r@),
            split_char(v@.subrange(lo as int, hi as int), c) == pieces(v@, r@) + split_char(
                v@.subrange(pos as int, hi as int),
                c,
            ),
        decreases hi - pos,
    {
        let ghost rest = v@.subrange(pos as int, hi as int);
        let k = find_char(v, c, pos, hi);
        let ghost old_r = r@;
        if k == hi {
            r.push((pos, hi));
            proof {
                assert(split_char(rest, c) == seq![rest]);
                assert(pieces(v@, r@) == pieces(v@, old_r).push(rest));
            }
            return r;
        } else {
            r.push((pos, k));
            proof {
                assert forall|i: int| 0 <= i < r@.len() implies #[trigger] r@[i].0 <= r@[i].1
                    && r@[i].1 <= v@.len() by {
                    if i < old_r.len() {
                        assert(r@[i] == old_r[i]);
                    }
                }
                assert(rest.take(k - pos) == v@.subrange(pos as int, k as int));
                assert(rest.skip(k - pos + 1) == v@.subrange(k + 1, hi as int));
                let x = v@.subrange(pos as int, k as int);
                assert(pieces(v@, r@) == pieces(v@, old_r).push(x));
                assert(split_char(rest, c) == seq![x] + split_char(v@.subrange(k + 1, hi as int), c));
                assert(pieces(v@, old_r) + split_char(rest, c) == pieces(v@, r@) + split_char(
                    v@.subrange(k + 1, hi as int),
                    c,
                ));
            }
            pos = k + 1;
        }
    }
}

/// Index of the first character of `s` whose membership in class `k` is `want`, or `s.len()`.
pub open spec fn index_where(s: Seq<char>, k: CharClass, want: bool) -> int
    decreases s.len(),
{
    if s.len() == 0 {
        0
    } else if in_class(k, s[0]) == want {
        0
    } else {
        1 + index_where(s.drop_first(), k, want)
    }
}

pub proof fn lemma_index_where_bounds(s: Seq<char>, k: CharClass, want: bool)
    ensures
        0 <= index_where(s, k, want) <= s.len(),
        index_where(s, k, want) < s.len() ==> in_class(k, s[index_where(s, k, want)]) == want,
        s.len() > 0 && in_class(k, s[0]) != want ==> index_where(s, k, want) >= 1,
    decreases s.len(),
{
    if s.len() > 0 && in_class(k, s[0]) != want {
        lemma_index_where_bounds(s.drop_first(), k, want);
    }
}

proof fn lemma_index_where(s: Seq<char>, k: CharClass, want: bool, i: int)
    requires
        0 <= i <= s.len(),
        forall|j: int| 0 <= j < i ==> in_class(k, #[trigger] s[j]) != want,
        i == s.len() || in_class(k, s[i]) == want,
    ensures
        index_where(s, k, want) == i,
    decreases i,
{
    if i > 0 {
        let t = s.drop_first();
        assert forall|j: int| 0 <= j < i - 1 implies in_class(k, #[trigger] t[j]) != want by {
            assert(t[j] == s[j + 1]);
        }
        if i < s.len() {
            assert(t[i - 1] == s[i]);
        }
        lemma_index_where(t, k, want, i - 1);
    }
}

/// First index in `from..hi` whose membership in class `k` is `want`, or `hi`.
pub fn find_where(v: &Vec<char>, k: CharClass, want: bool, from: usize, hi: usize) -> (r: usize)
    requires
        from <= hi <= v@.len(),
    ensures
        from <= r <= hi,
        index_where(v@.subrange(from as int, hi as int), k, want) == r - from,
{
    let mut i: usize = from;
    while i < hi && class_has(k, v[i]) != want
        invariant
            from <= i <= hi <= v@.len(),
            forall|j: int| from <= j < i ==> in_class(k, #[trigger] v@[j]) != want,
        decreases hi - i,
    {
        i = i + 1;
    }
    proof {
        let s = v@.subrange(from as int, hi as int);
        assert forall|j: int| 0 <= j < i - from implies in_class(k, #[trigger] s[j]) != want by {
            assert(s[j] == v@[from + j]);
        }
        if i < hi {
            assert(s[i - from] == v@[i as int]);
        }
        lemma_index_where(s, k, want, i - from);
    }
    i
}

/// `str::split` on every character of class `k`: always at least one piece.
pub open spec fn split_class(s: Seq<char>, k: CharClass) -> Seq<Seq<char>>
    decreases s.len(),
{
    let i = index_where(s, k, true);
    proof {
        lemma_index_where_bounds(s, k, true);
    }
    if i >= s.len() {
        seq![s]
    } else {
        seq![s.take(i)] + split_class(s.skip(i + 1), k)
    }
}

/// The ranges of `v[lo..hi]` that `str::split` on the class `k` yields.
pub fn split_class_ranges(v: &Vec<char>, lo: usize, hi: usize, k: CharClass) -> (r: Vec<
    (usize, usize),
>)
    requires
        lo <= hi <= v@.len(),
    ensures
        ranges_ok(v@, r@),
        pieces(v@, r@) == split_class(v@.subrange(lo as int, hi as int), k),
        r@.len() >= 1,
{
    let mut r: Vec<(usize, usize)> = Vec::new();
    let mut pos: usize = lo;
    loop
        invariant
            lo <= pos <= hi <= v@.len(),
            ranges_ok(v@, r@),
            split_class(v@.subrange(lo as int, hi as int), k) == pieces(v@, r@) + split_class(
                v@.subrange(pos as int, hi as int),
                k,
            ),
        decreases hi - pos,
    {
        let ghost rest = v@.subrange(pos as int, hi as int);
        let e = find_where(v, k, true, pos, hi);
        let ghost old_r = r@;
        if e == hi {
            r.push((pos, hi));
            proof {
                assert(split_class(rest, k) == seq![rest]);
                assert(pieces(v@, r@) == pieces(v@, old_r).push(rest));
            }
            return r;
        } else {
            r.push((pos, e));
            proof {
                assert forall|i: int| 0 <= i < r@.len() implies #[trigger] r@[i].0 <= r@[i].1
                    && r@[i].1 <= v@.len() by {
                    if i < old_r.len() {
                        assert(r@[i] == old_r[i]);
                    }
                }
                assert(rest.take(e - pos) == v@.subrange(pos as int, e as int));
                assert(rest.skip(e - pos + 1) == v@.subrange(e + 1, hi as int));
                let x = v@.subrange(pos as int, e as int);
                assert(pieces(v@, r@) == pieces(v@, old_r).push(x));
                assert(split_class(rest, k) == seq![x] + split_class(
                    v@.subrange(e + 1, hi as int),
                    k,
                ));
                assert(pieces(v@, old_r) + split_class(rest, k) == pieces(v@, r@) + split_class(
                    v@.subrange(e + 1, hi as int),
                    k,
                ));
            }
            pos = e + 1;
        }
    }
}

/// `s` with every `c` removed (`str::replace(c, "")`).
pub open spec fn without_char(s: Seq<char>, c: char) -> Seq<char>
    decreases s.len(),
{
    if s.len() == 0 {
        s
    } else if s.last() == c {
        without_char(s.drop_last(), c)
    } else {
        without_char(s.drop_last(), c).push(s.last())
    }
}

/// The characters of `v[lo..hi]` other than `c`.
pub fn chars_without(v: &Vec<char>, lo: usize, hi: usize, c: char) -> (r: Vec<char>)
    requires
        lo <= hi <= v@.len(),
    ensures
        r@ == without_char(v@.subrange(lo as int, hi as int), c),
{
    let mut r: Vec<char> = Vec::new();
    let mut i: usize = lo;
    while i < hi
        invariant
            lo <= i <= hi <= v@.len(),
            r@ == without_char(v@.subrange(lo as int, i as int), c),
        decreases hi - i,
    {
        proof {
            let p = v@.subrange(lo as int, i + 1);
            assert(p.drop_last() == v@.subrange(lo as int, i as int));
            assert(p.last() == v@[i as int]);
        }
        if v[i] != c {
            r.push(v[i]);
        }
        i = i + 1;
    }
    r
}

/// Index of the last occurrence of `p` in `s`, or -1 (`str::rfind`).
pub open spec fn last_index_of(s: Seq<char>, p: Seq<char>) -> int
    decreases s.len(),
{
    if s.len() < p.len() {
        -1
    } else if occurs_at(s, p, s.len() - p.len()) {
        s.len() - p.len()
    } else if s.len() == 0 {
        -1
    } else {
        last_index_of(s.drop_last(), p)
    }
}

pub proof fn lemma_last_index_of(s: Seq<char>, p: Seq<char>)
    ensures
        -1 <= last_index_of(s, p) <= s.len() - p.len() || last_index_of(s, p) == -1,
        last_index_of(s, p) >= 0 ==> occurs_at(s, p, last_index_of(s, p)),
        last_index_of(s, p) == -1 ==> !contains(s, p),
    decreases s.len(),
{
    if s.len() < p.len() {
    } else if occurs_at(s, p, s.len() - p.len()) {
    } else if s.len() == 0 {
        assert(p.len() == 0);
        assert(s.subrange(0, 0) == p);
    } else {
        let t = s.drop_last();
        lemma_last_index_of(t, p);
        if last_index_of(t, p) >= 0 {
            let i = last_index_of(t, p);
            assert(s.subrange(i, i + p.len()) == t.subrange(i, i + p.len()));
        } else {
            assert forall|i: int| !occurs_at(s, p, i) by {
                if occurs_at(s, p, i) {
                    if i + p.len() <= t.len() {
                        assert(s.subrange(i, i + p.len()) == t.subrange(i, i + p.len()));
                        assert(occurs_at(t, p, i));
                    } else {
                        assert(i == s.len() - p.len());
                    }
                }
            }
        }
    }
}

/// `str::rfind` of `p` in `v`.
pub fn rfind(v: &Vec<char>, p: &Vec<char>) -> (r: Option<usize>)
    ensures
        r is None <==> last_index_of(v@, p@) == -1,
        r matches Some(i) ==> i == last_index_of(v@, p@),
{
    if v.len() < p.len() {
        return None;
    }
    let mut e: usize = v.len();
    assert(v@.take(e as int) == v@);
    while e >= p.len()
        invariant
            p@.len() <= v@.len(),
            e <= v@.len(),
            last_index_of(v@, p@) == last_index_of(v@.take(e as int), p@),
        decreases e,
    {
        let ghost t = v@.take(e as int);
        let i = e - p.len();
        if match_at(v, i, p) {
            proof {
                assert(t.subrange(i as int, e as int) == v@.subrange(i as int, e as int));
            }
            return Some(i);
        }
        proof {
            assert(t.subrange(i as int, e as int) == v@.subrange(i as int, e as int));
        }
        if e == 0 {
            return None;
        }
        proof {
            assert(t.drop_last() == v@.take(e - 1));
        }
        e = e - 1;
    }
    None
}

/// ASCII letters in lower case, other characters unchanged.
pub open spec fn lower(c: char) -> char {
    if 'A' <= c && c <= 'Z' {
        ((c as u8) + 32) as char
    } else {
        c
    }
}

/// `s` equals the lower-case word `w` when ASCII case is ignored.
pub open spec fn lower_is(s: Seq<char>, w: Seq<char>) -> bool {
    s.len() == w.len() && forall|i: int| 0 <= i < s.len() ==> lower(#[trigger] s[i]) == w[i]
}

pub open spec fn is_sign(c: char) -> bool {
    c == '+' || c == '-'
}

/// `s` without one leading `+` or `-`.
pub open spec fn unsigned_part(s: Seq<char>) -> Seq<char> {
    if s.len() > 0 && is_sign(s[0]) {
        s.drop_first()
    } else {
        s
    }
}

/// Digits with at most one `.`, at least one of them a digit.
pub open spec fn mantissa_ok(m: Seq<char>) -> bool {
    &&& forall|i: int| 0 <= i < m.len() ==> is_digit(#[trigger] m[i]) || m[i] == '.'
    &&& forall|i: int, j: int| 0 <= i < j < m.len() ==> !(#[trigger] m[i] == '.' && #[trigger] m[j] == '.')
    &&& exists|i: int| 0 <= i < m.len() && is_digit(#[trigger] m[i])
}

/// Nothing, or `e`/`E`, an optional sign and one or more digits.
pub open spec fn exponent_ok(x: Seq<char>) -> bool {
    x.len() == 0 || ((x[0] == 'e' || x[0] == 'E') && unsigned_part(x.drop_first()).len() > 0
        && all_digits(unsigned_part(x.drop_first())))
}

/// The strings that `f64::from_str` accepts, by the grammar of its documentation:
/// an optional sign, then `inf`, `infinity` or `nan` in any ASCII case, or digits
/// with at most one `.` and at least one digit, then an optional exponent.
pub open spec fn float_syntax(s: Seq<char>) -> bool {
    let t = unsigned_part(s);
    let k = index_where(t, CharClass::AnyOf('e', 'E', 'E'), true);
    ||| lower_is(t, "inf"@)
    ||| lower_is(t, "infinity"@)
    ||| lower_is(t, "nan"@)
    ||| (mantissa_ok(t.take(k)) && exponent_ok(t.skip(k)))
}

fn lower_char(c: char) -> (r: char)
    ensures
        r == lower(c),
{
    if 'A' <= c && c <= 'Z' {
        ((c as u8) + 32) as char
    } else {
        c
    }
}

/// `v[lo..hi]` equals `w` when ASCII case is ignored.
pub fn lower_is_range(v: &Vec<char>, lo: usize, hi: usize, w: &str) -> (b: bool)
    requires
        lo <= hi <= v@.len(),
    ensures
        b == lower_is(v@.subrange(lo as int, hi as int), w@),
{
    let wv = chars_of(w);
    if hi - lo != wv.len() {
        return false;
    }
    let mut i: usize = 0;
    while i < wv.len()
        invariant
            lo <= hi <= v@.len(),
            hi - lo == wv@.len(),
            wv@ == w@,
            i <= wv@.len(),
            forall|j: int| 0 <= j < i ==> lower(v@[lo + j]) == wv@[j],
        decreases wv@.len() - i,
    {
        if lower_char(v[lo + i]) != wv[i] {
            assert(v@.subrange(lo as int, hi as int)[i as int] == v@[lo + i]);
            return false;
        }
        i = i + 1;
    }
    proof {
        let s = v@.subrange(lo as int, hi as int);
        assert forall|j: int| 0 <= j < s.len() implies lower(#[trigger] s[j]) == w@[j] by {
            assert(s[j] == v@[lo + j]);
        }
    }
    true
}

/// `mantissa_ok` of `v[lo..hi]`.
fn mantissa_ok_range(v: &Vec<char>, lo: usize, hi: usize) -> (b: bool)
    requires
        lo <= hi <= v@.len(),
    ensures
        b == mantissa_ok(v@.subrange(lo as int, hi as int)),
{
    let ghost m = v@.subrange(lo as int, hi as int);
    let mut dots: usize = 0;
    let mut digits: bool = false;
    let mut i: usize = lo;
    while i < hi
        invariant
            lo <= i <= hi <= v@.len(),
            m == v@.subrange(lo as int, hi as int),
            forall|j: int| lo <= j < i ==> is_digit(#[trigger] v@[j]) || v@[j] == '.',
            dots <= 1,
            dots == 0 ==> forall|j: int| lo <= j < i ==> #[trigger] v@[j] != '.',
            dots == 1 ==> exists|j: int| lo <= j < i && #[trigger] v@[j] == '.',
            dots == 1 ==> forall|j1: int, j2: int|
                lo <= j1 < j2 < i ==> !(#[trigger] v@[j1] == '.' && #[trigger] v@[j2] == '.'),
            digits <==> exists|j: int| lo <= j < i && is_digit(#[trigger] v@[j]),
        decreases hi - i,
    {
        let c = v[i];
        if '0' <= c && c <= '9' {
            digits = true;
        } else if c == '.' {
            if dots == 1 {
                proof {
                    let j = choose|j: int| lo <= j < i && #[trigger] v@[j] == '.';
                    assert(m[j - lo] == '.' && m[i - lo] == '.');
                }
                return false;
            }
            dots = 1;
        } else {
            assert(m[i - lo] == c);
            return false;
        }
        i = i + 1;
    }
    proof {
        assert forall|j: int| 0 <= j < m.len() implies is_digit(#[trigger] m[j]) || m[j] == '.' by {
            assert(m[j] == v@[lo + j]);
        }
        assert forall|j1: int, j2: int| 0 <= j1 < j2 < m.len() implies !(#[trigger] m[j1] == '.'
            && #[trigger] m[j2] == '.') by {
            assert(m[j1] == v@[lo + j1]);
            assert(m[j2] == v@[lo + j2]);
        }
        if digits {
            let j = choose|j: int| lo <= j < i && is_digit(#[trigger] v@[j]);
            assert(m[j - lo] == v@[j]);
        } else {
            assert forall|j: int| 0 <= j < m.len() implies !is_digit(#[trigger] m[j]) by {
                assert(m[j] == v@[lo + j]);
            }
        }
    }
    digits
}

/// `exponent_ok` of `v[lo..hi]`.
fn exponent_ok_range(v: &Vec<char>, lo: usize, hi: usize) -> (b: bool)
    requires
        lo <= hi <= v@.len(),
    ensures
        b == exponent_ok(v@.subrange(lo as int, hi as int)),
{
    let ghost x = v@.subrange(lo as int, hi as int);
    if lo == hi {
        return true;
    }
    assert(x[0] == v@[lo as int]);
    if v[lo] != 'e' && v[lo] != 'E' {
        return false;
    }
    let mut a: usize = lo + 1;
    assert(x.drop_first() == v@.subrange(lo + 1, hi as int));
    if a < hi && (v[a] == '+' || v[a] == '-') {
        a = a + 1;
    }
    assert(unsigned_part(x.drop_first()) == v@.subrange(a as int, hi as int));
    a < hi && all_digits_range(v, a, hi)
}

/// Whether `v[lo..hi]` holds digits only.
pub fn all_digits_range(v: &Vec<char>, lo: usize, hi: usize) -> (b: bool)
    requires
        lo <= hi <= v@.len(),
    ensures
        b == all_digits(v@.subrange(lo as int, hi as int)),
{
    let mut i: usize = lo;
    while i < hi
        invariant
            lo <= i <= hi <= v@.len(),
            forall|j: int| lo <= j < i ==> is_digit(#[trigger] v@[j]),
        decreases hi - i,
    {
        if !('0' <= v[i] && v[i] <= '9') {
            assert(v@.subrange(lo as int, hi as int)[i - lo] == v@[i as int]);
            return false;
        }
        i = i + 1;
    }
    proof {
        let d = v@.subrange(lo as int, hi as int);
        assert forall|j: int| 0 <= j < d.len() implies is_digit(#[trigger] d[j]) by {
            assert(d[j] == v@[lo + j]);
        }
    }
    true
}

/// Whether `f64::from_str` accepts `v[lo..hi]`.
pub fn float_syntax_range(v: &Vec<char>, lo: usize, hi: usize) -> (b: bool)
    requires
        lo <= hi <= v@.len(),
    ensures
        b == float_syntax(v@.subrange(lo as int, hi as int)),
{
    let ghost s = v@.subrange(lo as int, hi as int);
    let mut a: usize = lo;
    if a < hi && (v[a] == '+' || v[a] == '-') {
        a = a + 1;
        assert(s.drop_first() == v@.subrange(a as int, hi as int));
    }
    let ghost t = v@.subrange(a as int, hi as int);
    assert(unsigned_part(s) == t);
    if lower_is_range(v, a, hi, "inf") || lower_is_range(v, a, hi, "infinity") || lower_is_range(
        v,
        a,
        hi,
        "nan",
    ) {
        return true;
    }
    let k = find_where(v, CharClass::AnyOf('e', 'E', 'E'), true, a, hi);
    assert(t.take(k - a) == v@.subrange(a as int, k as int));
    assert(t.skip(k - a) == v@.subrange(k as int, hi as int));
    mantissa_ok_range(v, a, k) && exponent_ok_range(v, k, hi)
}

/// `str::split_whitespace`: the maximal runs of non-white-space characters.
pub open spec fn words(s: Seq<char>) -> Seq<Seq<char>>
    decreases s.len(),
{
    let a = index_where(s, CharClass::Whitespace, false);
    proof {
        lemma_index_where_bounds(s, CharClass::Whitespace, false);
    }
    if a >= s.len() {
        seq![]
    } else {
        let t = s.skip(a);
        let b = index_where(t, CharClass::Whitespace, true);
        proof {
            lemma_index_where_bounds(t, CharClass::Whitespace, true);
        }
        seq![t.take(b)] + words(t.skip(b))
    }
}

/// The ranges of `v[lo..hi]` that `str::split_whitespace` yields.
pub fn word_ranges(v: &Vec<char>, lo: usize, hi: usize) -> (r: Vec<(usize, usize)>)
    requires
        lo <= hi <= v@.len(),
    ensures
        ranges_ok(v@, r@),
        pieces(v@, r@) == words(v@.subrange(lo as int, hi as int)),
{
    let mut r: Vec<(usize, usize)> = Vec::new();
    let mut pos: usize = lo;
    loop
        invariant
            lo <= pos <= hi <= v@.len(),
            ranges_ok(v@, r@),
            words(v@.subrange(lo as int, hi as int)) == pieces(v@, r@) + words(
                v@.subrange(pos as int, hi as int),
            ),
        decreases hi - pos,
    {
        let ghost rest = v@.subrange(pos as int, hi as int);
        let a = find_where(v, CharClass::Whitespace, false, pos, hi);
        if a == hi {
            proof {
                assert(words(rest) == Seq::<Seq<char>>::empty());
            }
            return r;
        }
        let b = find_where(v, CharClass::Whitespace, true, a, hi);
        let ghost old_r = r@;
        proof {
            let t = rest.skip(a - pos);
            assert(t == v@.subrange(a as int, hi as int));
            lemma_index_where_bounds(t, CharClass::Whitespace, true);
            assert(t[0] == v@[a as int]);
            lemma_index_where_bounds(rest, CharClass::Whitespace, false);
        }
        r.push((a, b));
        proof {
            let t = rest.skip(a - pos);
            let x = v@.subrange(a as int, b as int);
            assert(t.take(b - a) == x);
            assert(t.skip(b - a) == v@.subrange(b as int, hi as int));
            assert(words(rest) == seq![x] + words(v@.subrange(b as int, hi as int)));
            assert(pieces(v@, r@) == pieces(v@, old_r).push(x));
            assert(pieces(v@, old_r) + words(rest) == pieces(v@, r@) + words(
                v@.subrange(b as int, hi as int),
            ));
        }
        pos = b;
    }
}


/// The decimal notation of `n` is one or more digits denoting `n`.
pub proof fn lemma_dec_digits(n: nat)
    ensures
        dec(n).len() > 0,
        all_digits(dec(n)),
        digits_value(dec(n)) == n,
    decreases n,
{
    let d = dec(n);
    if n < 10 {
        assert(digit(n as int) as int == n + 48);
        assert(digit_val(d[0]) == n);
        assert(d.drop_last() =~= Seq::<char>::empty());
        assert(digits_value(d.drop_last()) == 0);
        assert(d.last() == d[0]);
    } else {
        lemma_dec_digits(n / 10);
        let m = (n % 10) as int;
        assert(digit(m) as int == m + 48);
        assert(d.drop_last() == dec(n / 10));
        assert forall|i: int| 0 <= i < d.len() implies is_digit(#[trigger] d[i]) by {
            if i < d.len() - 1 {
                assert(d[i] == dec(n / 10)[i]);
            }
        }
        assert(d.last() == digit(m));
        assert(digits_value(d) == digits_value(dec(n / 10)) * 10 + digit_val(d.last()));
        assert((n / 10) * 10 + n % 10 == n);
    }
}

/// `s` holds no `c`: removing `c` leaves it as it is.
pub proof fn lemma_without_absent(s: Seq<char>, c: char)
    requires
        forall|i: int| 0 <= i < s.len() ==> #[trigger] s[i] != c,
    ensures
        without_char(s, c) == s,
    decreases s.len(),
{
    if s.len() > 0 {
        let t = s.drop_last();
        assert forall|i: int| 0 <= i < t.len() implies #[trigger] t[i] != c by {
            assert(t[i] == s[i]);
        }
        lemma_without_absent(t, c);
        assert(t.push(s.last()) == s);
    }
}

/// Removing a character distributes over concatenation.
pub proof fn lemma_without_concat(a: Seq<char>, b: Seq<char>, c: char)
    ensures
        without_char(a + b, c) == without_char(a, c) + without_char(b, c),
    decreases b.len(),
{
    if b.len() == 0 {
        assert(a + b == a);
    } else {
        let t = b.drop_last();
        lemma_without_concat(a, t, c);
        assert((a + b).drop_last() == a + t);
        assert((a + b).last() == b.last());
    }
}

/// Grouping digits by threes adds nothing but commas.
pub proof fn lemma_group3_commas(d: Seq<char>)
    ensures
        without_char(group3(d), ',') == without_char(d, ','),
    decreases d.len(),
{
    if d.len() > 3 {
        let head = d.take(d.len() - 3);
        let tail = d.skip(d.len() - 3);
        lemma_group3_commas(head);
        lemma_without_concat(group3(head) + seq![','], tail, ',');
        lemma_without_concat(group3(head), seq![','], ',');
        assert(without_char(seq![','], ',') == Seq::<char>::empty()) by {
            let one = seq![','];
            assert(one.len() == 1);
            assert(one.last() == ',');
            assert(one.drop_last() =~= Seq::<char>::empty());
            assert(without_char(one.drop_last(), ',') == Seq::<char>::empty());
        }
        lemma_without_concat(head, tail, ',');
        assert(head + tail == d);
    }
}

/// Digits hold no comma.
pub proof fn lemma_digits_no_comma(s: Seq<char>)
    requires
        all_digits(s),
    ensures
        without_char(s, ',') == s,
{
    assert forall|i: int| 0 <= i < s.len() implies #[trigger] s[i] != ',' by {
        assert(is_digit(s[i]));
    }
    lemma_without_absent(s, ',');
}

/// `u64::from_str` reads back the decimal notation of a `u64`.
pub proof fn lemma_parse_u64_dec(n: u64)
    ensures
        parse_u64(dec(n as nat)) == Some(n),
{
    lemma_dec_digits(n as nat);
    assert(is_digit(dec(n as nat)[0]));
}

/// `i64::from_str` reads back the signed decimal notation of an `i64`.
pub proof fn lemma_parse_i64_signed_dec(x: i64)
    ensures
        parse_i64(signed_dec(x as int)) == Some(x),
{
    if x < 0 {
        let m = (-(x as int)) as nat;
        lemma_dec_digits(m);
        let s = signed_dec(x as int);
        assert(s.drop_first() == dec(m));
    } else {
        lemma_dec_digits(x as nat);
        assert(is_digit(dec(x as nat)[0]));
    }
}


/// White space around a text whose first and last characters are not white
/// space is what `trim` removes.
pub proof fn lemma_trim_padded(w1: Seq<char>, x: Seq<char>, w2: Seq<char>)
    requires
        forall|i: int| 0 <= i < w1.len() ==> is_ws(#[trigger] w1[i]),
        forall|i: int| 0 <= i < w2.len() ==> is_ws(#[trigger] w2[i]),
        x.len() > 0,
        !is_ws(x[0]),
        !is_ws(x.last()),
    ensures
        trim(w1 + x + w2) == x,
{
    let s = w1 + x + w2;
    assert forall|j: int| 0 <= j < w1.len() implies in_class(CharClass::Whitespace, #[trigger] s[j]) by {
        assert(s[j] == w1[j]);
    }
    assert(s[w1.len() as int] == x[0]);
    lemma_strip_start(s, CharClass::Whitespace, w1.len() as int);
    let t = s.skip(w1.len() as int);
    assert(t == x + w2);
    assert forall|j: int| x.len() <= j < t.len() implies in_class(CharClass::Whitespace, #[trigger] t[j]) by {
        assert(t[j] == w2[j - x.len()]);
    }
    assert(t[x.len() - 1] == x.last());
    lemma_strip_end(t, CharClass::Whitespace, x.len() as int);
    assert(t.take(x.len() as int) == x);
}

/// A text without characters of class `k` is split into itself alone.
pub proof fn lemma_split_class_none(c: Seq<char>, k: CharClass)
    requires
        forall|i: int| 0 <= i < c.len() ==> !in_class(k, #[trigger] c[i]),
    ensures
        split_class(c, k) == seq![c],
{
    lemma_index_where(c, k, true, c.len() as int);
}

/// Splitting `a`, a separator `x`, then `rest`, where `a` holds no separator,
/// gives `a` and then the pieces of `rest`.
pub proof fn lemma_split_class_cons(a: Seq<char>, x: char, rest: Seq<char>, k: CharClass)
    requires
        forall|i: int| 0 <= i < a.len() ==> !in_class(k, #[trigger] a[i]),
        in_class(k, x),
    ensures
        split_class(a + seq![x] + rest, k) == seq![a] + split_class(rest, k),
{
    let s = a + seq![x] + rest;
    assert forall|j: int| 0 <= j < a.len() implies in_class(k, #[trigger] s[j]) != true by {
        assert(s[j] == a[j]);
    }
    assert(s[a.len() as int] == x);
    lemma_index_where(s, k, true, a.len() as int);
    assert(s.take(a.len() as int) == a);
    assert(s.skip(a.len() as int + 1) == rest);
}

/// Characters that `f64::from_str` can accept: digits, `.`, signs and ASCII letters.
pub open spec fn float_char(c: char) -> bool {
    is_digit(c) || c == '.' || is_sign(c) || ('a' <= lower(c) && lower(c) <= 'z')
}

proof fn lemma_word_chars(t: Seq<char>, w: Seq<char>)
    requires
        lower_is(t, w),
        forall|i: int| 0 <= i < w.len() ==> 'a' <= #[trigger] w[i] && w[i] <= 'z',
    ensures
        forall|i: int| 0 <= i < t.len() ==> float_char(#[trigger] t[i]),
{
    assert forall|i: int| 0 <= i < t.len() implies float_char(#[trigger] t[i]) by {
        assert(lower(t[i]) == w[i]);
    }
}

/// A float literal is not empty and is made of float characters.
pub proof fn lemma_float_chars(s: Seq<char>)
    requires
        float_syntax(s),
    ensures
        s.len() > 0,
        forall|i: int| 0 <= i < s.len() ==> float_char(#[trigger] s[i]),
{
    let t = unsigned_part(s);
    let k = index_where(t, CharClass::AnyOf('e', 'E', 'E'), true);
    lemma_index_where_bounds(t, CharClass::AnyOf('e', 'E', 'E'), true);
    reveal_strlit("inf");
    reveal_strlit("infinity");
    reveal_strlit("nan");
    if lower_is(t, "inf"@) {
        lemma_word_chars(t, "inf"@);
    } else if lower_is(t, "infinity"@) {
        lemma_word_chars(t, "infinity"@);
    } else if lower_is(t, "nan"@) {
        lemma_word_chars(t, "nan"@);
    } else {
        let m = t.take(k);
        let x = t.skip(k);
        let wi = choose|i: int| 0 <= i < m.len() && is_digit(#[trigger] m[i]);
        assert(m.len() > 0);
        assert forall|i: int| 0 <= i < t.len() implies float_char(#[trigger] t[i]) by {
            if i < k {
                assert(t[i] == m[i]);
                assert(is_digit(m[i]) || m[i] == '.');
            } else {
                assert(t[i] == x[i - k]);
                if i == k {
                    assert(x[0] == 'e' || x[0] == 'E');
                    assert(lower('E') == 'e');
                } else {
                    let y = x.drop_first();
                    assert(x[i - k] == y[i - k - 1]);
                    if y.len() > 0 && is_sign(y[0]) {
                        let u = y.drop_first();
                        if i - k - 1 > 0 {
                            assert(y[i - k - 1] == u[i - k - 2]);
                            assert(is_digit(u[i - k - 2]));
                        }
                    } else {
                        assert(is_digit(unsigned_part(y)[i - k - 1]));
                    }
                }
            }
        }
    }
    if s.len() > 0 && is_sign(s[0]) {
        assert forall|i: int| 0 <= i < s.len() implies float_char(#[trigger] s[i]) by {
            if i > 0 {
                assert(s[i] == t[i - 1]);
            }
        }
    }
}

/// A float character is neither white space nor `%`, `|`, `│` or `┊`.
pub proof fn lemma_float_char_plain(c: char)
    requires
        float_char(c),
    ensures
        !is_ws(c),
        c != '%',
        c != '|',
        c != '│',
        c != '┊',
{
}

/// Digits grouped by threes are digits and commas, never fewer than the digits.
pub proof fn lemma_group3_chars(d: Seq<char>)
    requires
        all_digits(d),
    ensures
        group3(d).len() >= d.len(),
        forall|i: int| 0 <= i < group3(d).len() ==> is_digit(#[trigger] group3(d)[i]) || group3(d)[i] == ',',
        d.len() > 0 ==> is_digit(group3(d)[0]) && is_digit(group3(d).last()),
    decreases d.len(),
{
    if d.len() > 3 {
        let head = d.take(d.len() - 3);
        let tail = d.skip(d.len() - 3);
        assert forall|i: int| 0 <= i < head.len() implies is_digit(#[trigger] head[i]) by {
            assert(head[i] == d[i]);
        }
        lemma_group3_chars(head);
        let g = group3(d);
        let gh = group3(head);
        assert(g == gh + seq![','] + tail);
        assert forall|i: int| 0 <= i < g.len() implies is_digit(#[trigger] g[i]) || g[i] == ',' by {
            if i < gh.len() {
                assert(g[i] == gh[i]);
            } else if i > gh.len() {
                assert(g[i] == tail[i - gh.len() - 1]);
                assert(tail[i - gh.len() - 1] == d[d.len() - 3 + i - gh.len() - 1]);
            }
        }
        assert(g[0] == gh[0]);
        assert(g.last() == tail[2]);
        assert(tail[2] == d[d.len() - 1]);
    }
}


/// Stripping trailing `c` from `s` followed by one `c`, where `s` does not end
/// in `c`, gives `s`.
pub proof fn lemma_strip_end_one(s: Seq<char>, c: char)
    requires
        s.len() > 0,
        s.last() != c,
    ensures
        strip_end(s + seq![c], CharClass::Exactly(c)) == s,
{
    let t = s + seq![c];
    let k = CharClass::Exactly(c);
    assert(t.drop_last() == s);
    assert(t.last() == c);
    assert(in_class(k, t.last()));
    assert(strip_end(t, k) == strip_end(s, k));
    assert(!in_class(k, s.last()));
    assert(strip_end(s, k) == s);
}


/// Joining a first part before the others puts it and a separator in front.
pub proof fn lemma_joined_cons(l: Seq<char>, rest: Seq<Seq<char>>, sep: Seq<char>)
    requires
        rest.len() >= 1,
    ensures
        joined(seq![l] + rest, sep) == l + sep + joined(rest, sep),
    decreases rest.len(),
{
    let all = seq![l] + rest;
    assert(all.drop_last() == seq![l] + rest.drop_last());
    assert(all.last() == rest.last());
    if rest.len() == 1 {
        assert(seq![l] + rest.drop_last() == seq![l]);
        assert(joined(seq![l], sep) == l);
        assert(joined(rest, sep) == rest[0]);
        assert(rest.last() == rest[0]);
    } else {
        lemma_joined_cons(l, rest.drop_last(), sep);
        let a = joined(rest.drop_last(), sep);
        assert(joined(all, sep) == joined(seq![l] + rest.drop_last(), sep) + sep + rest.last());
        assert(joined(rest, sep) == a + sep + rest.last());
        assert((l + sep + a) + sep + rest.last() =~= l + sep + (a + sep + rest.last()));
    }
}

/// Lines that are not empty, hold no newline and do not end in a carriage
/// return, joined by newlines, are read back by `lines`.
pub proof fn lemma_lines_joined(ls: Seq<Seq<char>>)
    requires
        forall|i: int|
            0 <= i < ls.len() ==> (#[trigger] ls[i]).len() > 0 && ls[i].last() != '\r' && !ls[i].contains('\n'),
    ensures
        lines(joined(ls, seq!['\n'])) == ls,
    decreases ls.len(),
{
    if ls.len() == 0 {
    } else {
        let l = ls[0];
        assert(l.len() > 0 && l.last() != '\r' && !l.contains('\n'));
        assert forall|j: int| 0 <= j < l.len() implies #[trigger] l[j] != '\n' by {
            if l[j] == '\n' {
                assert(l.contains('\n'));
            }
        }
        if ls.len() == 1 {
            assert(joined(ls, seq!['\n']) == l);
            lemma_index_of(l, '\n', l.len() as int);
        } else {
            let rest = ls.drop_first();
            assert(ls == seq![l] + rest);
            lemma_joined_cons(l, rest, seq!['\n']);
            let s = joined(ls, seq!['\n']);
            assert(s == l + seq!['\n'] + joined(rest, seq!['\n']));
            assert forall|j: int| 0 <= j < l.len() implies #[trigger] s[j] != '\n' by {
                assert(s[j] == l[j]);
            }
            assert(s[l.len() as int] == '\n');
            lemma_index_of(s, '\n', l.len() as int);
            assert(s.take(l.len() as int) == l);
            assert(s.skip(l.len() as int + 1) == joined(rest, seq!['\n']));
            assert forall|i: int| 0 <= i < rest.len() implies (#[trigger] rest[i]).len() > 0
                && rest[i].last() != '\r' && !rest[i].contains('\n') by {
                assert(rest[i] == ls[i + 1]);
            }
            lemma_lines_joined(rest);
        }
    }
}

/// The characters of the words `v[w[k]]` for `k` from `from` on, joined by spaces.
pub fn joined_words(v: &Vec<char>, w: &Vec<(usize, usize)>, from: usize) -> (r: Vec<char>)
    requires
        ranges_ok(v@, w@),
        from <= w@.len(),
    ensures
        r@ == joined(pieces(v@, w@).skip(from as int), seq![' ']),
{
    let ghost ps = pieces(v@, w@).skip(from as int);
    let mut r: Vec<char> = Vec::new();
    let mut k: usize = from;
    while k < w.len()
        invariant
            from <= k <= w@.len(),
            ranges_ok(v@, w@),
            ps == pieces(v@, w@).skip(from as int),
            r@ == joined(ps.take(k - from), seq![' ']),
        decreases w@.len() - k,
    {
        let (a, b) = w[k];
        assert(w@[k as int].0 <= w@[k as int].1 <= v@.len());
        let ghost x = v@.subrange(a as int, b as int);
        assert(ps[k - from] == x);
        assert(ps.take(k - from + 1).drop_last() == ps.take(k - from));
        assert(ps.take(k - from + 1).last() == x);
        if k == from {
            assert(ps.take(1) == seq![x]);
        } else {
            r.push(' ');
        }
        let ghost before = r@;
        let mut i: usize = a;
        while i < b
            invariant
                a <= i <= b <= v@.len(),
                r@ == before + v@.subrange(a as int, i as int),
            decreases b - i,
        {
            r.push(v[i]);
            assert(v@.subrange(a as int, i + 1) == v@.subrange(a as int, i as int).push(v@[i as int]));
            i = i + 1;
        }
        k = k + 1;
    }
    assert(ps.take(k - from) == ps);
    r
}

} // verus!
