//! Shared formatting for all reports: byte sizes, thousands separators,
//! fixed two-decimal numbers and truncated labels.
use vstd::prelude::*;
use vstd::string::*;
use vstd::utf8::*;
use crate::text::{
    chars_of, dec, dec_string, digit, digit_char, group3, lemma_dec_digits, lemma_digits_no_comma,
    lemma_group3_commas, push_char, push_dec, push_dec_wide, push_str, string_of_range, to_string,
    without_char,
};

verus! {

broadcast use vstd::string::group_string_axioms, vstd::utf8::encode_utf8_decode_utf8;

pub const KB: u64 = 1024;

pub const MB: u64 = 1048576;

pub const GB: u64 = 1073741824;

/// `n / d` rounded to a whole number, ties going to the even neighbour.
pub open spec fn round_half_even(n: nat, d: nat) -> nat {
    let q = n / d;
    let r = n % d;
    if 2 * r < d {
        q
    } else if 2 * r > d {
        q + 1
    } else if q % 2 == 0 {
        q
    } else {
        q + 1
    }
}

/// Hundredths `c` written as `whole.ff`.
pub open spec fn fixed2(c: nat) -> Seq<char> {
    dec(c / 100) + seq!['.', digit(((c % 100) / 10) as int), digit((c % 10) as int)]
}

/// The exact quotient `n / d` written with two decimals (`{:.2}`).
pub open spec fn decimal2(n: nat, d: nat) -> Seq<char> {
    fixed2(round_half_even(n * 100, d))
}

/// `2^k`.
pub open spec fn p2(k: nat) -> nat
    decreases k,
{
    if k == 0 {
        1
    } else {
        2 * p2((k - 1) as nat)
    }
}

/// The least `k` from `k` on (below 60) that scales `p / q` to at least
/// `2^52`: the exponent of the 53-bit mantissa of a double near `p / q`.
pub open spec fn scale_from(p: nat, q: nat, k: nat) -> nat
    decreases 60 - k,
{
    if k >= 60 || p * p2(k) >= p2(52) * q {
        k
    } else {
        scale_from(p, q, k + 1)
    }
}

/// The least `s` from `s` on (below 64) with `n < 2^(53 + s)`: the bits of `n`
/// beyond a 53-bit mantissa.
pub open spec fn wide_from(n: nat, s: nat) -> nat
    decreases 64 - s,
{
    if s >= 64 || n < p2(53) * p2(s) {
        s
    } else {
        wide_from(n, s + 1)
    }
}

/// `n as f64`: `n` rounded to a 53-bit mantissa, ties to even.
pub open spec fn f64_of(n: nat) -> nat {
    let s = wide_from(n, 0);
    round_half_even(n, p2(s)) * p2(s)
}

/// `format!("{:.2}", p as f64 / q as f64)` for whole `p`, `q` that doubles hold
/// exactly and `1 <= p / q < 2^53`: the quotient rounded to the double
/// `m / 2^k` (53-bit mantissa `m`, ties to even), and that double's exact value
/// rounded to two decimals, ties to even.
pub open spec fn float2(p: nat, q: nat) -> Seq<char> {
    let k = scale_from(p, q, 0);
    decimal2(round_half_even(p * p2(k), q), p2(k))
}

pub proof fn lemma_p2_values()
    ensures
        p2(52) == 0x10_0000_0000_0000,
        p2(53) == 0x20_0000_0000_0000,
        p2(60) == 0x1000_0000_0000_0000,
{
    reveal_with_fuel(p2, 61);
}

proof fn lemma_p2_monotone(a: nat, b: nat)
    requires
        a <= b,
    ensures
        p2(a) <= p2(b),
    decreases b,
{
    if a < b {
        lemma_p2_monotone(a, (b - 1) as nat);
    }
}

/// `n as f64`, as the whole number it holds.
pub fn f64_of_exec(n: u64) -> (r: u128)
    ensures
        r == f64_of(n as nat),
        r <= 0x1_0000_0000_0000_1000,
{
    proof {
        lemma_p2_values();
    }
    let two53: u128 = 0x20_0000_0000_0000;
    let mut s: u32 = 0;
    let mut ps: u128 = 1;
    while s < 64 && (n as u128) >= two53 * ps
        invariant
            s <= 64,
            ps == p2(s as nat),
            1 <= ps <= 0x1000,
            two53 == p2(53),
            two53 == 0x20_0000_0000_0000,
            wide_from(n as nat, 0) == wide_from(n as nat, s as nat),
        decreases 64 - s,
    {
        ps = ps * 2;
        s = s + 1;
    }
    let m = round_half_even_exec(n as u128, ps);
    assert(m * ps <= n as u128 + ps) by (nonlinear_arith)
        requires
            m <= (n as u128) / ps + 1,
            ps >= 1,
    ;
    m * ps
}

/// `n / d` rounded to a whole number, ties to even.
pub fn round_half_even_exec(n: u128, d: u128) -> (r: u128)
    requires
        d > 0,
        n < u128::MAX,
    ensures
        r == round_half_even(n as nat, d as nat),
        r <= n / d + 1,
{
    let q = n / d;
    let rem = n % d;
    if rem < d - rem {
        q
    } else if rem > d - rem {
        q + 1
    } else if q % 2 == 0 {
        q
    } else {
        q + 1
    }
}

/// Appends `{:.2}` of the double nearest `p / q`.
pub fn push_float2(s: &mut String, p: u128, q: u128)
    requires
        1 <= q <= 0x4000_0000,
        p < p2(53) * q,
        p <= 0x1_0000_0000_0000_1000,
    ensures
        final(s)@ == old(s)@ + float2(p as nat, q as nat),
{
    proof {
        lemma_p2_values();
    }
    let two52: u128 = 0x10_0000_0000_0000;
    let mut k: u32 = 0;
    let mut pk: u128 = 1;
    while k < 60 && p * pk < two52 * q
        invariant
            k <= 60,
            pk == p2(k as nat),
            pk <= 0x1000_0000_0000_0000,
            1 <= q <= 0x4000_0000,
            p <= 0x1_0000_0000_0000_1000,
            two52 == p2(52),
            two52 == 0x10_0000_0000_0000,
            p * pk < 2 * two52 * q,
            scale_from(p as nat, q as nat, 0) == scale_from(p as nat, q as nat, k as nat),
        decreases 60 - k,
    {
        assert(p * (pk * 2) == (p * pk) * 2) by (nonlinear_arith);
        proof {
            lemma_p2_values();
            lemma_p2_monotone((k + 1) as nat, 60);
            assert(p2((k + 1) as nat) == 2 * p2(k as nat));
        }
        pk = pk * 2;
        k = k + 1;
    }
    assert(p * pk <= 0x1_0000_0000_0000_1000 * 0x1000_0000_0000_0000) by (nonlinear_arith)
        requires
            p <= 0x1_0000_0000_0000_1000,
            pk <= 0x1000_0000_0000_0000,
    ;
    let m = round_half_even_exec(p * pk, q);
    assert(((p * pk) as int) / (q as int) <= 2 * two52) by (nonlinear_arith)
        requires
            p * pk < 2 * two52 * q,
            q >= 1,
    ;
    push_decimal2(s, m, pk);
}

/// What `format_bytes` writes: the largest unit that `bytes` reaches, as
/// `{:.2}` writes the `f64` quotient.
pub open spec fn bytes_text(bytes: u64) -> Seq<char> {
    if bytes >= GB {
        float2(f64_of(bytes as nat), GB as nat) + " GB"@
    } else if bytes >= MB {
        float2(bytes as nat, MB as nat) + " MB"@
    } else if bytes >= KB {
        float2(bytes as nat, KB as nat) + " KB"@
    } else {
        dec(bytes as nat) + " B"@
    }
}

/// Appends `n / d` with two decimals.
pub fn push_decimal2(s: &mut String, n: u128, d: u128)
    requires
        d > 0,
        n <= u128::MAX / 100,
    ensures
        final(s)@ == old(s)@ + decimal2(n as nat, d as nat),
{
    let num: u128 = n * 100;
    let q: u128 = num / d;
    let r: u128 = num % d;
    let c: u128 = if r < d - r {
        q
    } else if r > d - r {
        q + 1
    } else if q % 2 == 0 {
        q
    } else {
        q + 1
    };
    assert(c == round_half_even(n as nat * 100, d as nat));
    assert(num / d <= num) by (nonlinear_arith)
        requires
            d >= 1,
    ;
    let whole: u128 = c / 100;
    push_dec_wide(s, whole);
    push_char(s, '.');
    let f: u128 = c % 100;
    push_char(s, digit_char((f / 10) as u64));
    push_char(s, digit_char((f % 10) as u64));
}

/// Format bytes with the largest unit they reach (B, KB, MB, GB); units above
/// bytes get two decimals.
///
/// `format_bytes(512)` is `"512 B"`, `format_bytes(2048)` is `"2.00 KB"` and
/// `format_bytes(2_097_152)` is `"2.00 MB"`.
pub fn format_bytes(bytes: u64) -> (r: String)
    ensures
        r@ == bytes_text(bytes),
{
    let mut s = String::new();
    proof {
        lemma_p2_values();
    }
    if bytes >= GB {
        let p = f64_of_exec(bytes);
        push_float2(&mut s, p, GB as u128);
        push_str(&mut s, " GB");
    } else if bytes >= MB {
        push_float2(&mut s, bytes as u128, MB as u128);
        push_str(&mut s, " MB");
    } else if bytes >= KB {
        push_float2(&mut s, bytes as u128, KB as u128);
        push_str(&mut s, " KB");
    } else {
        push_dec(&mut s, bytes);
        push_str(&mut s, " B");
    }
    s
}

/// Appends the digits `d[0..hi]` grouped by threes from the right.
fn push_group3(s: &mut String, d: &Vec<char>, hi: usize)
    requires
        hi <= d@.len(),
    ensures
        final(s)@ == old(s)@ + group3(d@.take(hi as int)),
    decreases hi,
{
    if hi <= 3 {
        let part = string_of_range(d, 0, hi);
        push_str(s, part.as_str());
        assert(d@.subrange(0, hi as int) == d@.take(hi as int));
    } else {
        push_group3(s, d, hi - 3);
        push_char(s, ',');
        let part = string_of_range(d, hi - 3, hi);
        push_str(s, part.as_str());
        proof {
            let t = d@.take(hi as int);
            assert(t.take(t.len() - 3) == d@.take(hi - 3));
            assert(t.skip(t.len() - 3) == d@.subrange(hi - 3, hi as int));
        }
    }
}

/// Format a number with a comma between each group of three digits.
///
/// `format_number(1234567)` is `"1,234,567"`.
pub fn format_number(n: u64) -> (r: String)
    ensures
        r@ == group3(dec(n as nat)),
{
    let digits = dec_string(n);
    let d = chars_of(digits.as_str());
    let mut s = String::new();
    push_group3(&mut s, &d, d.len());
    assert(d@.take(d@.len() as int) == d@);
    s
}

/// Removing the separators from a formatted number gives its plain decimal
/// digits back.
pub proof fn lemma_format_number_digits(n: u64)
    ensures
        without_char(group3(dec(n as nat)), ',') == dec(n as nat),
{
    lemma_dec_digits(n as nat);
    lemma_group3_commas(dec(n as nat));
    lemma_digits_no_comma(dec(n as nat));
}

/// What `truncate_str` keeps of a label that exceeds `max_len` bytes: the
/// characters of its first `max_len - 3` bytes (none when `max_len < 3`), then `...`.
pub open spec fn truncated(s: Seq<char>, max_len: nat) -> Seq<char> {
    let b = encode_utf8(s);
    if b.len() <= max_len {
        s
    } else {
        let k = if max_len >= 3 { max_len - 3 } else { 0 };
        decode_utf8(b.take(k as int)) + "..."@
    }
}

/// The byte cut that `truncated` makes falls on a character boundary.
pub open spec fn cut_ok(s: Seq<char>, max_len: nat) -> bool {
    let b = encode_utf8(s);
    b.len() > max_len ==> is_char_boundary(b, if max_len >= 3 { max_len - 3 } else { 0 })
}

/// Keeps the first `k` bytes of `s` and appends `...`.
fn cut_with_ellipsis(s: &str, k: usize) -> (r: String)
    requires
        is_char_boundary(s.spec_bytes(), k as int),
    ensures
        r@ == decode_utf8(s.spec_bytes().take(k as int)) + "..."@,
{
    let (head, _tail) = s.split_at(k);
    let mut r = to_string(head);
    push_str(&mut r, "...");
    proof {
        assert(s.spec_bytes().subrange(0, k as int) == s.spec_bytes().take(k as int));
        assert(decode_utf8(encode_utf8(head@)) == head@);
    }
    r
}

/// Truncate a string to `max_len` bytes, marking the cut with `...`.
///
/// `truncate_str("short", 10)` is `"short"`;
/// `truncate_str("very_long_symbol_name", 12)` is `"very_long..."`.
pub fn truncate_str(s: &str, max_len: usize) -> (r: String)
    requires
        cut_ok(s@, max_len as nat),
    ensures
        r@ == truncated(s@, max_len as nat),
{
    let nbytes = s.as_bytes().len();
    if nbytes <= max_len {
        to_string(s)
    } else {
        let k: usize = if max_len >= 3 {
            max_len - 3
        } else {
            0
        };
        cut_with_ellipsis(s, k)
    }
}

} // verus!
