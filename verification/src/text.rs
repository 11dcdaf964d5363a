//! Character-level text helpers: collecting characters, building strings,
//! the unsigned-integer syntax that Rust's `from_str_radix` accepts, and
//! decimal rendering of integers.

use vstd::prelude::*;

verus! {

// ---------------------------------------------------------------------------
// Strings and character vectors
// ---------------------------------------------------------------------------

/// Collects the characters of a string slice.
pub fn str_to_chars(s: &str) -> (v: Vec<char>)
    ensures
        v@ == s@,
{
    let mut v: Vec<char> = Vec::new();
    for c in it: s.chars()
        invariant
            v@ == it.seq().take(it.index()),
    {
        v.push(c);
    }
    v
}

/// Builds a `String` from a slice of characters.
///
/// Calls std's `String::from_iter` over `&char` items; std documents that
/// the resulting string holds exactly those characters, in order.
#[verifier::external_body]
pub(crate) fn chars_to_string(chars: &[char]) -> (s: String)
    ensures
        s@ == chars@,
{
    String::from_iter(chars.iter())
}

/// Appends every character of `src` to `dst`.
pub fn push_chars(dst: &mut Vec<char>, src: &[char])
    ensures
        final(dst)@ == old(dst)@ + src@,
{
    let n = src.len();
    for i in 0..n
        invariant
            n == src@.len(),
            dst@ == old(dst)@ + src@.take(i as int),
    {
        dst.push(src[i]);
        assert(src@.take(i + 1) =~= src@.take(i as int).push(src@[i as int]));
    }
    assert(src@.take(n as int) =~= src@);
}

/// Appends the characters of a string slice to `dst`.
pub fn push_str_chars(dst: &mut Vec<char>, src: &str)
    ensures
        final(dst)@ == old(dst)@ + src@,
{
    let v = str_to_chars(src);
    push_chars(dst, v.as_slice());
}

/// The two-character hexadecimal prefix `0x`.
pub open spec fn hex_prefix() -> Seq<char> {
    seq!['0', 'x']
}

/// `s` with every leading `0x` removed, as `str::trim_start_matches("0x")` does.
pub open spec fn strip_hex_prefix(s: Seq<char>) -> Seq<char>
    decreases s.len(),
{
    if s.len() >= 2 && s[0] == '0' && s[1] == 'x' {
        strip_hex_prefix(s.skip(2))
    } else {
        s
    }
}

/// Index at which the text left after removing every leading `0x` starts.
pub fn hex_prefix_end(s: &[char]) -> (start: usize)
    ensures
        start <= s@.len(),
        s@.skip(start as int) == strip_hex_prefix(s@),
{
    let mut start: usize = 0;
    assert(s@.skip(0) =~= s@);
    while start < s.len() && s.len() - start >= 2 && s[start] == '0' && s[start + 1] == 'x'
        invariant
            start <= s@.len(),
            strip_hex_prefix(s@.skip(start as int)) == strip_hex_prefix(s@),
        decreases s@.len() - start,
    {
        assert(s@.skip(start as int).skip(2) =~= s@.skip(start + 2));
        start = start + 2;
    }
    start
}

/// ASCII lower-casing of one character; other characters are unchanged.
pub open spec fn ascii_lower(c: char) -> char {
    if 'A' <= c && c <= 'Z' {
        ((c as u32) + 32) as char
    } else {
        c
    }
}

/// ASCII lower-casing of one character.
pub fn lower_char(c: char) -> (r: char)
    ensures
        r == ascii_lower(c),
{
    if 'A' <= c && c <= 'Z' {
        let u: u32 = (c as u32) + 32;
        proof {
            assert(0x61 <= u <= 0x7a);
        }
        char_from_ascii(u)
    } else {
        c
    }
}

/// The character with the given ASCII code.
fn char_from_ascii(u: u32) -> (c: char)
    requires
        u < 128,
    ensures
        c == u as char,
        c as u32 == u,
{
    let b: u8 = u as u8;
    b as char
}

// ---------------------------------------------------------------------------
// Unsigned integer syntax (`from_str_radix`)
// ---------------------------------------------------------------------------

/// A radix that this library parses: decimal or hexadecimal.
pub open spec fn supported_radix(radix: u32) -> bool {
    radix == 10 || radix == 16
}

/// `c` is a digit in the given radix (letters of either case for radix 16).
pub open spec fn is_radix_digit(c: char, radix: u32) -> bool {
    ||| '0' <= c && c <= '9'
    ||| radix == 16 && 'a' <= c && c <= 'f'
    ||| radix == 16 && 'A' <= c && c <= 'F'
}

/// Value of a digit character.
pub open spec fn digit_value(c: char) -> nat {
    if '0' <= c && c <= '9' {
        ((c as int) - ('0' as int)) as nat
    } else if 'a' <= c && c <= 'f' {
        ((c as int) - ('a' as int) + 10) as nat
    } else {
        ((c as int) - ('A' as int) + 10) as nat
    }
}

/// Every character of `s` is a digit in `radix`.
pub open spec fn all_radix_digits(s: Seq<char>, radix: u32) -> bool {
    forall|i: int| 0 <= i < s.len() ==> is_radix_digit(#[trigger] s[i], radix)
}

/// Positional value of a digit string, most significant digit first.
pub open spec fn digits_value(s: Seq<char>, radix: u32) -> nat
    decreases s.len(),
{
    if s.len() == 0 {
        0
    } else {
        digits_value(s.drop_last(), radix) * (radix as nat) + digit_value(s.last())
    }
}

/// The digits of an unsigned number: the text after one optional leading `+`.
pub open spec fn unsigned_digits(s: Seq<char>) -> Seq<char> {
    if s.len() > 0 && s[0] == '+' {
        s.drop_first()
    } else {
        s
    }
}

/// Value that `from_str_radix` gives an unsigned integer of unbounded width
/// for `s`: one optional `+`, then one or more digits; anything else is `None`.
pub open spec fn unsigned_syntax_value(s: Seq<char>, radix: u32) -> Option<nat> {
    let d = unsigned_digits(s);
    if d.len() > 0 && all_radix_digits(d, radix) {
        Some(digits_value(d, radix))
    } else {
        None
    }
}

/// What `u128::from_str_radix(s, radix)` accepts, and the value it gives.
pub open spec fn parse_u128_spec(s: Seq<char>, radix: u32) -> Option<u128> {
    match unsigned_syntax_value(s, radix) {
        Some(v) => if v <= u128::MAX {
            Some(v as u128)
        } else {
            None
        },
        None => None,
    }
}

/// A digit string never has a smaller value than any of its prefixes.
pub proof fn lemma_digits_value_prefix_le(s: Seq<char>, k: int, radix: u32)
    requires
        0 <= k <= s.len(),
        radix >= 1,
    ensures
        digits_value(s.take(k), radix) <= digits_value(s, radix),
    decreases s.len(),
{
    if k < s.len() {
        lemma_digits_value_prefix_le(s.drop_last(), k, radix);
        assert(s.drop_last().take(k) =~= s.take(k));
        let a = digits_value(s.drop_last(), radix);
        assert(a <= a * (radix as nat)) by (nonlinear_arith)
            requires
                radix >= 1,
        ;
    } else {
        assert(s.take(k) =~= s);
    }
}

/// Value of one digit character.
fn char_digit_value(c: char) -> (d: u32)
    requires
        is_radix_digit(c, 16),
    ensures
        d == digit_value(c),
        d < 16,
{
    let u = c as u32;
    if '0' <= c && c <= '9' {
        u - 48
    } else if 'a' <= c && c <= 'f' {
        u - 87
    } else {
        u - 55
    }
}

/// `c` is a digit in `radix`.
pub fn is_digit_char(c: char, radix: u32) -> (b: bool)
    ensures
        b == is_radix_digit(c, radix),
{
    ('0' <= c && c <= '9') || (radix == 16 && 'a' <= c && c <= 'f') || (radix == 16 && 'A' <= c
        && c <= 'F')
}

/// Parses an unsigned 128-bit integer as `u128::from_str_radix` does: an
/// optional leading `+`, then one or more digits of the radix; `None` on any
/// other character, on an empty digit string, or on overflow.
pub fn parse_u128_radix(s: &[char], radix: u32) -> (r: Option<u128>)
    requires
        supported_radix(radix),
    ensures
        r == parse_u128_spec(s@, radix),
{
    let n = s.len();
    let start: usize = if n > 0 && s[0] == '+' {
        1
    } else {
        0
    };
    let ghost d = unsigned_digits(s@);
    assert(d =~= s@.skip(start as int));
    if start == n {
        return None;
    }
    let mut acc: u128 = 0;
    let mut i: usize = start;
    while i < n
        invariant
            start <= i <= n,
            n == s@.len(),
            d =~= s@.skip(start as int),
            d == unsigned_digits(s@),
            supported_radix(radix),
            all_radix_digits(s@.subrange(start as int, i as int), radix),
            acc as nat == digits_value(s@.subrange(start as int, i as int), radix),
        decreases n - i,
    {
        let c = s[i];
        let ghost pre = s@.subrange(start as int, i as int);
        let ghost next = s@.subrange(start as int, i + 1);
        assert(next.drop_last() =~= pre);
        assert(next.last() == c);
        if !is_digit_char(c, radix) {
            assert(d[i - start] == c);
            return None;
        }
        let dv = char_digit_value(c);
        let m = acc.checked_mul(radix as u128);
        match m {
            None => {
                proof {
                    lemma_overflow_means_none(s@, start as int, i + 1, radix);
                }
                return None;
            },
            Some(m) => {
                let a = m.checked_add(dv as u128);
                match a {
                    None => {
                        proof {
                            lemma_overflow_means_none(s@, start as int, i + 1, radix);
                        }
                        return None;
                    },
                    Some(a) => {
                        acc = a;
                    },
                }
            },
        }
        i = i + 1;
    }
    assert(s@.subrange(start as int, n as int) =~= d);
    Some(acc)
}

/// If a digit prefix already exceeds `u128::MAX`, the whole text does not parse.
proof fn lemma_overflow_means_none(s: Seq<char>, start: int, k: int, radix: u32)
    requires
        0 <= start < k <= s.len(),
        supported_radix(radix),
        unsigned_digits(s) =~= s.skip(start),
        all_radix_digits(s.subrange(start, k), radix),
        digits_value(s.subrange(start, k), radix) > u128::MAX,
    ensures
        parse_u128_spec(s, radix) is None,
{
    let d = s.skip(start);
    if d.len() > 0 && all_radix_digits(d, radix) {
        assert(d.take(k - start) =~= s.subrange(start, k));
        lemma_digits_value_prefix_le(d, k - start, radix);
    }
}

// ---------------------------------------------------------------------------
// Decimal rendering
// ---------------------------------------------------------------------------

/// The character of a decimal digit value.
pub open spec fn decimal_digit_char(d: nat) -> char {
    ((d + 48) as u32) as char
}

/// Decimal rendering of a natural number, as `to_string` writes it: no sign,
/// no leading zeros, `0` for zero.
pub open spec fn decimal_chars(v: nat) -> Seq<char>
    decreases v,
{
    if v < 10 {
        seq![decimal_digit_char(v)]
    } else {
        decimal_chars(v / 10).push(decimal_digit_char(v % 10))
    }
}

/// Decimal rendering of a signed number: a `-` before the magnitude of a
/// negative value.
pub open spec fn signed_decimal_chars(v: int) -> Seq<char> {
    if v < 0 {
        seq!['-'] + decimal_chars((-v) as nat)
    } else {
        decimal_chars(v as nat)
    }
}

/// The character of digit `d` has digit value `d`.
pub proof fn lemma_digit_char_value(d: nat)
    requires
        d < 10,
    ensures
        '0' <= decimal_digit_char(d) <= '9',
        digit_value(decimal_digit_char(d)) == d,
{
    let c = decimal_digit_char(d);
    assert(c as int == d + 48);
}

/// The decimal rendering of `v` is a non-empty digit string whose value is `v`.
pub proof fn lemma_decimal_chars_digits(v: nat)
    ensures
        decimal_chars(v).len() > 0,
        all_radix_digits(decimal_chars(v), 10),
        digits_value(decimal_chars(v), 10) == v,
    decreases v,
{
    lemma_digit_char_value(v % 10);
    if v < 10 {
        let t = decimal_chars(v);
        assert(t.drop_last() =~= Seq::<char>::empty());
        assert(t.last() == decimal_digit_char(v));
        assert(v % 10 == v);
        assert(digits_value(t, 10) == digits_value(t.drop_last(), 10) * 10 + digit_value(t.last()));
        assert(is_radix_digit(t[0], 10));
    } else {
        lemma_decimal_chars_digits(v / 10);
        let s = decimal_chars(v / 10);
        let t = s.push(decimal_digit_char(v % 10));
        assert(t.drop_last() =~= s);
        assert forall|i: int| 0 <= i < t.len() implies is_radix_digit(#[trigger] t[i], 10) by {
            if i < s.len() {
                assert(t[i] == s[i]);
            }
        }
        assert(t == decimal_chars(v));
        assert(t.last() == decimal_digit_char(v % 10));
        assert(digits_value(t, 10) == digits_value(s, 10) * 10 + digit_value(t.last()));
        assert((v / 10) * 10 + v % 10 == v);
    }
}

/// Reading back the decimal rendering of any `u128` gives the same number.
pub proof fn lemma_parse_decimal_roundtrip(v: u128)
    ensures
        parse_u128_spec(decimal_chars(v as nat), 10) == Some(v),
{
    lemma_decimal_chars_digits(v as nat);
    let s = decimal_chars(v as nat);
    assert(is_radix_digit(s[0], 10));
    assert(unsigned_digits(s) == s);
}

/// Appends the decimal rendering of `v` to `out`.
pub fn push_decimal(out: &mut Vec<char>, v: u128)
    ensures
        final(out)@ == old(out)@ + decimal_chars(v as nat),
    decreases v,
{
    if v >= 10 {
        push_decimal(out, v / 10);
    }
    let d: u32 = (v % 10) as u32;
    let c = char_from_ascii(d + 48);
    out.push(c);
    proof {
        if v >= 10 {
            assert(old(out)@ + decimal_chars((v / 10) as nat).push(c) =~= (old(out)@
                + decimal_chars((v / 10) as nat)).push(c));
        }
    }
}

/// Decimal rendering of a `u128`, as `u128::to_string` writes it.
pub fn format_u128(v: u128) -> (s: String)
    ensures
        s@ == decimal_chars(v as nat),
{
    let mut out: Vec<char> = Vec::new();
    push_decimal(&mut out, v);
    chars_to_string(out.as_slice())
}

/// Decimal rendering of an `i64`, as `i64::to_string` writes it.
pub fn format_i64(v: i64) -> (s: String)
    ensures
        s@ == signed_decimal_chars(v as int),
{
    let mut out: Vec<char> = Vec::new();
    if v < 0 {
        out.push('-');
        let m: u128 = (0i128 - (v as i128)) as u128;
        push_decimal(&mut out, m);
    } else {
        push_decimal(&mut out, v as u128);
    }
    chars_to_string(out.as_slice())
}

} // verus!
