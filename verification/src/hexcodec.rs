//! Hexadecimal text of byte strings, through the `hex` crate.

use crate::text::{
    chars_to_string, digit_value, hex_prefix, is_radix_digit, push_str_chars, strip_hex_prefix,
};
use vstd::prelude::*;
use vstd::utf8::{encode_utf8, is_ascii_chars, is_ascii_chars_encode_utf8};

verus! {

/// Lower-case hexadecimal digit of a nibble.
pub open spec fn hex_lower_digit(n: nat) -> char {
    if n < 10 {
        ((n + 48) as u32) as char
    } else {
        ((n + 87) as u32) as char
    }
}

/// Lower-case hexadecimal text of a byte string: two digits per byte, high
/// nibble first, no prefix.
pub open spec fn hex_lower(data: Seq<u8>) -> Seq<char> {
    Seq::new(
        2 * data.len(),
        |i: int|
            if i % 2 == 0 {
                hex_lower_digit((data[i / 2] / 16) as nat)
            } else {
                hex_lower_digit((data[i / 2] % 16) as nat)
            },
    )
}

/// `0x` followed by the lower-case hexadecimal text of `data`.
pub open spec fn prefixed_hex(data: Seq<u8>) -> Seq<char> {
    hex_prefix() + hex_lower(data)
}

/// A byte that is an ASCII hexadecimal digit of either case.
pub open spec fn is_hex_byte(b: u8) -> bool {
    is_radix_digit(b as char, 16)
}

/// Bytes that `hex::decode` accepts: an even number of hexadecimal digits.
pub open spec fn hex_decodable(text: Seq<u8>) -> bool {
    &&& text.len() % 2 == 0
    &&& forall|i: int| 0 <= i < text.len() ==> is_hex_byte(#[trigger] text[i])
}

/// The bytes that a string of hexadecimal digits spells, two digits per byte.
pub open spec fn hex_decoded(text: Seq<u8>) -> Seq<u8> {
    Seq::new(
        text.len() / 2,
        |i: int|
            (digit_value(text[2 * i] as char) * 16 + digit_value(text[2 * i + 1] as char)) as u8,
    )
}

/// Lower-case hexadecimal text of `data`.
///
/// Calls `hex::encode`, which maps each byte to two characters of
/// `0123456789abcdef`, high nibble first (`BytesToHexChars` in hex 0.4.3).
#[verifier::external_body]
pub(crate) fn hex_encode(data: &[u8]) -> (s: String)
    ensures
        s@ == hex_lower(data@),
{
    hex::encode(data)
}

/// The error type of `hex::decode`.
#[verifier::external_type_specification]
#[verifier::external_body]
pub struct ExFromHexError(hex::FromHexError);

/// Bytes spelled by hexadecimal text.
///
/// Calls `hex::decode`, which fails on an odd length and on any byte outside
/// `0-9`, `a-f`, `A-F`, and otherwise reads each pair of digits as one byte,
/// high nibble first (`FromHex for Vec<u8>` and `val` in hex 0.4.3).
#[verifier::external_body]
pub(crate) fn hex_decode(text: &[u8]) -> (r: Result<Vec<u8>, hex::FromHexError>)
    ensures
        r is Ok <==> hex_decodable(text@),
        r matches Ok(v) ==> v@ == hex_decoded(text@),
{
    hex::decode(text)
}

/// `0x` followed by the lower-case hexadecimal text of `data`, as
/// `format!("0x{}", hex::encode(data))` writes it.
pub fn to_prefixed_hex(data: &[u8]) -> (s: String)
    ensures
        s@ == prefixed_hex(data@),
{
    let h = hex_encode(data);
    let mut out: Vec<char> = Vec::new();
    out.push('0');
    out.push('x');
    push_str_chars(&mut out, h.as_str());
    assert(out@ =~= prefixed_hex(data@));
    chars_to_string(out.as_slice())
}

/// A lower-case hex digit is a hexadecimal digit of the nibble it writes.
proof fn lemma_hex_lower_digit(n: nat)
    requires
        n < 16,
    ensures
        is_radix_digit(hex_lower_digit(n), 16),
        digit_value(hex_lower_digit(n)) == n,
        (hex_lower_digit(n) as int) < 128,
        hex_lower_digit(n) != 'x',
{
    let c = hex_lower_digit(n);
    if n < 10 {
        assert(c as int == n + 48);
    } else {
        assert(c as int == n + 87);
    }
}

/// The UTF-8 bytes of hexadecimal text written by `hex::encode` decode back
/// to the bytes it was written from.
pub proof fn lemma_hex_roundtrip(data: Seq<u8>)
    ensures
        hex_decodable(encode_utf8(hex_lower(data))),
        hex_decoded(encode_utf8(hex_lower(data))) == data,
{
    let h = hex_lower(data);
    assert forall|i: int| 0 <= i < h.len() implies is_radix_digit(#[trigger] h[i], 16) && (h[i]
        as int) < 128 by {
        lemma_hex_lower_digit((data[i / 2] / 16) as nat);
        lemma_hex_lower_digit((data[i / 2] % 16) as nat);
    }
    assert(is_ascii_chars(h));
    is_ascii_chars_encode_utf8(h);
    let b = encode_utf8(h);
    assert forall|i: int| 0 <= i < b.len() implies is_hex_byte(#[trigger] b[i]) by {
        assert(b[i] == h[i] as u8);
        assert((h[i] as u8) as char == h[i]);
    }
    assert forall|i: int| 0 <= i < data.len() implies #[trigger] hex_decoded(b)[i] == data[i] by {
        let hi = (data[i] / 16) as nat;
        let lo = (data[i] % 16) as nat;
        lemma_hex_lower_digit(hi);
        lemma_hex_lower_digit(lo);
        assert(h[2 * i] == hex_lower_digit(hi));
        assert(h[2 * i + 1] == hex_lower_digit(lo));
        assert((h[2 * i] as u8) as char == h[2 * i]);
        assert((h[2 * i + 1] as u8) as char == h[2 * i + 1]);
        assert(hi * 16 + lo == data[i]);
    }
    assert(hex_decoded(b) =~= data);
}

/// Hex text written with its `0x` prefix loses exactly that prefix when the
/// leading `0x`s are removed.
pub proof fn lemma_strip_prefixed_hex(data: Seq<u8>)
    ensures
        strip_hex_prefix(prefixed_hex(data)) == hex_lower(data),
{
    let h = hex_lower(data);
    let t = prefixed_hex(data);
    assert(t.skip(2) =~= h);
    if h.len() >= 2 {
        lemma_hex_lower_digit((data[0] % 16) as nat);
        assert(h[1] != 'x');
    }
    assert(strip_hex_prefix(h) == h);
}

} // verus!
