//! Ethereum ABI encoding: function selectors, 32-byte words, addresses and
//! the call data of the ERC-20 and Uniswap V3 calls the router makes.

use crate::crypto::{keccak256, keccak256_digest};
use crate::hexcodec::{hex_decode, hex_lower, hex_lower_digit, is_hex_byte, prefixed_hex, to_prefixed_hex};
use crate::text::{
    all_radix_digits, ascii_lower, chars_to_string, digit_value, hex_prefix, hex_prefix_end,
    is_digit_char, is_radix_digit, lower_char, str_to_chars, strip_hex_prefix,
};
use vstd::prelude::*;
use vstd::utf8::encode_utf8;

verus! {

/// Why an ABI value was refused.
#[derive(Clone, Copy, Debug, PartialEq, Eq, Structural)]
pub enum AbiError {
    /// The text is not `0x`-prefixed (or unprefixed) 40 hexadecimal digits.
    InvalidAddress,
    /// An ABI word that is not 32 bytes long.
    WordNotThirtyTwoBytes,
    /// An ABI word whose value needs more than 128 bits.
    ValueExceedsU128,
}

// ---------------------------------------------------------------------------
// Selectors
// ---------------------------------------------------------------------------

/// The 4-byte selector of a function signature: the first four bytes of the
/// Keccak-256 digest of its UTF-8 text.
pub open spec fn selector_of(signature: Seq<char>) -> Seq<u8> {
    keccak256_digest(encode_utf8(signature)).take(4)
}

/// The 4-byte selector of a function signature.
pub fn selector(signature: &str) -> (s: Vec<u8>)
    ensures
        s@ == selector_of(signature@),
        s@.len() == 4,
{
    let h = keccak256(signature.as_bytes());
    let mut s: Vec<u8> = Vec::new();
    for i in 0usize..4
        invariant
            h@.len() == 32,
            s@ == h@.take(i as int),
    {
        s.push(h[i]);
        assert(h@.take(i + 1) =~= h@.take(i as int).push(h@[i as int]));
    }
    s
}

// ---------------------------------------------------------------------------
// 32-byte words
// ---------------------------------------------------------------------------

/// 256 to the power `n`.
pub open spec fn pow256(n: nat) -> nat
    decreases n,
{
    if n == 0 {
        1
    } else {
        256 * pow256((n - 1) as nat)
    }
}

/// The `n` low-order bytes of `v`, most significant first.
pub open spec fn be_bytes(v: nat, n: nat) -> Seq<u8>
    decreases n,
{
    if n == 0 {
        Seq::empty()
    } else {
        be_bytes(v / 256, (n - 1) as nat).push((v % 256) as u8)
    }
}

/// The number that a big-endian byte string spells.
pub open spec fn be_value(s: Seq<u8>) -> nat
    decreases s.len(),
{
    if s.len() == 0 {
        0
    } else {
        be_value(s.drop_last()) * 256 + (s.last() as nat)
    }
}

/// The ABI word of an unsigned value: 32 bytes, big-endian.
pub open spec fn u128_word(v: u128) -> Seq<u8> {
    be_bytes(v as nat, 32)
}

/// The value an ABI word holds, when it fits in 128 bits.
pub open spec fn word_value(word: Seq<u8>) -> Result<u128, AbiError> {
    if word.len() != 32 {
        Err(AbiError::WordNotThirtyTwoBytes)
    } else if exists|i: int| 0 <= i < 16 && #[trigger] word[i] != 0 {
        Err(AbiError::ValueExceedsU128)
    } else {
        Ok(be_value(word) as u128)
    }
}

proof fn lemma_be_bytes_len(v: nat, n: nat)
    ensures
        be_bytes(v, n).len() == n,
    decreases n,
{
    if n > 0 {
        lemma_be_bytes_len(v / 256, (n - 1) as nat);
    }
}

proof fn lemma_pow256_pos(n: nat)
    ensures
        pow256(n) >= 1,
    decreases n,
{
    if n > 0 {
        lemma_pow256_pos((n - 1) as nat);
    }
}

/// Reading back the `n`-byte big-endian form of `v < 256^n` gives `v`.
proof fn lemma_be_value_of_bytes(v: nat, n: nat)
    requires
        v < pow256(n),
    ensures
        be_value(be_bytes(v, n)) == v,
    decreases n,
{
    if n > 0 {
        let m = (n - 1) as nat;
        assert(v / 256 < pow256(m));
        lemma_be_value_of_bytes(v / 256, m);
        lemma_be_bytes_len(v / 256, m);
        assert(be_bytes(v, n).drop_last() =~= be_bytes(v / 256, m));
    }
}

/// The `k + m`-byte form of `v < 256^k` is `m` zero bytes, then its `k`-byte form.
proof fn lemma_be_bytes_zero_prefix(v: nat, k: nat, m: nat)
    requires
        v < pow256(k),
    ensures
        be_bytes(v, k + m) =~= Seq::new(m, |i: int| 0u8) + be_bytes(v, k),
    decreases k + m,
{
    if k > 0 {
        let k1 = (k - 1) as nat;
        assert(v / 256 < pow256(k1));
        lemma_be_bytes_zero_prefix(v / 256, k1, m);
        assert((k + m - 1) as nat == k1 + m);
    } else if m > 0 {
        assert(v == 0);
        let m1 = (m - 1) as nat;
        lemma_be_bytes_zero_prefix(0, 0, m1);
        assert(be_bytes(0, 0) =~= Seq::<u8>::empty());
    }
}

proof fn lemma_pow256_16()
    ensures
        pow256(16) == u128::MAX + 1,
{
    reveal_with_fuel(pow256, 17);
}

/// Decoding the ABI word of any `u128` gives the same value back.
pub proof fn lemma_word_roundtrip(v: u128)
    ensures
        word_value(u128_word(v)) == Ok::<u128, AbiError>(v),
{
    lemma_pow256_16();
    lemma_be_bytes_zero_prefix(v as nat, 16, 16);
    lemma_be_bytes_len(v as nat, 32);
    lemma_pow256_mono(16, 32);
    lemma_be_value_of_bytes(v as nat, 32);
    let w = u128_word(v);
    assert forall|i: int| 0 <= i < 16 implies #[trigger] w[i] == 0 by {}
}

proof fn lemma_pow256_mono(a: nat, b: nat)
    requires
        a <= b,
    ensures
        pow256(a) <= pow256(b),
    decreases b,
{
    if a < b {
        lemma_pow256_mono(a, (b - 1) as nat);
        lemma_pow256_pos((b - 1) as nat);
    }
}

/// Appends the `n`-byte big-endian form of `v` to `out`.
fn push_be_bytes(out: &mut Vec<u8>, v: u128, n: usize)
    ensures
        final(out)@ == old(out)@ + be_bytes(v as nat, n as nat),
    decreases n,
{
    if n > 0 {
        push_be_bytes(out, v / 256, n - 1);
        let b = (v % 256) as u8;
        out.push(b);
        proof {
            let s = be_bytes((v / 256) as nat, (n - 1) as nat);
            assert(old(out)@ + s.push(b) =~= (old(out)@ + s).push(b));
        }
    } else {
        assert(old(out)@ + be_bytes(v as nat, 0) =~= old(out)@);
    }
}

/// Appends the ABI word of `v` to `out`.
pub(crate) fn push_word_u128(out: &mut Vec<u8>, v: u128)
    ensures
        final(out)@ == old(out)@ + u128_word(v),
        final(out)@.len() == old(out)@.len() + 32,
{
    proof {
        lemma_be_bytes_len(v as nat, 32);
    }
    push_be_bytes(out, v, 32);
}

/// The ABI word of `v`: 16 zero bytes, then `v` big-endian.
pub fn word_u128(v: u128) -> (w: Vec<u8>)
    ensures
        w@ == u128_word(v),
{
    let mut w: Vec<u8> = Vec::new();
    push_word_u128(&mut w, v);
    assert(w@ =~= u128_word(v));
    w
}

/// The `u128` an ABI word holds: the word must be 32 bytes long and its
/// first 16 bytes zero.
pub fn word_to_u128(word: &[u8]) -> (r: Result<u128, AbiError>)
    ensures
        r == word_value(word@),
{
    if word.len() != 32 {
        return Err(AbiError::WordNotThirtyTwoBytes);
    }
    for i in 0usize..16
        invariant
            word@.len() == 32,
            forall|j: int| 0 <= j < i ==> #[trigger] word@[j] == 0,
    {
        if word[i] != 0 {
            return Err(AbiError::ValueExceedsU128);
        }
    }
    proof {
        lemma_pow256_16();
    }
    let mut acc: u128 = 0;
    for i in 0usize..32
        invariant
            word@.len() == 32,
            forall|j: int| 0 <= j < 16 ==> #[trigger] word@[j] == 0,
            pow256(16) == u128::MAX + 1,
            acc as nat == be_value(word@.take(i as int)),
            i <= 16 ==> acc == 0,
            i > 16 ==> acc < pow256((i - 16) as nat),
    {
        let ghost pre = word@.take(i as int);
        assert(word@.take(i + 1).drop_last() =~= pre);
        if i >= 16 {
            proof {
                lemma_pow256_mono((i + 1 - 16) as nat, 16nat);
                if i == 16 {
                    assert(pow256(1) == 256) by {
                        reveal_with_fuel(pow256, 2);
                    }
                }
            }
        }
        acc = acc * 256 + word[i] as u128;
    }
    assert(word@.take(32) =~= word@);
    Ok(acc)
}

/// A copy of `src[lo..hi]`.
pub(crate) fn copy_range(src: &[u8], lo: usize, hi: usize) -> (v: Vec<u8>)
    requires
        lo <= hi <= src@.len(),
    ensures
        v@ == src@.subrange(lo as int, hi as int),
{
    let mut v: Vec<u8> = Vec::new();
    for i in lo..hi
        invariant
            hi <= src@.len(),
            v@ == src@.subrange(lo as int, i as int),
    {
        v.push(src[i]);
        assert(src@.subrange(lo as int, i + 1) =~= src@.subrange(lo as int, i as int).push(
            src@[i as int],
        ));
    }
    v
}

// ---------------------------------------------------------------------------
// Addresses
// ---------------------------------------------------------------------------

/// The hexadecimal digits of an address: the text after its leading `0x`s.
pub open spec fn address_digits(addr: Seq<char>) -> Seq<char> {
    strip_hex_prefix(addr)
}

/// An EVM address: after the leading `0x`s, exactly 40 hexadecimal digits.
pub open spec fn is_valid_address(addr: Seq<char>) -> bool {
    let h = address_digits(addr);
    h.len() == 40 && all_radix_digits(h, 16)
}

/// The canonical text of an address: `0x` and its digits in lower case.
pub open spec fn normalized_address(addr: Seq<char>) -> Seq<char> {
    hex_prefix() + address_digits(addr).map_values(|c: char| ascii_lower(c))
}

/// The 20 bytes an address spells.
pub open spec fn address_bytes(addr: Seq<char>) -> Seq<u8> {
    let h = address_digits(addr);
    Seq::new(20, |i: int| (digit_value(h[2 * i]) * 16 + digit_value(h[2 * i + 1])) as u8)
}

/// The ABI word of an address: 12 zero bytes, then its 20 bytes.
pub open spec fn address_word(addr: Seq<char>) -> Seq<u8> {
    Seq::new(12, |i: int| 0u8) + address_bytes(addr)
}

/// Checks an EVM address and writes it as `0x` and 40 lower-case digits.
pub fn normalize_address(addr: &str) -> (r: Result<String, AbiError>)
    ensures
        r is Ok <==> is_valid_address(addr@),
        r matches Ok(s) ==> s@ == normalized_address(addr@),
        r matches Err(e) ==> e == AbiError::InvalidAddress,
{
    let chars = str_to_chars(addr);
    let start = hex_prefix_end(chars.as_slice());
    let n = chars.len();
    let ghost h = address_digits(addr@);
    if n - start != 40 {
        return Err(AbiError::InvalidAddress);
    }
    let mut out: Vec<char> = Vec::new();
    out.push('0');
    out.push('x');
    for i in start..n
        invariant
            n == chars@.len(),
            chars@ == addr@,
            h == chars@.skip(start as int),
            h == address_digits(addr@),
            n - start == 40,
            all_radix_digits(h.take(i - start), 16),
            out@ =~= hex_prefix() + h.take(i - start).map_values(|c: char| ascii_lower(c)),
    {
        let c = chars[i];
        assert(h[i - start] == c);
        if !is_digit_char(c, 16) {
            assert(!is_radix_digit(h[i - start], 16));
            return Err(AbiError::InvalidAddress);
        }
        out.push(lower_char(c));
        assert(h.take(i + 1 - start) =~= h.take(i - start).push(c));
    }
    assert(h.take(40) =~= h);
    Ok(chars_to_string(out.as_slice()))
}

/// Lower-casing keeps the value of a hexadecimal digit.
proof fn lemma_lower_digit(c: char)
    requires
        is_radix_digit(c, 16),
    ensures
        is_radix_digit(ascii_lower(c), 16),
        digit_value(ascii_lower(c)) == digit_value(c),
        ascii_lower(c) != 'x',
        (ascii_lower(c) as int) < 128,
{
}

/// The normalized text of a valid address is valid, normalizes to itself and
/// spells the same bytes.
pub proof fn lemma_normalize_idempotent(addr: Seq<char>)
    requires
        is_valid_address(addr),
    ensures
        is_valid_address(normalized_address(addr)),
        normalized_address(normalized_address(addr)) == normalized_address(addr),
        address_bytes(normalized_address(addr)) == address_bytes(addr),
        address_digits(normalized_address(addr)) == address_digits(addr).map_values(
            |c: char| ascii_lower(c),
        ),
{
    let h = address_digits(addr);
    let l = h.map_values(|c: char| ascii_lower(c));
    let n = normalized_address(addr);
    assert forall|i: int| 0 <= i < 40 implies is_radix_digit(#[trigger] l[i], 16) && digit_value(
        l[i],
    ) == digit_value(h[i]) && l[i] != 'x' by {
        assert(is_radix_digit(h[i], 16));
        lemma_lower_digit(h[i]);
    }
    assert(n.skip(2) =~= l);
    assert(l[1] != 'x');
    assert(strip_hex_prefix(n) == strip_hex_prefix(l));
    assert(strip_hex_prefix(l) == l);
    assert(all_radix_digits(l, 16));
    assert forall|i: int| 0 <= i < 40 implies ascii_lower(#[trigger] l[i]) == l[i] by {
        lemma_lower_digit(h[i]);
    }
    assert(l.map_values(|c: char| ascii_lower(c)) =~= l);
    assert(address_bytes(n) =~= address_bytes(addr));
}

/// The ABI word of an address: 12 zero bytes and the 20 address bytes.
pub fn word_address(addr: &str) -> (r: Result<Vec<u8>, AbiError>)
    ensures
        r is Ok <==> is_valid_address(addr@),
        r matches Ok(w) ==> w@ == address_word(addr@),
        r matches Err(e) ==> e == AbiError::InvalidAddress,
{
    let norm = match normalize_address(addr) {
        Ok(s) => s,
        Err(e) => {
            return Err(e);
        },
    };
    proof {
        lemma_normalize_idempotent(addr@);
    }
    let nchars = str_to_chars(norm.as_str());
    let start = hex_prefix_end(nchars.as_slice());
    let ghost l = address_digits(addr@).map_values(|c: char| ascii_lower(c));
    assert(nchars@.skip(start as int) == l);
    let n = nchars.len();
    let mut text: Vec<u8> = Vec::new();
    for i in start..n
        invariant
            n == nchars@.len(),
            l == nchars@.skip(start as int),
            l.len() == 40,
            all_radix_digits(l, 16),
            forall|j: int| 0 <= j < 40 ==> (#[trigger] l[j] as int) < 128,
            text@.len() == i - start,
            forall|j: int| 0 <= j < i - start ==> #[trigger] text@[j] as char == l[j],
    {
        let c = nchars[i];
        assert(l[i - start] == c);
        assert((c as int) < 128);
        let b = c as u8;
        assert(b as char == c);
        text.push(b);
    }
    proof {
        assert forall|j: int| 0 <= j < text@.len() implies is_hex_byte(#[trigger] text@[j]) by {
            assert(is_radix_digit(l[j], 16));
        }
    }
    match hex_decode(text.as_slice()) {
        Ok(raw) => {
            let mut w: Vec<u8> = Vec::new();
            for _i in 0usize..12
                invariant
                    w@ =~= Seq::new(w@.len(), |i: int| 0u8),
                    w@.len() == _i,
            {
                w.push(0u8);
            }
            let mut k: usize = 0;
            let rl = raw.len();
            while k < rl
                invariant
                    rl == raw@.len(),
                    k <= rl,
                    w@ =~= Seq::new(12, |i: int| 0u8) + raw@.take(k as int),
                decreases rl - k,
            {
                w.push(raw[k]);
                assert(raw@.take(k + 1) =~= raw@.take(k as int).push(raw@[k as int]));
                k = k + 1;
            }
            assert(raw@.take(rl as int) =~= raw@);
            proof {
                let h = address_digits(addr@);
                assert forall|i: int| 0 <= i < 20 implies #[trigger] raw@[i] == address_bytes(
                    addr@,
                )[i] by {
                    lemma_lower_digit(h[2 * i]);
                    lemma_lower_digit(h[2 * i + 1]);
                    assert(text@[2 * i] as char == l[2 * i]);
                    assert(text@[2 * i + 1] as char == l[2 * i + 1]);
                }
                assert(raw@ =~= address_bytes(addr@));
            }
            Ok(w)
        },
        Err(_) => {
            assert(false);
            Err(AbiError::InvalidAddress)
        },
    }
}

// ---------------------------------------------------------------------------
// Call data
// ---------------------------------------------------------------------------

/// Call data of ERC-20 `approve(spender, amount)`.
pub open spec fn approve_calldata(spender: Seq<char>, amount: u128) -> Seq<u8> {
    selector_of("approve(address,uint256)"@) + address_word(spender) + u128_word(amount)
}

/// Call data of ERC-20 `allowance(owner, spender)`.
pub open spec fn allowance_calldata(owner: Seq<char>, spender: Seq<char>) -> Seq<u8> {
    selector_of("allowance(address,address)"@) + address_word(owner) + address_word(spender)
}

/// Call data of SwapRouter02 `exactInputSingle` with a zero price limit.
pub open spec fn exact_input_single_calldata(
    token_in: Seq<char>,
    token_out: Seq<char>,
    fee: u32,
    recipient: Seq<char>,
    amount_in: u128,
    amount_out_min: u128,
) -> Seq<u8> {
    selector_of("exactInputSingle((address,address,uint24,address,uint256,uint256,uint160))"@)
        + address_word(token_in) + address_word(token_out) + u128_word(fee as u128)
        + address_word(recipient) + u128_word(amount_in) + u128_word(amount_out_min) + u128_word(0)
}

proof fn lemma_u128_word_len(v: u128)
    ensures
        u128_word(v).len() == 32,
{
    lemma_be_bytes_len(v as nat, 32);
}

/// The last word of `approve` call data holds the whole amount, and the word
/// before it is the spender's address word.
pub proof fn lemma_approve_calldata_words(spender: Seq<char>, amount: u128)
    ensures
        ({
            let c = approve_calldata(spender, amount);
            let n = c.len() as int;
            &&& n >= 64
            &&& word_value(c.subrange(n - 32, n)) == Ok::<u128, AbiError>(amount)
            &&& c.subrange(n - 64, n - 32) == address_word(spender)
            &&& c.subrange(0, n - 64) == selector_of("approve(address,uint256)"@)
        }),
{
    lemma_u128_word_len(amount);
    lemma_word_roundtrip(amount);
    let c = approve_calldata(spender, amount);
    let n = c.len() as int;
    let sel = selector_of("approve(address,uint256)"@);
    assert(c.subrange(n - 32, n) =~= u128_word(amount));
    assert(c.subrange(n - 64, n - 32) =~= address_word(spender));
    assert(c.subrange(0, n - 64) =~= sel);
}

/// The two words of `allowance` call data are the owner's and the spender's
/// address words, in that order.
pub proof fn lemma_allowance_calldata_words(owner: Seq<char>, spender: Seq<char>)
    ensures
        ({
            let c = allowance_calldata(owner, spender);
            let n = c.len() as int;
            &&& n >= 64
            &&& c.subrange(n - 32, n) == address_word(spender)
            &&& c.subrange(n - 64, n - 32) == address_word(owner)
            &&& c.subrange(0, n - 64) == selector_of("allowance(address,address)"@)
        }),
{
    let c = allowance_calldata(owner, spender);
    let n = c.len() as int;
    assert(c.subrange(n - 32, n) =~= address_word(spender));
    assert(c.subrange(n - 64, n - 32) =~= address_word(owner));
    assert(c.subrange(0, n - 64) =~= selector_of("allowance(address,address)"@));
}

/// The seven words of `exactInputSingle` call data, in order: the input and
/// output tokens, the fee tier, the recipient, the whole input amount, the
/// whole minimum output, and a zero price limit.
pub proof fn lemma_exact_input_single_calldata_words(
    token_in: Seq<char>,
    token_out: Seq<char>,
    fee: u32,
    recipient: Seq<char>,
    amount_in: u128,
    amount_out_min: u128,
)
    ensures
        ({
            let c = exact_input_single_calldata(
                token_in,
                token_out,
                fee,
                recipient,
                amount_in,
                amount_out_min,
            );
            let n = c.len() as int;
            &&& n >= 224
            &&& c.subrange(n - 224, n - 192) == address_word(token_in)
            &&& c.subrange(n - 192, n - 160) == address_word(token_out)
            &&& word_value(c.subrange(n - 160, n - 128)) == Ok::<u128, AbiError>(fee as u128)
            &&& c.subrange(n - 128, n - 96) == address_word(recipient)
            &&& word_value(c.subrange(n - 96, n - 64)) == Ok::<u128, AbiError>(amount_in)
            &&& word_value(c.subrange(n - 64, n - 32)) == Ok::<u128, AbiError>(amount_out_min)
            &&& word_value(c.subrange(n - 32, n)) == Ok::<u128, AbiError>(0)
            &&& c.subrange(0, n - 224) == selector_of(
                "exactInputSingle((address,address,uint24,address,uint256,uint256,uint160))"@,
            )
        }),
{
    lemma_u128_word_len(fee as u128);
    lemma_u128_word_len(amount_in);
    lemma_u128_word_len(amount_out_min);
    lemma_u128_word_len(0);
    lemma_word_roundtrip(fee as u128);
    lemma_word_roundtrip(amount_in);
    lemma_word_roundtrip(amount_out_min);
    lemma_word_roundtrip(0);
    let c = exact_input_single_calldata(
        token_in,
        token_out,
        fee,
        recipient,
        amount_in,
        amount_out_min,
    );
    let n = c.len() as int;
    assert(c.subrange(n - 224, n - 192) =~= address_word(token_in));
    assert(c.subrange(n - 192, n - 160) =~= address_word(token_out));
    assert(c.subrange(n - 160, n - 128) =~= u128_word(fee as u128));
    assert(c.subrange(n - 128, n - 96) =~= address_word(recipient));
    assert(c.subrange(n - 96, n - 64) =~= u128_word(amount_in));
    assert(c.subrange(n - 64, n - 32) =~= u128_word(amount_out_min));
    assert(c.subrange(n - 32, n) =~= u128_word(0));
    assert(c.subrange(0, n - 224) =~= selector_of(
        "exactInputSingle((address,address,uint24,address,uint256,uint256,uint160))"@,
    ));
}

/// A hexadecimal digit written back in lower case is the digit in lower case.
proof fn lemma_hex_digit_rewrite(c: char)
    requires
        is_radix_digit(c, 16),
    ensures
        hex_lower_digit(digit_value(c)) == ascii_lower(c),
{
    let d = digit_value(c);
    if '0' <= c && c <= '9' {
        assert(hex_lower_digit(d) as int == c as int);
    } else if 'a' <= c && c <= 'f' {
        assert(hex_lower_digit(d) as int == c as int);
    } else {
        assert(hex_lower_digit(d) as int == c as int + 32);
    }
}

/// The 20 bytes of a valid address, written as `0x` and lower-case hex, are
/// its normalized text: the address word carries exactly the address given.
pub proof fn lemma_address_bytes_hex(addr: Seq<char>)
    requires
        is_valid_address(addr),
    ensures
        prefixed_hex(address_bytes(addr)) == normalized_address(addr),
        address_word(addr).len() == 32,
        address_word(addr).take(12) == Seq::new(12, |i: int| 0u8),
{
    let h = address_digits(addr);
    let b = address_bytes(addr);
    assert forall|i: int| 0 <= i < 40 implies #[trigger] hex_lower(b)[i] == ascii_lower(h[i]) by {
        let k = i / 2;
        assert(is_radix_digit(h[2 * k], 16));
        assert(is_radix_digit(h[2 * k + 1], 16));
        let hi = digit_value(h[2 * k]);
        let lo = digit_value(h[2 * k + 1]);
        assert(hi < 16 && lo < 16);
        assert(b[k] == (hi * 16 + lo) as u8);
        assert(b[k] / 16 == hi);
        assert(b[k] % 16 == lo);
        lemma_hex_digit_rewrite(h[2 * k]);
        lemma_hex_digit_rewrite(h[2 * k + 1]);
        if i % 2 == 0 {
            assert(i == 2 * k);
        } else {
            assert(i == 2 * k + 1);
        }
    }
    assert(hex_lower(b) =~= h.map_values(|c: char| ascii_lower(c)));
    assert(address_word(addr).take(12) =~= Seq::new(12, |i: int| 0u8));
}

/// Appends the ABI word of an address to `out`.
pub(crate) fn push_word_address(out: &mut Vec<u8>, addr: &str) -> (r: Result<(), AbiError>)
    ensures
        r is Ok <==> is_valid_address(addr@),
        r is Ok ==> final(out)@ == old(out)@ + address_word(addr@),
        r is Ok ==> final(out)@.len() == old(out)@.len() + 32,
        r matches Err(e) ==> e == AbiError::InvalidAddress,
{
    let w = match word_address(addr) {
        Ok(w) => w,
        Err(e) => {
            return Err(e);
        },
    };
    let n = w.len();
    for i in 0..n
        invariant
            n == w@.len(),
            out@ == old(out)@ + w@.take(i as int),
    {
        out.push(w[i]);
        assert(w@.take(i + 1) =~= w@.take(i as int).push(w@[i as int]));
    }
    assert(w@.take(n as int) =~= w@);
    Ok(())
}

/// `0x`-prefixed hex call data of ERC-20 `approve(spender, amount)`.
pub fn encode_approve(spender: &str, amount: u128) -> (r: Result<String, AbiError>)
    ensures
        r is Ok <==> is_valid_address(spender@),
        r matches Ok(s) ==> s@ == prefixed_hex(approve_calldata(spender@, amount)),
        r matches Ok(s) ==> s@.len() == 138,
        r matches Err(e) ==> e == AbiError::InvalidAddress,
{
    let mut data = selector("approve(address,uint256)");
    match push_word_address(&mut data, spender) {
        Ok(()) => {},
        Err(e) => {
            return Err(e);
        },
    }
    push_word_u128(&mut data, amount);
    Ok(to_prefixed_hex(data.as_slice()))
}

/// `0x`-prefixed hex call data of ERC-20 `allowance(owner, spender)`.
pub fn encode_allowance(owner: &str, spender: &str) -> (r: Result<String, AbiError>)
    ensures
        r is Ok <==> is_valid_address(owner@) && is_valid_address(spender@),
        r matches Ok(s) ==> s@ == prefixed_hex(allowance_calldata(owner@, spender@)),
        r matches Ok(s) ==> s@.len() == 138,
        r matches Err(e) ==> e == AbiError::InvalidAddress,
{
    let mut data = selector("allowance(address,address)");
    match push_word_address(&mut data, owner) {
        Ok(()) => {},
        Err(e) => {
            return Err(e);
        },
    }
    match push_word_address(&mut data, spender) {
        Ok(()) => {},
        Err(e) => {
            return Err(e);
        },
    }
    Ok(to_prefixed_hex(data.as_slice()))
}

/// `0x`-prefixed hex call data of SwapRouter02
/// `exactInputSingle((tokenIn, tokenOut, fee, recipient, amountIn,
/// amountOutMinimum, sqrtPriceLimitX96 = 0))`.
pub fn encode_exact_input_single(
    token_in: &str,
    token_out: &str,
    fee: u32,
    recipient: &str,
    amount_in: u128,
    amount_out_min: u128,
) -> (r: Result<String, AbiError>)
    ensures
        r is Ok <==> is_valid_address(token_in@) && is_valid_address(token_out@)
            && is_valid_address(recipient@),
        r matches Ok(s) ==> s@ == prefixed_hex(
            exact_input_single_calldata(
                token_in@,
                token_out@,
                fee,
                recipient@,
                amount_in,
                amount_out_min,
            ),
        ),
        r matches Ok(s) ==> s@.len() == 458,
        r matches Err(e) ==> e == AbiError::InvalidAddress,
{
    let mut data = selector(
        "exactInputSingle((address,address,uint24,address,uint256,uint256,uint160))",
    );
    match push_word_address(&mut data, token_in) {
        Ok(()) => {},
        Err(e) => {
            return Err(e);
        },
    }
    match push_word_address(&mut data, token_out) {
        Ok(()) => {},
        Err(e) => {
            return Err(e);
        },
    }
    push_word_u128(&mut data, fee as u128);
    match push_word_address(&mut data, recipient) {
        Ok(()) => {},
        Err(e) => {
            return Err(e);
        },
    }
    push_word_u128(&mut data, amount_in);
    push_word_u128(&mut data, amount_out_min);
    push_word_u128(&mut data, 0);
    Ok(to_prefixed_hex(data.as_slice()))
}

} // verus!
