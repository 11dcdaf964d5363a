//! Uniswap V3 on Ethereum mainnet: QuoterV2 call data and replies, fee-tier
//! selection, slippage bounds and the execution plan signed in the wallet.

use crate::abi::{
    address_word, allowance_calldata, approve_calldata, copy_range, encode_allowance,
    encode_approve, encode_exact_input_single, exact_input_single_calldata, is_valid_address,
    normalize_address, normalized_address, push_word_address, push_word_u128, selector,
    selector_of, u128_word, word_to_u128, word_value, AbiError,
};
use crate::hexcodec::{
    hex_decodable, hex_decode, hex_decoded, lemma_hex_roundtrip, lemma_strip_prefixed_hex,
    prefixed_hex, to_prefixed_hex,
};
use crate::text::{
    all_radix_digits, chars_to_string, decimal_chars, format_u128, hex_prefix_end,
    lemma_parse_decimal_roundtrip,
    parse_u128_radix, parse_u128_spec, str_to_chars, strip_hex_prefix,
};
use vstd::prelude::*;
use vstd::utf8::encode_utf8;

verus! {

/// USDT on Ethereum mainnet.
pub const MAINNET_USDT: &'static str = "0xdAC17F958D2ee523a2206206994597C13D831ec7";

/// WETH on Ethereum mainnet.
pub const MAINNET_WETH: &'static str = "0xC02aaA39b223FE8D0A0e5C4F27eAD9083C756Cc2";

/// Uniswap QuoterV2 on Ethereum mainnet.
pub const MAINNET_QUOTER_V2: &'static str = "0x61fFE014bA17989E743c5F6cB21bF9697530B21e";

/// Uniswap SwapRouter02 on Ethereum mainnet.
pub const MAINNET_SWAP_ROUTER_02: &'static str = "0x68b3465833fb72A70ecDF485E0e4C7bD8665Fc45";

/// The public Ethereum RPC endpoint used when none is configured.
pub const DEFAULT_ETH_RPC_URL: &'static str = "https://ethereum-rpc.publicnode.com";

/// Slippage tolerance, in basis points, used when none is configured.
pub const DEFAULT_SLIPPAGE_BPS: u32 = 50;

/// The mainnet tokens are valid EVM addresses.
pub proof fn lemma_mainnet_tokens_valid()
    ensures
        is_valid_address(MAINNET_USDT@),
        is_valid_address(MAINNET_WETH@),
{
    reveal_strlit("0xdAC17F958D2ee523a2206206994597C13D831ec7");
    reveal_strlit("0xC02aaA39b223FE8D0A0e5C4F27eAD9083C756Cc2");
    let u = MAINNET_USDT@;
    assert(u[0] == '0' && u[1] == 'x' && u.skip(2)[0] == 'd');
    assert(strip_hex_prefix(u.skip(2)) == u.skip(2));
    assert(strip_hex_prefix(u) == u.skip(2));
    assert(all_radix_digits(u.skip(2), 16));
    let w = MAINNET_WETH@;
    assert(w[0] == '0' && w[1] == 'x' && w.skip(2)[0] == 'C');
    assert(strip_hex_prefix(w.skip(2)) == w.skip(2));
    assert(strip_hex_prefix(w) == w.skip(2));
    assert(all_radix_digits(w.skip(2), 16));
}

/// Configuration of the Uniswap V3 venue.
#[derive(Clone, Debug)]
pub struct UniswapClient {
    /// Ethereum JSON-RPC endpoint.
    pub rpc_url: String,
    /// QuoterV2 contract address.
    pub quoter: String,
    /// SwapRouter02 contract address.
    pub router: String,
    /// Slippage tolerance in basis points.
    pub slippage_bps: u32,
}

/// What `str::parse::<u32>` gives for `s`.
pub open spec fn parse_u32_spec(s: Seq<char>) -> Option<u32> {
    match parse_u128_spec(s, 10) {
        Some(v) => if v <= u32::MAX {
            Some(v as u32)
        } else {
            None
        },
        None => None,
    }
}

/// Parses a `u32` as `str::parse::<u32>` does.
pub fn parse_u32(s: &str) -> (r: Option<u32>)
    ensures
        r == parse_u32_spec(s@),
{
    let chars = str_to_chars(s);
    match parse_u128_radix(chars.as_slice(), 10) {
        Some(v) => if v <= 0xffff_ffffu128 {
            Some(v as u32)
        } else {
            None
        },
        None => None,
    }
}

/// A configured text, or the default when it is absent.
fn text_or(value: Option<String>, default: &str) -> (s: String)
    ensures
        s@ == (match value {
            Some(v) => v@,
            None => default@,
        }),
{
    match value {
        Some(v) => v,
        None => default.to_owned(),
    }
}

impl UniswapClient {
    /// The venue configuration from the values of `ETH_RPC_URL`,
    /// `UNISWAP_QUOTER_V2`, `UNISWAP_SWAP_ROUTER_02` and `DEX_SLIPPAGE_BPS`
    /// (`None` for an unset variable): each unset text takes its mainnet
    /// default, and a slippage that is unset or not a `u32` is 50 bps.
    pub fn from_env(
        eth_rpc_url: Option<String>,
        quoter: Option<String>,
        router: Option<String>,
        slippage_bps: Option<String>,
    ) -> (c: UniswapClient)
        ensures
            c.rpc_url@ == (match eth_rpc_url {
                Some(v) => v@,
                None => DEFAULT_ETH_RPC_URL@,
            }),
            c.quoter@ == (match quoter {
                Some(v) => v@,
                None => MAINNET_QUOTER_V2@,
            }),
            c.router@ == (match router {
                Some(v) => v@,
                None => MAINNET_SWAP_ROUTER_02@,
            }),
            c.slippage_bps == (match slippage_bps {
                Some(v) => match parse_u32_spec(v@) {
                    Some(b) => b,
                    None => DEFAULT_SLIPPAGE_BPS,
                },
                None => DEFAULT_SLIPPAGE_BPS,
            }),
    {
        let slippage = match slippage_bps {
            Some(v) => match parse_u32(v.as_str()) {
                Some(b) => b,
                None => DEFAULT_SLIPPAGE_BPS,
            },
            None => DEFAULT_SLIPPAGE_BPS,
        };
        UniswapClient {
            rpc_url: text_or(eth_rpc_url, DEFAULT_ETH_RPC_URL),
            quoter: text_or(quoter, MAINNET_QUOTER_V2),
            router: text_or(router, MAINNET_SWAP_ROUTER_02),
            slippage_bps: slippage,
        }
    }
}

// ---------------------------------------------------------------------------
// QuoterV2
// ---------------------------------------------------------------------------

/// The pool fee tiers quoted, in hundredths of a basis point, in the order
/// they are tried.
pub open spec fn fee_tiers_spec() -> Seq<u32> {
    seq![100u32, 500u32, 3000u32, 10000u32]
}

/// The pool fee tiers quoted, in the order they are tried.
pub fn fee_tiers() -> (v: Vec<u32>)
    ensures
        v@ == fee_tiers_spec(),
{
    let mut v: Vec<u32> = Vec::new();
    v.push(100);
    v.push(500);
    v.push(3000);
    v.push(10000);
    assert(v@ =~= fee_tiers_spec());
    v
}

/// Call data of QuoterV2
/// `quoteExactInputSingle((USDT, WETH, amountIn, fee, sqrtPriceLimitX96 = 0))`.
pub open spec fn quote_calldata(amount_in: u128, fee: u32) -> Seq<u8> {
    selector_of("quoteExactInputSingle((address,address,uint256,uint24,uint160))"@)
        + address_word(MAINNET_USDT@) + address_word(MAINNET_WETH@) + u128_word(amount_in)
        + u128_word(fee as u128) + u128_word(0)
}

/// The five words of QuoterV2 call data, in order: USDT, WETH, the whole input
/// amount, the fee tier and a zero price limit.
pub proof fn lemma_quote_calldata_words(amount_in: u128, fee: u32)
    ensures
        ({
            let c = quote_calldata(amount_in, fee);
            let n = c.len() as int;
            &&& n >= 160
            &&& c.subrange(n - 160, n - 128) == address_word(MAINNET_USDT@)
            &&& c.subrange(n - 128, n - 96) == address_word(MAINNET_WETH@)
            &&& word_value(c.subrange(n - 96, n - 64)) == Ok::<u128, AbiError>(amount_in)
            &&& word_value(c.subrange(n - 64, n - 32)) == Ok::<u128, AbiError>(fee as u128)
            &&& word_value(c.subrange(n - 32, n)) == Ok::<u128, AbiError>(0)
            &&& c.subrange(0, n - 160) == selector_of(
                "quoteExactInputSingle((address,address,uint256,uint24,uint160))"@,
            )
        }),
{
    crate::abi::lemma_word_roundtrip(amount_in);
    crate::abi::lemma_word_roundtrip(fee as u128);
    crate::abi::lemma_word_roundtrip(0);
    let c = quote_calldata(amount_in, fee);
    let n = c.len() as int;
    assert(u128_word(amount_in).len() == 32);
    assert(u128_word(fee as u128).len() == 32);
    assert(u128_word(0).len() == 32);
    assert(c.subrange(n - 160, n - 128) =~= address_word(MAINNET_USDT@));
    assert(c.subrange(n - 128, n - 96) =~= address_word(MAINNET_WETH@));
    assert(c.subrange(n - 96, n - 64) =~= u128_word(amount_in));
    assert(c.subrange(n - 64, n - 32) =~= u128_word(fee as u128));
    assert(c.subrange(n - 32, n) =~= u128_word(0));
    assert(c.subrange(0, n - 160) =~= selector_of(
        "quoteExactInputSingle((address,address,uint256,uint24,uint160))"@,
    ));
}

/// `0x`-prefixed hex call data that asks QuoterV2 for the WETH out of
/// `amount_in` raw USDT in the pool of fee tier `fee`.
pub fn quote_call_data(amount_in: u128, fee: u32) -> (s: String)
    ensures
        s@ == prefixed_hex(quote_calldata(amount_in, fee)),
        s@.len() == 330,
{
    proof {
        lemma_mainnet_tokens_valid();
    }
    let mut data = selector("quoteExactInputSingle((address,address,uint256,uint24,uint160))");
    // Both mainnet token addresses are valid, so neither push can fail.
    let _ = push_word_address(&mut data, MAINNET_USDT);
    let _ = push_word_address(&mut data, MAINNET_WETH);
    push_word_u128(&mut data, amount_in);
    push_word_u128(&mut data, fee as u128);
    push_word_u128(&mut data, 0);
    to_prefixed_hex(data.as_slice())
}

/// Why a QuoterV2 reply was refused.
#[derive(Clone, Copy, Debug, PartialEq, Eq, Structural)]
pub enum QuoteError {
    /// The reply is not hexadecimal text of whole bytes.
    InvalidHex,
    /// The reply holds fewer than the four words QuoterV2 returns.
    ShortResponse { len: usize },
    /// A returned word does not hold a `u128`.
    Word(AbiError),
}

/// What a QuoterV2 reply says: `(amountOut, gasEstimate)` from its first and
/// fourth words.
pub open spec fn quote_reply_value(reply: Seq<char>) -> Result<(u128, u128), QuoteError> {
    let text = encode_utf8(strip_hex_prefix(reply));
    if !hex_decodable(text) {
        Err(QuoteError::InvalidHex)
    } else {
        let b = hex_decoded(text);
        if b.len() < 128 {
            Err(QuoteError::ShortResponse { len: b.len() as usize })
        } else {
            match word_value(b.subrange(0, 32)) {
                Err(e) => Err(QuoteError::Word(e)),
                Ok(out) => match word_value(b.subrange(96, 128)) {
                    Err(e) => Err(QuoteError::Word(e)),
                    Ok(gas) => Ok((out, gas)),
                },
            }
        }
    }
}

/// Reads `(amountOut, gasEstimate)` from the hex reply of a QuoterV2
/// `quoteExactInputSingle` call.
pub fn decode_quote_reply(reply: &str) -> (r: Result<(u128, u128), QuoteError>)
    ensures
        r == quote_reply_value(reply@),
{
    let chars = str_to_chars(reply);
    let start = hex_prefix_end(chars.as_slice());
    let n = chars.len();
    let mut digits: Vec<char> = Vec::new();
    for i in start..n
        invariant
            n == chars@.len(),
            digits@ == chars@.subrange(start as int, i as int),
    {
        digits.push(chars[i]);
        assert(chars@.subrange(start as int, i + 1) =~= chars@.subrange(start as int, i as int).push(
            chars@[i as int],
        ));
    }
    assert(digits@ =~= strip_hex_prefix(reply@));
    let text = chars_to_string(digits.as_slice());
    let bytes = match hex_decode(text.as_str().as_bytes()) {
        Ok(b) => b,
        Err(_) => {
            return Err(QuoteError::InvalidHex);
        },
    };
    if bytes.len() < 128 {
        return Err(QuoteError::ShortResponse { len: bytes.len() });
    }
    let w0 = copy_range(bytes.as_slice(), 0, 32);
    let amount_out = match word_to_u128(w0.as_slice()) {
        Ok(v) => v,
        Err(e) => {
            return Err(QuoteError::Word(e));
        },
    };
    let w3 = copy_range(bytes.as_slice(), 96, 128);
    let gas_estimate = match word_to_u128(w3.as_slice()) {
        Ok(v) => v,
        Err(e) => {
            return Err(QuoteError::Word(e));
        },
    };
    Ok((amount_out, gas_estimate))
}

/// A reply made of the four QuoterV2 words `amountOut`, two words of any
/// content and `gasEstimate`, written as `0x` hex, reads back as
/// `(amountOut, gasEstimate)`.
pub proof fn lemma_quote_reply_roundtrip(amount_out: u128, w1: Seq<u8>, w2: Seq<u8>, gas: u128)
    requires
        w1.len() == 32,
        w2.len() == 32,
    ensures
        quote_reply_value(
            prefixed_hex(u128_word(amount_out) + w1 + w2 + u128_word(gas)),
        ) == Ok::<(u128, u128), QuoteError>((amount_out, gas)),
{
    let data = u128_word(amount_out) + w1 + w2 + u128_word(gas);
    lemma_strip_prefixed_hex(data);
    lemma_hex_roundtrip(data);
    crate::abi::lemma_word_roundtrip(amount_out);
    crate::abi::lemma_word_roundtrip(gas);
    assert(data.subrange(0, 32) =~= u128_word(amount_out));
    assert(data.subrange(96, 128) =~= u128_word(gas));
}

/// A usable QuoterV2 quote for one fee tier.
#[derive(Clone, Copy, Debug, PartialEq, Eq, Structural)]
pub struct TierQuote {
    pub fee_tier: u32,
    pub amount_out: u128,
    pub gas_estimate: u128,
}

/// `q` is the first quote of `quotes` with the largest positive output.
pub open spec fn is_best_quote(quotes: Seq<TierQuote>, q: TierQuote) -> bool {
    exists|i: int|
        #![trigger quotes[i]]
        0 <= i < quotes.len() && quotes[i] == q && q.amount_out > 0 && (forall|j: int|
            0 <= j < quotes.len() ==> #[trigger] quotes[j].amount_out <= q.amount_out) && (forall|
            j: int,
        | 0 <= j < i ==> #[trigger] quotes[j].amount_out < q.amount_out)
}

/// The quote to route through: among the quotes that succeeded, in fee-tier
/// order, the first one with the largest positive `amountOut`; `None` when
/// no quote has a positive output.
pub fn select_best_quote(quotes: &[TierQuote]) -> (r: Option<TierQuote>)
    ensures
        r is None <==> forall|j: int| 0 <= j < quotes@.len() ==> #[trigger] quotes@[j].amount_out
            == 0,
        r matches Some(q) ==> is_best_quote(quotes@, q),
{
    let n = quotes.len();
    let mut best: Option<TierQuote> = None;
    let ghost mut best_i: int = 0;
    for i in 0..n
        invariant
            n == quotes@.len(),
            best is None ==> forall|j: int| 0 <= j < i ==> #[trigger] quotes@[j].amount_out == 0,
            best matches Some(b) ==> {
                &&& 0 <= best_i < i
                &&& quotes@[best_i] == b
                &&& b.amount_out > 0
                &&& forall|j: int| 0 <= j < i ==> #[trigger] quotes@[j].amount_out <= b.amount_out
                &&& forall|j: int| 0 <= j < best_i ==> #[trigger] quotes@[j].amount_out
                    < b.amount_out
            },
    {
        let q = quotes[i];
        let better = match best {
            None => q.amount_out > 0,
            Some(b) => q.amount_out > 0 && q.amount_out > b.amount_out,
        };
        if better {
            best = Some(q);
            proof {
                best_i = i as int;
            }
        }
    }
    proof {
        if let Some(b) = best {
            assert(quotes@[best_i] == b);
        }
    }
    best
}

// ---------------------------------------------------------------------------
// Quote metadata
// ---------------------------------------------------------------------------

/// Metadata of the chosen Uniswap quote, carried into the execution plan.
#[derive(Clone, Debug, PartialEq, Eq)]
pub struct UniswapQuoteMeta {
    pub fee_tier: u32,
    pub amount_in_raw: String,
    pub amount_out_raw: String,
    pub amount_out_min_raw: String,
    pub gas_estimate: u128,
    pub gas_price_wei: u128,
}

/// The least output accepted: `amountOut * (10000 - slippage) / 10000`, where
/// the subtraction stops at zero and the product stops at `u128::MAX`.
pub open spec fn amount_out_min_spec(amount_out: u128, slippage_bps: u32) -> u128 {
    let keep: int = if slippage_bps >= 10000 {
        0
    } else {
        10000 - slippage_bps
    };
    let product: int = amount_out * keep;
    let capped: int = if product > u128::MAX {
        u128::MAX as int
    } else {
        product
    };
    (capped / 10000) as u128
}

/// The least output accepted for `amount_out` under `slippage_bps`.
pub fn amount_out_min(amount_out: u128, slippage_bps: u32) -> (m: u128)
    ensures
        m == amount_out_min_spec(amount_out, slippage_bps),
{
    let keep: u128 = 10_000u128.saturating_sub(slippage_bps as u128);
    let product: u128 = match amount_out.checked_mul(keep) {
        Some(p) => p,
        None => u128::MAX,
    };
    product / 10_000u128
}

/// The accepted minimum never exceeds the quoted output; it equals the output
/// when no slippage is allowed and `amountOut * 10000` does not saturate, and
/// it is zero when the slippage is 100% or more.
pub proof fn lemma_amount_out_min_bounded(amount_out: u128, slippage_bps: u32)
    ensures
        amount_out_min_spec(amount_out, slippage_bps) <= amount_out,
        slippage_bps == 0 && amount_out <= u128::MAX / 10000 ==> amount_out_min_spec(
            amount_out,
            slippage_bps,
        ) == amount_out,
        slippage_bps >= 10000 ==> amount_out_min_spec(amount_out, slippage_bps) == 0,
{
    let keep: int = if slippage_bps >= 10000 {
        0
    } else {
        10000 - slippage_bps
    };
    let a = amount_out as int;
    assert(0 <= keep <= 10000);
    assert(a * keep <= a * 10000) by (nonlinear_arith)
        requires
            0 <= keep <= 10000,
            a >= 0,
    ;
    assert((a * 10000) / 10000 == a) by (nonlinear_arith);
    if a * keep > u128::MAX {
        assert((u128::MAX as int) / 10000 <= (a * 10000) / 10000) by (nonlinear_arith)
            requires
                a * keep > u128::MAX,
                a * keep <= a * 10000,
        ;
    } else {
        assert((a * keep) / 10000 <= (a * 10000) / 10000) by (nonlinear_arith)
            requires
                a * keep <= a * 10000,
                a * keep >= 0,
        ;
    }
}

/// Below 100% slippage and without saturation, the minimum is the floor of
/// `amountOut * (10000 - slippage) / 10000`.
pub proof fn lemma_amount_out_min_floor(amount_out: u128, slippage_bps: u32)
    requires
        slippage_bps < 10000,
        amount_out * (10000 - slippage_bps) <= u128::MAX,
    ensures
        amount_out_min_spec(amount_out, slippage_bps) * 10000 <= amount_out * (10000
            - slippage_bps),
        amount_out * (10000 - slippage_bps) < (amount_out_min_spec(amount_out, slippage_bps) + 1)
            * 10000,
{
    let p: int = amount_out * (10000 - slippage_bps);
    let m = amount_out_min_spec(amount_out, slippage_bps);
    assert(m == p / 10000);
    assert((p / 10000) * 10000 <= p < (p / 10000 + 1) * 10000) by (nonlinear_arith)
        requires
            p >= 0,
    ;
}

/// A larger slippage tolerance accepts a strictly smaller minimum, once the
/// output is at least 10000 raw units and the product does not saturate.
pub proof fn lemma_amount_out_min_decreasing(amount_out: u128, s1: u32, s2: u32)
    requires
        s1 < s2,
        s1 < 10000,
        amount_out >= 10000,
        amount_out * (10000 - s1) <= u128::MAX,
    ensures
        amount_out_min_spec(amount_out, s2) < amount_out_min_spec(amount_out, s1),
{
    let a = amount_out as int;
    let k1: int = 10000 - s1;
    let k2: int = if s2 >= 10000 {
        0
    } else {
        10000 - s2
    };
    assert(0 <= k2 < k1);
    assert(a * k2 <= a * k1 - a) by (nonlinear_arith)
        requires
            0 <= k2 < k1,
            a >= 0,
    ;
    assert(a * k2 >= 0) by (nonlinear_arith)
        requires
            k2 >= 0,
            a >= 0,
    ;
    assert((a * k2) / 10000 < (a * k1) / 10000) by (nonlinear_arith)
        requires
            a * k2 <= a * k1 - a,
            a >= 10000,
            a * k2 >= 0,
    ;
}

impl UniswapClient {
    /// Metadata of the chosen quote: its fee tier, the raw amounts in decimal
    /// text, the least output accepted under this venue's slippage, and the
    /// gas figures.
    pub fn quote_meta(&self, amount_in: u128, best: &TierQuote, gas_price_wei: u128) -> (m:
        UniswapQuoteMeta)
        ensures
            m.fee_tier == best.fee_tier,
            m.amount_in_raw@ == decimal_chars(amount_in as nat),
            m.amount_out_raw@ == decimal_chars(best.amount_out as nat),
            m.amount_out_min_raw@ == decimal_chars(
                amount_out_min_spec(best.amount_out, self.slippage_bps) as nat,
            ),
            m.gas_estimate == best.gas_estimate,
            m.gas_price_wei == gas_price_wei,
    {
        let min_out = amount_out_min(best.amount_out, self.slippage_bps);
        UniswapQuoteMeta {
            fee_tier: best.fee_tier,
            amount_in_raw: format_u128(amount_in),
            amount_out_raw: format_u128(best.amount_out),
            amount_out_min_raw: format_u128(min_out),
            gas_estimate: best.gas_estimate,
            gas_price_wei,
        }
    }
}

// ---------------------------------------------------------------------------
// Execution plan
// ---------------------------------------------------------------------------

/// What the wallet needs to swap on Uniswap: the chain, the tokens, the
/// router, the amounts, and the call data of the allowance check, of the two
/// approvals (reset to zero, then the amount) and of the swap.
#[derive(Clone, Debug, PartialEq, Eq)]
pub struct DexExecutionPlan {
    pub chain_id_hex: String,
    pub token_in: String,
    pub token_out: String,
    pub router: String,
    pub amount_in_raw: String,
    pub amount_out_min_raw: String,
    pub fee_tier: u32,
    pub allowance_data: String,
    pub approve_zero_data: String,
    pub approve_amount_data: String,
    pub swap_data: String,
    pub value: String,
}

/// Why no execution plan could be built.
#[derive(Clone, Copy, Debug, PartialEq, Eq, Structural)]
pub enum PlanError {
    /// The recipient wallet is not an EVM address.
    InvalidRecipient,
    /// The quoted input amount is not a `u128` in decimal.
    InvalidAmountIn,
    /// The quoted minimum output is not a `u128` in decimal.
    InvalidAmountOutMin,
    /// The configured router is not an EVM address.
    InvalidRouter,
}

/// The decimal amount a text holds (meaningful when it parses).
pub open spec fn raw_amount(text: Seq<char>) -> u128 {
    parse_u128_spec(text, 10)->0
}

/// Parses a decimal `u128`.
fn parse_amount(s: &String) -> (r: Option<u128>)
    ensures
        r == parse_u128_spec(s@, 10),
{
    let chars = str_to_chars(s.as_str());
    parse_u128_radix(chars.as_slice(), 10)
}

/// Why no plan can be built for `recipient` from `meta` through `router`:
/// the first failing check among the recipient address, the input amount, the
/// minimum output and the router address; `None` when all pass.
pub open spec fn plan_error(router: Seq<char>, recipient: Seq<char>, meta: UniswapQuoteMeta) -> Option<
    PlanError,
> {
    if !is_valid_address(recipient) {
        Some(PlanError::InvalidRecipient)
    } else if parse_u128_spec(meta.amount_in_raw@, 10) is None {
        Some(PlanError::InvalidAmountIn)
    } else if parse_u128_spec(meta.amount_out_min_raw@, 10) is None {
        Some(PlanError::InvalidAmountOutMin)
    } else if !is_valid_address(router) {
        Some(PlanError::InvalidRouter)
    } else {
        None
    }
}

/// `p` is the plan for `recipient` from `meta` through `router`: USDT in,
/// WETH out to the normalized recipient, mainnet, no ETH value, and the call
/// data of the allowance check, of the approvals of zero and of the input
/// amount, and of `exactInputSingle` with the quoted amounts.
pub open spec fn is_execution_plan(
    router: Seq<char>,
    recipient: Seq<char>,
    meta: UniswapQuoteMeta,
    p: DexExecutionPlan,
) -> bool {
    let to = normalized_address(recipient);
    let amount_in = raw_amount(meta.amount_in_raw@);
    let amount_out_min = raw_amount(meta.amount_out_min_raw@);
    &&& p.chain_id_hex@ == "0x1"@
    &&& p.token_in@ == MAINNET_USDT@
    &&& p.token_out@ == MAINNET_WETH@
    &&& p.router@ == router
    &&& p.amount_in_raw@ == meta.amount_in_raw@
    &&& p.amount_out_min_raw@ == meta.amount_out_min_raw@
    &&& p.fee_tier == meta.fee_tier
    &&& p.allowance_data@ == prefixed_hex(allowance_calldata(to, router))
    &&& p.approve_zero_data@ == prefixed_hex(approve_calldata(router, 0))
    &&& p.approve_amount_data@ == prefixed_hex(approve_calldata(router, amount_in))
    &&& p.swap_data@ == prefixed_hex(
        exact_input_single_calldata(
            MAINNET_USDT@,
            MAINNET_WETH@,
            meta.fee_tier,
            to,
            amount_in,
            amount_out_min,
        ),
    )
    &&& p.value@ == "0x0"@
    &&& p.allowance_data@.len() == 138
    &&& p.approve_zero_data@.len() == 138
    &&& p.approve_amount_data@.len() == 138
    &&& p.swap_data@.len() == 458
}

/// The amounts that `quote_meta` writes are read back unchanged when a plan
/// is built from that metadata, so only the two addresses can stop the plan.
pub proof fn lemma_quote_meta_amounts_plan(
    router: Seq<char>,
    recipient: Seq<char>,
    meta: UniswapQuoteMeta,
    amount_in: u128,
    amount_out: u128,
    slippage_bps: u32,
)
    requires
        meta.amount_in_raw@ == decimal_chars(amount_in as nat),
        meta.amount_out_min_raw@ == decimal_chars(
            amount_out_min_spec(amount_out, slippage_bps) as nat,
        ),
    ensures
        raw_amount(meta.amount_in_raw@) == amount_in,
        raw_amount(meta.amount_out_min_raw@) == amount_out_min_spec(amount_out, slippage_bps),
        plan_error(router, recipient, meta) is None <==> is_valid_address(recipient)
            && is_valid_address(router),
{
    lemma_parse_decimal_roundtrip(amount_in);
    lemma_parse_decimal_roundtrip(amount_out_min_spec(amount_out, slippage_bps));
}

/// The swap call data of a plan pays the recipient the plan was built for:
/// its normalized text spells the same address word as the text given.
pub proof fn lemma_plan_pays_recipient(recipient: Seq<char>)
    requires
        is_valid_address(recipient),
    ensures
        address_word(normalized_address(recipient)) == address_word(recipient),
{
    crate::abi::lemma_normalize_idempotent(recipient);
}

impl UniswapClient {
    /// The plan that swaps the quoted USDT for WETH through this venue's
    /// router and sends the output to `recipient`; the checks run in the order
    /// `plan_error` lists them.
    pub fn build_execution_plan(&self, recipient: &str, meta: &UniswapQuoteMeta) -> (r: Result<
        DexExecutionPlan,
        PlanError,
    >)
        ensures
            match plan_error(self.router@, recipient@, *meta) {
                Some(e) => r == Err::<DexExecutionPlan, PlanError>(e),
                None => r matches Ok(p) && is_execution_plan(self.router@, recipient@, *meta, p),
            },
    {
        let to = match normalize_address(recipient) {
            Ok(s) => s,
            Err(_) => {
                return Err(PlanError::InvalidRecipient);
            },
        };
        proof {
            crate::abi::lemma_normalize_idempotent(recipient@);
            lemma_mainnet_tokens_valid();
        }
        let amount_in = match parse_amount(&meta.amount_in_raw) {
            Some(v) => v,
            None => {
                return Err(PlanError::InvalidAmountIn);
            },
        };
        let amount_out_min = match parse_amount(&meta.amount_out_min_raw) {
            Some(v) => v,
            None => {
                return Err(PlanError::InvalidAmountOutMin);
            },
        };
        let allowance_data = match encode_allowance(to.as_str(), self.router.as_str()) {
            Ok(s) => s,
            Err(_) => {
                return Err(PlanError::InvalidRouter);
            },
        };
        let approve_zero_data = match encode_approve(self.router.as_str(), 0) {
            Ok(s) => s,
            Err(_) => {
                return Err(PlanError::InvalidRouter);
            },
        };
        let approve_amount_data = match encode_approve(self.router.as_str(), amount_in) {
            Ok(s) => s,
            Err(_) => {
                return Err(PlanError::InvalidRouter);
            },
        };
        let swap_data = match encode_exact_input_single(
            MAINNET_USDT,
            MAINNET_WETH,
            meta.fee_tier,
            to.as_str(),
            amount_in,
            amount_out_min,
        ) {
            Ok(s) => s,
            Err(_) => {
                return Err(PlanError::InvalidRecipient);
            },
        };
        Ok(
            DexExecutionPlan {
                chain_id_hex: "0x1".to_owned(),
                token_in: MAINNET_USDT.to_owned(),
                token_out: MAINNET_WETH.to_owned(),
                router: self.router.clone(),
                amount_in_raw: meta.amount_in_raw.clone(),
                amount_out_min_raw: meta.amount_out_min_raw.clone(),
                fee_tier: meta.fee_tier,
                allowance_data,
                approve_zero_data,
                approve_amount_data,
                swap_data,
                value: "0x0".to_owned(),
            },
        )
    }
}

// ---------------------------------------------------------------------------
// JSON-RPC replies
// ---------------------------------------------------------------------------

/// Why an Ethereum JSON-RPC reply gave no usable value.
#[derive(Debug, PartialEq, Eq)]
pub enum RpcError {
    /// The node answered with an error object (its JSON text).
    Remote(String),
    /// The node answered with neither a result nor an error.
    MissingResult,
    /// The result is not a hexadecimal quantity that fits in a `u128`.
    InvalidQuantity,
}

/// The result of a JSON-RPC reply: its error, when it carries one, wins over
/// its result.
pub fn rpc_result(result: Option<String>, error: Option<String>) -> (r: Result<String, RpcError>)
    ensures
        error matches Some(e) ==> r matches Err(RpcError::Remote(t)) && t@ == e@,
        error is None && result is None ==> r matches Err(RpcError::MissingResult),
        error is None ==> (result matches Some(v) ==> r matches Ok(t) && t@ == v@),
{
    match error {
        Some(e) => Err(RpcError::Remote(e)),
        None => match result {
            Some(v) => Ok(v),
            None => Err(RpcError::MissingResult),
        },
    }
}

/// The value of a hexadecimal quantity as `u128::from_str_radix` reads the
/// text after its leading `0x`s.
pub open spec fn quantity_value(text: Seq<char>) -> Option<u128> {
    parse_u128_spec(strip_hex_prefix(text), 16)
}

/// Reads the gas price of an `eth_gasPrice` result, in wei.
pub fn parse_gas_price(result: &str) -> (r: Result<u128, RpcError>)
    ensures
        r matches Ok(v) ==> quantity_value(result@) == Some(v),
        r matches Err(e) ==> quantity_value(result@) is None && e == RpcError::InvalidQuantity,
{
    let chars = str_to_chars(result);
    let start = hex_prefix_end(chars.as_slice());
    let n = chars.len();
    let mut digits: Vec<char> = Vec::new();
    for i in start..n
        invariant
            n == chars@.len(),
            digits@ == chars@.subrange(start as int, i as int),
    {
        digits.push(chars[i]);
        assert(chars@.subrange(start as int, i + 1) =~= chars@.subrange(start as int, i as int).push(
            chars@[i as int],
        ));
    }
    assert(digits@ =~= strip_hex_prefix(result@));
    match parse_u128_radix(digits.as_slice(), 16) {
        Some(v) => Ok(v),
        None => Err(RpcError::InvalidQuantity),
    }
}

} // verus!
