use routiq::abi::{encode_allowance, encode_approve, encode_exact_input_single, AbiError};
use routiq::uniswap::{
    amount_out_min, decode_quote_reply, fee_tiers, parse_gas_price, parse_u32, quote_call_data,
    rpc_result, select_best_quote, DexExecutionPlan, PlanError, QuoteError, RpcError, TierQuote,
    UniswapClient, UniswapQuoteMeta, MAINNET_QUOTER_V2, MAINNET_SWAP_ROUTER_02, MAINNET_USDT,
    MAINNET_WETH,
};

const WALLET: &str = "0xAb5801a7D398351b8bE11C439e05C5B3259aeC9B";

fn client(slippage_bps: u32) -> UniswapClient {
    UniswapClient::from_env(None, None, None, Some(slippage_bps.to_string()))
}

fn meta(amount_in: &str, amount_out_min: &str) -> UniswapQuoteMeta {
    UniswapQuoteMeta {
        fee_tier: 500,
        amount_in_raw: amount_in.to_string(),
        amount_out_raw: "30000000000000000".to_string(),
        amount_out_min_raw: amount_out_min.to_string(),
        gas_estimate: 120_000,
        gas_price_wei: 20_000_000_000,
    }
}

fn word(v: u128) -> String {
    format!("{:064x}", v)
}

#[test]
fn uniswap_from_env_defaults() {
    let c = UniswapClient::from_env(None, None, None, None);
    assert_eq!(c.rpc_url, "https://ethereum-rpc.publicnode.com");
    assert_eq!(c.quoter, MAINNET_QUOTER_V2);
    assert_eq!(c.router, MAINNET_SWAP_ROUTER_02);
    assert_eq!(c.slippage_bps, 50);
}

#[test]
fn from_env_overrides_and_bad_slippage() {
    let c = UniswapClient::from_env(
        Some("http://node".to_string()),
        Some("0xq".to_string()),
        Some("0xr".to_string()),
        Some("75".to_string()),
    );
    assert_eq!(c.rpc_url, "http://node");
    assert_eq!(c.quoter, "0xq");
    assert_eq!(c.router, "0xr");
    assert_eq!(c.slippage_bps, 75);
    let c = UniswapClient::from_env(None, None, None, Some("abc".to_string()));
    assert_eq!(c.slippage_bps, 50);
    let c = UniswapClient::from_env(None, None, None, Some("4294967296".to_string()));
    assert_eq!(c.slippage_bps, 50);
    assert_eq!(parse_u32("4294967295"), Some(u32::MAX));
    assert_eq!(parse_u32("+7"), Some(7));
    assert_eq!(parse_u32("-7"), None);
}

#[test]
fn fee_tiers_in_order() {
    assert_eq!(fee_tiers(), vec![100, 500, 3000, 10000]);
}

#[test]
fn quote_call_data_layout() {
    let data = quote_call_data(100_000_000, 3000);
    assert_eq!(data.len(), 2 + 8 + 5 * 64);
    assert_eq!(&data[..10], "0xc6a5026a");
    assert_eq!(&data[10..74], "000000000000000000000000dac17f958d2ee523a2206206994597c13d831ec7");
    assert_eq!(&data[74..138], "000000000000000000000000c02aaa39b223fe8d0a0e5c4f27ead9083c756cc2");
    assert_eq!(&data[138..202], word(100_000_000));
    assert_eq!(&data[202..266], word(3000));
    assert_eq!(&data[266..330], word(0));
}

#[test]
fn decode_quote_reply_reads_first_and_fourth_words() {
    let reply = format!("0x{}{}{}{}", word(31_000_000_000_000_000), word(7), word(3), word(95_000));
    assert_eq!(decode_quote_reply(&reply), Ok((31_000_000_000_000_000, 95_000)));
    // upper-case digits and a longer reply are accepted
    let reply = format!("0X{}", "");
    assert_eq!(decode_quote_reply(&reply), Err(QuoteError::InvalidHex));
    let upper = format!("0x{}{}{}{}{}", word(10), word(0), word(0), word(0xABCD), word(1)).to_uppercase().replace("0X", "0x");
    assert_eq!(decode_quote_reply(&upper), Ok((10, 0xabcd)));
}

#[test]
fn decode_quote_reply_errors() {
    assert_eq!(decode_quote_reply("0x123"), Err(QuoteError::InvalidHex));
    assert_eq!(decode_quote_reply("0xzz"), Err(QuoteError::InvalidHex));
    assert_eq!(
        decode_quote_reply(&format!("0x{}{}{}", word(1), word(2), word(3))),
        Err(QuoteError::ShortResponse { len: 96 })
    );
    let big = format!("0x{}{}{}{}", "01".repeat(32), word(0), word(0), word(5));
    assert_eq!(decode_quote_reply(&big), Err(QuoteError::Word(AbiError::ValueExceedsU128)));
}

fn q(fee_tier: u32, amount_out: u128) -> TierQuote {
    TierQuote { fee_tier, amount_out, gas_estimate: fee_tier as u128 * 10 }
}

#[test]
fn select_best_quote_takes_first_largest_positive() {
    assert_eq!(select_best_quote(&[]), None);
    assert_eq!(select_best_quote(&[q(100, 0), q(500, 0)]), None);
    assert_eq!(select_best_quote(&[q(100, 5), q(500, 9), q(3000, 9), q(10000, 2)]), Some(q(500, 9)));
    assert_eq!(select_best_quote(&[q(100, 0), q(3000, 4)]), Some(q(3000, 4)));
}

#[test]
fn amount_out_min_formula() {
    assert_eq!(amount_out_min(1_000_000, 50), 995_000);
    assert_eq!(amount_out_min(1_000_000, 0), 1_000_000);
    assert_eq!(amount_out_min(1_000_000, 10_000), 0);
    assert_eq!(amount_out_min(1_000_000, 20_000), 0);
    assert_eq!(amount_out_min(u128::MAX, 50), u128::MAX / 10_000);
    assert!(amount_out_min(123_456_789, 37) <= 123_456_789);
}

#[test]
fn quote_meta_writes_decimal_amounts() {
    let c = client(50);
    let m = c.quote_meta(100_000_000, &TierQuote { fee_tier: 500, amount_out: 1_000_000, gas_estimate: 90_000 }, 7);
    assert_eq!(m.fee_tier, 500);
    assert_eq!(m.amount_in_raw, "100000000");
    assert_eq!(m.amount_out_raw, "1000000");
    assert_eq!(m.amount_out_min_raw, "995000");
    assert_eq!(m.gas_estimate, 90_000);
    assert_eq!(m.gas_price_wei, 7);
}

fn plan_ok(p: &DexExecutionPlan, c: &UniswapClient, m: &UniswapQuoteMeta) {
    let to = "0xab5801a7d398351b8be11c439e05c5b3259aec9b";
    let amount_in: u128 = m.amount_in_raw.parse().unwrap();
    let min_out: u128 = m.amount_out_min_raw.parse().unwrap();
    assert_eq!(p.chain_id_hex, "0x1");
    assert_eq!(p.token_in, MAINNET_USDT);
    assert_eq!(p.token_out, MAINNET_WETH);
    assert_eq!(p.router, c.router);
    assert_eq!(p.amount_in_raw, m.amount_in_raw);
    assert_eq!(p.amount_out_min_raw, m.amount_out_min_raw);
    assert_eq!(p.fee_tier, m.fee_tier);
    assert_eq!(p.allowance_data, encode_allowance(to, &c.router).unwrap());
    assert_eq!(p.approve_zero_data, encode_approve(&c.router, 0).unwrap());
    assert_eq!(p.approve_amount_data, encode_approve(&c.router, amount_in).unwrap());
    assert_eq!(
        p.swap_data,
        encode_exact_input_single(MAINNET_USDT, MAINNET_WETH, m.fee_tier, to, amount_in, min_out).unwrap()
    );
    assert_eq!(p.value, "0x0");
}

#[test]
fn build_execution_plan_from_meta() {
    let c = client(50);
    let m = meta("100000000", "29850000000000000");
    let p = c.build_execution_plan(WALLET, &m).unwrap();
    plan_ok(&p, &c, &m);
    assert!(p.swap_data.starts_with("0x04e45aaf"));
    assert!(p.approve_zero_data.ends_with(&word(0)));
    assert!(p.approve_amount_data.ends_with(&word(100_000_000)));
}

#[test]
fn build_execution_plan_errors_in_order() {
    let c = client(50);
    assert_eq!(c.build_execution_plan("0x12", &meta("x", "y")).err(), Some(PlanError::InvalidRecipient));
    assert_eq!(c.build_execution_plan(WALLET, &meta("x", "y")).err(), Some(PlanError::InvalidAmountIn));
    assert_eq!(c.build_execution_plan(WALLET, &meta("-1", "5")).err(), Some(PlanError::InvalidAmountIn));
    assert_eq!(c.build_execution_plan(WALLET, &meta("5", "")).err(), Some(PlanError::InvalidAmountOutMin));
    let bad_router = UniswapClient::from_env(None, None, Some("0xnot".to_string()), None);
    assert_eq!(bad_router.build_execution_plan(WALLET, &meta("5", "6")).err(), Some(PlanError::InvalidRouter));
}

#[test]
fn meta_amounts_roundtrip_into_plan() {
    let c = client(30);
    let m = c.quote_meta(u128::MAX, &TierQuote { fee_tier: 100, amount_out: u128::MAX, gas_estimate: 1 }, 0);
    let p = c.build_execution_plan(WALLET, &m).unwrap();
    plan_ok(&p, &c, &m);
}

#[test]
fn rpc_result_prefers_error() {
    assert_eq!(rpc_result(Some("0x1".into()), Some("{\"code\":-32000}".into())), Err(RpcError::Remote("{\"code\":-32000}".into())));
    assert_eq!(rpc_result(None, None), Err(RpcError::MissingResult));
    assert_eq!(rpc_result(Some("0x1".into()), None), Ok("0x1".to_string()));
}

#[test]
fn parse_gas_price_reads_hex_quantity() {
    assert_eq!(parse_gas_price("0x3b9aca00"), Ok(1_000_000_000));
    assert_eq!(parse_gas_price("0x0x10"), Ok(16));
    assert_eq!(parse_gas_price("ff"), Ok(255));
    assert_eq!(parse_gas_price("0x"), Err(RpcError::InvalidQuantity));
    assert_eq!(parse_gas_price("0xzz"), Err(RpcError::InvalidQuantity));
}
