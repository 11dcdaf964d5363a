use routiq::binance::BinanceOrderResponse;
use routiq::execution::{binance_executed, execute_best, BestExecution, ExecuteError, ExecutionStep, Venue};
use routiq::settings::env_bool;
use routiq::uniswap::{PlanError, UniswapClient, UniswapQuoteMeta};

fn meta() -> UniswapQuoteMeta {
    UniswapQuoteMeta {
        fee_tier: 3000,
        amount_in_raw: "100000000".to_string(),
        amount_out_raw: "31000000000000000".to_string(),
        amount_out_min_raw: "30845000000000000".to_string(),
        gas_estimate: 100_000,
        gas_price_wei: 1,
    }
}

fn uni() -> UniswapClient {
    UniswapClient::from_env(None, None, None, None)
}

const WALLET: &str = "0xAb5801a7D398351b8bE11C439e05C5B3259aeC9B";

#[test]
fn venue_names() {
    assert_eq!(Venue::Binance.name(), "BINANCE");
    assert_eq!(Venue::UniswapV3.name(), "UNISWAP_V3");
}

#[test]
fn binance_route_needs_live_trading() {
    let r = execute_best(Venue::Binance, false, Some(WALLET), &uni(), &meta());
    assert!(matches!(r, Err(ExecuteError::LiveTradingDisabled)));
    let r = execute_best(Venue::Binance, true, None, &uni(), &meta());
    assert!(matches!(r, Ok(ExecutionStep::PlaceBinanceOrder)));
}

#[test]
fn dex_route_needs_wallet_and_builds_plan() {
    let r = execute_best(Venue::UniswapV3, true, None, &uni(), &meta());
    assert!(matches!(r, Err(ExecuteError::WalletRequired)));
    let r = execute_best(Venue::UniswapV3, false, Some("0xbad"), &uni(), &meta());
    assert!(matches!(r, Err(ExecuteError::Plan(PlanError::InvalidRecipient))));
    match execute_best(Venue::UniswapV3, false, Some(WALLET), &uni(), &meta()) {
        Ok(ExecutionStep::Finished(BestExecution::DexRequiresWallet { best_venue, plan })) => {
            assert_eq!(best_venue, "UNISWAP_V3");
            assert_eq!(plan.fee_tier, 3000);
            assert_eq!(plan.amount_in_raw, "100000000");
            assert_eq!(plan, uni().build_execution_plan(WALLET, &meta()).ok().unwrap());
        }
        _ => panic!("expected a DEX plan"),
    }
}

#[test]
fn binance_executed_reports_order() {
    let order = BinanceOrderResponse {
        symbol: "ETHUSDT".into(),
        order_id: 42,
        status: "FILLED".into(),
        executed_qty: "0.031".into(),
        cummulative_quote_qty: "100.0".into(),
    };
    match binance_executed(order) {
        BestExecution::BinanceExecuted { best_venue, order } => {
            assert_eq!(best_venue, "BINANCE");
            assert_eq!(order.order_id, 42);
            assert_eq!(order.status, "FILLED");
        }
        _ => panic!("expected a Binance report"),
    }
}

#[test]
fn env_bool_switches() {
    assert!(!env_bool(None, false));
    assert!(env_bool(None, true));
    for v in ["1", "true", "TRUE", "True", "yes", "YeS", "on", "ON"] {
        assert!(env_bool(Some(v), false), "{v}");
    }
    for v in ["0", "false", "no", "off", "", " true", "truee", "2"] {
        assert!(!env_bool(Some(v), true), "{v}");
    }
}
