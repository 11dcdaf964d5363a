//! Acting on the best route: a Binance market order when live trading is
//! enabled, or a Uniswap plan for the user's wallet.

use crate::binance::BinanceOrderResponse;
use crate::uniswap::{
    is_execution_plan, plan_error, DexExecutionPlan, PlanError, UniswapClient, UniswapQuoteMeta,
};
use vstd::prelude::*;

verus! {

/// A venue a route can go through.
#[derive(Clone, Copy, Debug, PartialEq, Eq, Structural)]
pub enum Venue {
    Binance,
    UniswapV3,
}

/// The name a venue is reported under.
pub open spec fn venue_name(v: Venue) -> Seq<char> {
    match v {
        Venue::Binance => "BINANCE"@,
        Venue::UniswapV3 => "UNISWAP_V3"@,
    }
}

impl Venue {
    /// The name this venue is reported under.
    pub fn name(&self) -> (s: String)
        ensures
            s@ == venue_name(*self),
    {
        match self {
            Venue::Binance => "BINANCE".to_owned(),
            Venue::UniswapV3 => "UNISWAP_V3".to_owned(),
        }
    }
}

/// What executing the best route produced.
pub enum BestExecution {
    /// The market order placed on Binance.
    BinanceExecuted { best_venue: String, order: BinanceOrderResponse },
    /// The plan the user's wallet must sign on Uniswap.
    DexRequiresWallet { best_venue: String, plan: DexExecutionPlan },
}

/// The next step of executing the best route.
pub enum ExecutionStep {
    /// Send the market order to Binance, then report it with
    /// `binance_executed`.
    PlaceBinanceOrder,
    /// Nothing more to send: report this.
    Finished(BestExecution),
}

/// Why the best route was not executed.
#[derive(Clone, Copy, Debug, PartialEq, Eq, Structural)]
pub enum ExecuteError {
    /// Binance is the best venue but live trading is disabled.
    LiveTradingDisabled,
    /// Uniswap is the best venue but no wallet address was given.
    WalletRequired,
    /// Uniswap is the best venue but its plan could not be built.
    Plan(PlanError),
}

/// Decides how to execute a route whose best venue is `best_venue`: Binance
/// needs live trading enabled and then a market order; Uniswap needs a
/// wallet, and yields the plan for that wallet from the quote `meta`.
pub fn execute_best(
    best_venue: Venue,
    live_trading_enabled: bool,
    wallet: Option<&str>,
    uniswap: &UniswapClient,
    meta: &UniswapQuoteMeta,
) -> (r: Result<ExecutionStep, ExecuteError>)
    ensures
        best_venue == Venue::Binance && live_trading_enabled ==> r matches Ok(
            ExecutionStep::PlaceBinanceOrder,
        ),
        best_venue == Venue::Binance && !live_trading_enabled ==> r matches Err(
            ExecuteError::LiveTradingDisabled,
        ),
        best_venue == Venue::UniswapV3 && wallet is None ==> r matches Err(
            ExecuteError::WalletRequired,
        ),
        best_venue == Venue::UniswapV3 && wallet is Some ==> match plan_error(
            uniswap.router@,
            wallet->0@,
            *meta,
        ) {
            Some(e) => r matches Err(ExecuteError::Plan(pe)) && pe == e,
            None => r matches Ok(
                ExecutionStep::Finished(BestExecution::DexRequiresWallet { best_venue: name, plan }),
            ) && name@ == venue_name(Venue::UniswapV3) && is_execution_plan(
                uniswap.router@,
                wallet->0@,
                *meta,
                plan,
            ),
        },
        !live_trading_enabled ==> !(r matches Ok(ExecutionStep::PlaceBinanceOrder)),
        best_venue == Venue::UniswapV3 ==> !(r matches Ok(ExecutionStep::PlaceBinanceOrder)),
{
    match best_venue {
        Venue::Binance => {
            if !live_trading_enabled {
                return Err(ExecuteError::LiveTradingDisabled);
            }
            Ok(ExecutionStep::PlaceBinanceOrder)
        },
        Venue::UniswapV3 => {
            let wallet = match wallet {
                Some(w) => w,
                None => {
                    return Err(ExecuteError::WalletRequired);
                },
            };
            match uniswap.build_execution_plan(wallet, meta) {
                Ok(plan) => Ok(
                    ExecutionStep::Finished(
                        BestExecution::DexRequiresWallet { best_venue: Venue::UniswapV3.name(), plan },
                    ),
                ),
                Err(e) => Err(ExecuteError::Plan(e)),
            }
        },
    }
}

/// The report of a market order placed on Binance as the best venue.
pub fn binance_executed(order: BinanceOrderResponse) -> (e: BestExecution)
    ensures
        e matches BestExecution::BinanceExecuted { best_venue, order: o } && best_venue@
            == venue_name(Venue::Binance) && o == order,
{
    BestExecution::BinanceExecuted { best_venue: Venue::Binance.name(), order }
}

} // verus!
