//! Verified core of a USDT -> ETH cross-venue router.

pub mod abi;
pub mod crypto;
pub mod hexcodec;
pub mod text;
pub mod uniswap;
pub mod binance;
pub mod execution;
pub mod settings;
