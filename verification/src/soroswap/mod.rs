//! Soroswap AMM adapter: slippage limits, price impact, fair LP valuation and the
//! decisions of its deposit and withdraw flows.
pub mod error;
pub mod types;
pub mod storage;
pub mod soroswap_pool;
pub mod contract;
