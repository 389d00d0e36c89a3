//! Neko lending-pool adapter: b-token accounting of its withdraw and valuation.
pub mod contract;
