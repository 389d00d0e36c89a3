//! Blend lending-pool adapter: b-token accounting of its withdraw and valuation.
pub mod blend_pool;
pub mod contract;
