//! Aquarius AMM adapter, and the constant-product pool that stands in for an
//! Aquarius pool.
pub mod contract;
pub mod mock_pool;
