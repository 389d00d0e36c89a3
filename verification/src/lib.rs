//! Verified core of the Neko vault and its protocol adapters.
pub mod arith;
pub mod lending;
pub mod soroswap;
pub mod blend;
pub mod neko;
pub mod vault;
pub mod aquarius;
