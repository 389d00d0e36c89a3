//! Neko vault: share and allowance bookkeeping, harvest and fee accrual.
pub mod error;
pub mod types;
pub mod events;
pub mod storage;
pub mod nav;
pub mod deposit;
pub mod withdraw;
pub mod harvester;
pub mod contract;
