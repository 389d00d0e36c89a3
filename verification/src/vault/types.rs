use vstd::prelude::*;

verus! {

// SCALAR CONSTANTS

/// Fixed-point scale of share prices: `SCALAR_7` is a price of 1.0.
pub const SCALAR_7: i128 = 10_000_000;
pub const BPS: i128 = 10_000;
pub const SECONDS_PER_YEAR: u64 = 31_536_000;
pub const MAX_PROTOCOLS: u32 = 10;

// TTL CONSTANTS

pub const ONE_DAY_LEDGERS: u32 = 17280;
pub const INSTANCE_TTL: u32 = ONE_DAY_LEDGERS * 30;
pub const INSTANCE_BUMP: u32 = ONE_DAY_LEDGERS * 31;

// VAULT TYPES

#[derive(Clone, Copy, Debug, PartialEq, Eq, Structural)]
pub enum VaultStatus {
    Active,
    Paused,
    EmergencyExit,
}

#[derive(Clone, Copy, Debug, PartialEq, Eq, Structural)]
pub enum RiskTier {
    Low,
    Medium,
    High,
}

#[derive(Clone, Copy, Debug, PartialEq, Eq, Structural)]
pub struct VaultConfig {
    /// Annual management fee in BPS (e.g. 50 = 0.5%)
    pub management_fee_bps: u32,
    /// Performance fee on gains above HWM in BPS (e.g. 1000 = 10%)
    pub performance_fee_bps: u32,
    /// Minimum liquid reserve in BPS (e.g. 500 = 5%)
    pub min_liquidity_bps: u32,
    /// Maximum allocation per protocol in BPS (e.g. 9000 = 90%)
    pub max_protocol_bps: u32,
    /// Minimum diff to trigger rebalance in BPS (e.g. 200 = 2%)
    pub rebalance_threshold_bps: u32,
}

/// The amounts of the harvest configuration: rewards below `min_swap_amount` are not
/// swapped, and a swap accepts at most `max_slippage_bps` below the router's estimate.
/// (The reward token and the router are addresses that stay with the contract.)
#[derive(Clone, Copy, Debug, PartialEq, Eq, Structural)]
pub struct HarvestLimits {
    pub min_swap_amount: i128,
    pub max_slippage_bps: u32,
}

/// The numeric part of the vault's instance storage.
#[derive(Clone, Copy, Debug, PartialEq, Eq, Structural)]
pub struct VaultStorage {
    pub status: VaultStatus,
    /// Tokens held in the vault (not deployed to any protocol)
    pub liquid_reserve: i128,
    /// Total vTokens minted
    pub total_shares: i128,
    /// Highest-ever share price (SCALAR_7 = 1.0 initially)
    pub high_water_mark: i128,
    /// Last fee accrual timestamp
    pub last_fee_accrual: u64,
    pub config: VaultConfig,
}

/// An allowance granted to a spender over an owner's vTokens.
#[derive(Clone, Copy, Debug, PartialEq, Eq, Structural)]
pub struct VaultAllowance {
    pub amount: i128,
    /// Last ledger at which the allowance may be used; 0 means it never expires.
    pub live_until_ledger: u32,
}

impl VaultAllowance {
    /// Whether the allowance has expired at ledger `current`.
    pub open spec fn is_expired(self, current: u32) -> bool {
        self.live_until_ledger != 0 && self.live_until_ledger < current
    }
}

} // verus!
