use vstd::prelude::*;
use crate::arith::fits_i128;
use crate::vault::error::Error;
use crate::vault::types::{VaultAllowance, VaultConfig, VaultStatus, VaultStorage, SCALAR_7};

verus! {

/// Vault storage (instance).
pub struct Storage;

/// A newly initialized vault: active, with no shares and an empty reserve, a high water
/// mark at a share price of 1.0, and fees accruing from `now`.
pub open spec fn initial_storage(config: VaultConfig, now: u64) -> VaultStorage {
    VaultStorage {
        status: VaultStatus::Active,
        liquid_reserve: 0,
        total_shares: 0,
        high_water_mark: 10_000_000,
        last_fee_accrual: now,
        config,
    }
}

impl Storage {
    /// The storage `initialize` writes at time `now`; `AlreadyInitialized` when the
    /// vault's storage exists.
    pub fn initialize(already_initialized: bool, config: VaultConfig, now: u64) -> (r: Result<
        VaultStorage,
        Error,
    >)
        ensures
            already_initialized ==> r == Err::<VaultStorage, Error>(Error::AlreadyInitialized),
            !already_initialized ==> r == Ok::<VaultStorage, Error>(initial_storage(config, now)),
    {
        if already_initialized {
            return Err(Error::AlreadyInitialized);
        }
        Ok(
            VaultStorage {
                status: VaultStatus::Active,
                liquid_reserve: 0,
                total_shares: 0,
                high_water_mark: SCALAR_7,
                last_fee_accrual: now,
                config,
            },
        )
    }

    /// The stored vault state, or `NotInitialized` when nothing was stored.
    pub fn load(stored: Option<VaultStorage>) -> (r: Result<VaultStorage, Error>)
        ensures
            match stored {
                Some(s) => r == Ok::<VaultStorage, Error>(s),
                None => r == Err::<VaultStorage, Error>(Error::NotInitialized),
            },
    {
        match stored {
            Some(s) => Ok(s),
            None => Err(Error::NotInitialized),
        }
    }
}

/// Share balances (persistent) — SEP-41 vToken balances.
pub struct BalanceStorage;

impl BalanceStorage {
    /// The balance of an account: the stored one, or 0 for an account never written.
    pub fn get(stored: Option<i128>) -> (r: i128)
        ensures
            r == match stored {
                Some(b) => b,
                None => 0,
            },
    {
        match stored {
            Some(b) => b,
            None => 0,
        }
    }

    /// The balance after crediting `amount`; `ArithmeticError` when it overflows.
    pub fn add(balance: i128, amount: i128) -> (r: Result<i128, Error>)
        ensures
            r == credit_spec(balance as int, amount as int),
    {
        match balance.checked_add(amount) {
            Some(b) => Ok(b),
            None => Err(Error::ArithmeticError),
        }
    }

    /// The balance after debiting `amount`; `InsufficientBalance` when the balance is
    /// smaller than the amount. (The subtraction itself overflows only for a negative
    /// amount larger than the headroom above the balance.)
    pub fn subtract(balance: i128, amount: i128) -> (r: Result<i128, Error>)
        requires
            balance < amount || fits_i128(balance - amount),
        ensures
            r == debit_spec(balance as int, amount as int),
    {
        if balance < amount {
            return Err(Error::InsufficientBalance);
        }
        Ok(balance - amount)
    }
}

/// Crediting `amount` to a balance: `ArithmeticError` when the sum leaves `i128`.
pub open spec fn credit_spec(balance: int, amount: int) -> Result<i128, Error> {
    if fits_i128(balance + amount) {
        Ok((balance + amount) as i128)
    } else {
        Err(Error::ArithmeticError)
    }
}

/// Debiting `amount` from a balance: `InsufficientBalance` when the balance is smaller.
pub open spec fn debit_spec(balance: int, amount: int) -> Result<i128, Error> {
    if balance < amount {
        Err(Error::InsufficientBalance)
    } else {
        Ok((balance - amount) as i128)
    }
}

/// On a non-negative balance, debiting what was just credited gives back the balance,
/// and a debit of a non-negative amount never takes the balance below zero.
pub proof fn lemma_balance_round_trip(balance: i128, amount: i128)
    requires
        balance >= 0,
        credit_spec(balance as int, amount as int) is Ok,
    ensures
        debit_spec(credit_spec(balance as int, amount as int)->Ok_0 as int, amount as int) == Ok::<
            i128,
            Error,
        >(balance),
        amount >= 0 && debit_spec(balance as int, amount as int) is Ok ==> debit_spec(
            balance as int,
            amount as int,
        )->Ok_0 >= 0,
{
}

/// Spending `amount` of `allowance` at ledger `current`: refused with
/// `InsufficientAllowance` when the allowance is too small or expired, else the
/// allowance less the amount, with the same expiry.
pub open spec fn spend_spec(allowance: VaultAllowance, amount: int, current: u32) -> Result<
    VaultAllowance,
    Error,
> {
    if allowance.amount < amount || allowance.is_expired(current) {
        Err(Error::InsufficientAllowance)
    } else {
        Ok(
            VaultAllowance {
                amount: (allowance.amount - amount) as i128,
                live_until_ledger: allowance.live_until_ledger,
            },
        )
    }
}

/// Allowance storage (persistent) — SEP-41 vToken allowances.
pub struct AllowanceStorage;

impl AllowanceStorage {
    /// The stored allowance, or an empty one (amount 0, never expiring) when none was
    /// granted.
    pub fn get(stored: Option<VaultAllowance>) -> (r: VaultAllowance)
        ensures
            r == match stored {
                Some(a) => a,
                None => VaultAllowance { amount: 0, live_until_ledger: 0 },
            },
    {
        match stored {
            Some(a) => a,
            None => VaultAllowance { amount: 0, live_until_ledger: 0 },
        }
    }

    /// Spends `amount` of an allowance at ledger `current_ledger`.
    ///
    /// Fails with `InsufficientAllowance` when the allowance is smaller than the amount
    /// or has expired; otherwise the amount is reduced and the expiry kept.
    pub fn subtract(allowance: VaultAllowance, amount: i128, current_ledger: u32) -> (r: Result<
        VaultAllowance,
        Error,
    >)
        requires
            allowance.amount < amount || fits_i128(allowance.amount - amount),
        ensures
            r == spend_spec(allowance, amount as int, current_ledger),
    {
        if allowance.amount < amount {
            return Err(Error::InsufficientAllowance);
        }
        if allowance.live_until_ledger != 0 && allowance.live_until_ledger < current_ledger {
            return Err(Error::InsufficientAllowance);
        }
        Ok(
            VaultAllowance {
                amount: allowance.amount - amount,
                live_until_ledger: allowance.live_until_ledger,
            },
        )
    }
}

} // verus!
