use vstd::prelude::*;

verus! {

/// Errors raised by the vault's bookkeeping.
#[derive(Clone, Copy, Debug, PartialEq, Eq, Structural)]
pub enum Error {
    /// The vault's storage has already been written.
    AlreadyInitialized,
    /// The vault's storage has not been written yet.
    NotInitialized,
    /// An amount left the `i128` range.
    ArithmeticError,
    /// An account holds fewer shares than it tries to move.
    InsufficientBalance,
    /// A spender's allowance is too small or has expired.
    InsufficientAllowance,
    /// A reward cannot be handled with the stored harvest configuration.
    InvalidConfig,
    /// Deposits are accepted only while the vault is active.
    VaultNotActive,
    /// An amount or share count that must be positive is not.
    ZeroAmount,
    /// The liquid reserve cannot pay a withdrawal.
    InsufficientLiquidity,
    /// The vault already has `MAX_PROTOCOLS` protocols.
    TooManyProtocols,
}

} // verus!
