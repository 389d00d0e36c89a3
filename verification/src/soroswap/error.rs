use vstd::prelude::*;

verus! {

/// Errors raised by the protocol adapters.
#[derive(Clone, Copy, Debug, PartialEq, Eq, Structural)]
pub enum Error {
    AlreadyInitialized,
    NotInitialized,
    NotVault,
    NotAdmin,
    ZeroAmount,
    ArithmeticError,
    InsufficientBalance,
    PairNotFound,
    /// Operation would exceed `max_price_impact_bps`.
    PriceImpactTooHigh,
    /// Swap or liquidity output fell below computed `min_amount_out`.
    SlippageTooHigh,
}

impl Error {
    /// The contract error code under which the adapter reports this error.
    pub fn code(&self) -> (c: u32)
        ensures
            1 <= c <= 10,
            c == self.code_spec(),
    {
        match self {
            Error::AlreadyInitialized => 1,
            Error::NotInitialized => 2,
            Error::NotVault => 3,
            Error::NotAdmin => 4,
            Error::ZeroAmount => 5,
            Error::ArithmeticError => 6,
            Error::InsufficientBalance => 7,
            Error::PairNotFound => 8,
            Error::PriceImpactTooHigh => 9,
            Error::SlippageTooHigh => 10,
        }
    }

    pub open spec fn code_spec(&self) -> u32 {
        match self {
            Error::AlreadyInitialized => 1,
            Error::NotInitialized => 2,
            Error::NotVault => 3,
            Error::NotAdmin => 4,
            Error::ZeroAmount => 5,
            Error::ArithmeticError => 6,
            Error::InsufficientBalance => 7,
            Error::PairNotFound => 8,
            Error::PriceImpactTooHigh => 9,
            Error::SlippageTooHigh => 10,
        }
    }
}

} // verus!
