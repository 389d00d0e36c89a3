use vstd::prelude::*;
use crate::soroswap::error::Error;

verus! {

/// Adapter connecting neko-vault to an Aquarius AMM pool.
pub struct AquariusAdapter;

/// Largest slippage tolerance the adapter accepts, in bps (10%).
pub const MAX_SLIPPAGE_BPS: u32 = 1000;

impl AquariusAdapter {
    /// Whether `max_slippage_bps` is a tolerance the adapter accepts, at initialization
    /// and in `update_slippage`: at most `MAX_SLIPPAGE_BPS`.
    pub fn is_valid_slippage(max_slippage_bps: u32) -> (r: bool)
        ensures
            r == (max_slippage_bps <= MAX_SLIPPAGE_BPS),
    {
        max_slippage_bps <= MAX_SLIPPAGE_BPS
    }

    /// The slippage tolerance to store after `update_slippage`: the new one, when the
    /// caller is the stored admin (`NotAdmin` otherwise). A tolerance above
    /// `MAX_SLIPPAGE_BPS` is refused before this point.
    pub fn update_slippage(caller_is_admin: bool, new_slippage_bps: u32) -> (r: Result<u32, Error>)
        requires
            new_slippage_bps <= MAX_SLIPPAGE_BPS,
        ensures
            caller_is_admin ==> r == Ok::<u32, Error>(new_slippage_bps),
            !caller_is_admin ==> r == Err::<u32, Error>(Error::NotAdmin),
    {
        if !caller_is_admin {
            return Err(Error::NotAdmin);
        }
        Ok(new_slippage_bps)
    }

    /// Only the stored admin may sweep tokens stuck in the adapter (`NotAdmin`
    /// otherwise).
    pub fn sweep(caller_is_admin: bool) -> (r: Result<(), Error>)
        ensures
            caller_is_admin ==> r is Ok,
            !caller_is_admin ==> r == Err::<(), Error>(Error::NotAdmin),
    {
        if !caller_is_admin {
            return Err(Error::NotAdmin);
        }
        Ok(())
    }

    /// Returns 0 — AMM trading fees accrue into LP reserve growth, not a separate APY.
    pub fn a_get_apy() -> (apy: u32)
        ensures
            apy == 0,
    {
        0
    }
}

} // verus!
