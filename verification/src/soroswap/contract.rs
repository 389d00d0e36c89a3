use vstd::prelude::*;
use crate::soroswap::error::Error;
use crate::soroswap::storage::Storage;
use crate::soroswap::types::SlippageConfig;

verus! {

/// Adapter connecting neko-vault to a Soroswap AMM pair: the decisions of its
/// configuration entry points.
pub struct SoroswapAdapter;

impl SoroswapAdapter {
    /// Writes the conservative default slippage configuration at initialization, so
    /// every swap path is safe from day one.
    pub fn initialize(storage: &mut Storage)
        ensures
            final(storage).slippage_cfg == Some(SlippageConfig::default_spec()),
    {
        storage.save_slippage(&SlippageConfig::default());
    }

    /// Update slippage / price-impact limits.
    ///
    /// Only the stored admin may call it (`NotAdmin` otherwise), and each limit must
    /// be at most 10_000 bps (`ArithmeticError` otherwise). A rejected call leaves the
    /// stored configuration unchanged.
    pub fn set_slippage_config(storage: &mut Storage, caller_is_admin: bool, config: &SlippageConfig) -> (r:
        Result<(), Error>)
        ensures
            !caller_is_admin ==> r == Err::<(), Error>(Error::NotAdmin),
            caller_is_admin && !config.is_within_limits() ==> r == Err::<(), Error>(
                Error::ArithmeticError,
            ),
            r is Ok <==> caller_is_admin && config.is_within_limits(),
            r is Ok ==> final(storage).slippage_cfg == Some(*config),
            r is Err ==> *final(storage) == *old(storage),
    {
        if !caller_is_admin {
            return Err(Error::NotAdmin);
        }
        if config.max_slippage_bps > 10_000 || config.max_price_impact_bps > 10_000 {
            return Err(Error::ArithmeticError);
        }
        storage.save_slippage(config);
        Ok(())
    }

    /// Return the current slippage configuration.
    pub fn get_slippage_config(storage: &Storage) -> (c: SlippageConfig)
        ensures
            c == storage.slippage_in_effect(),
    {
        storage.load_slippage()
    }

    /// Returns 0 — AMM yield (trading fees) is reflected in LP token value growth.
    pub fn a_get_apy() -> (apy: u32)
        ensures
            apy == 0,
    {
        0
    }
}

/// Reading the configuration gives back what an accepted update wrote, and before any
/// update it gives the defaults.
pub proof fn lemma_slippage_read_after_write(before: Storage, after: Storage, config: SlippageConfig)
    requires
        after.slippage_cfg == Some(config),
    ensures
        after.slippage_in_effect() == config,
        before.slippage_cfg is None ==> before.slippage_in_effect() == SlippageConfig::default_spec(),
{
}

/// The defaults written at initialization are themselves a configuration the admin
/// could set.
pub proof fn lemma_default_within_limits()
    ensures
        SlippageConfig::default_spec().is_within_limits(),
{
}

} // verus!
