use vstd::prelude::*;
use crate::soroswap::types::SlippageConfig;

verus! {

/// The adapter's slippage-configuration slot in instance storage.
#[derive(Clone, Copy, Debug, PartialEq, Eq, Structural)]
pub struct Storage {
    /// The stored configuration; `None` until one is saved.
    pub slippage_cfg: Option<SlippageConfig>,
}

impl Storage {
    /// The configuration in effect: the stored one, or `SlippageConfig::default()`
    /// when none was ever stored.
    pub open spec fn slippage_in_effect(self) -> SlippageConfig {
        match self.slippage_cfg {
            Some(c) => c,
            None => SlippageConfig::default_spec(),
        }
    }

    /// A slot with nothing stored.
    pub fn empty() -> (s: Storage)
        ensures
            s.slippage_cfg is None,
    {
        Storage { slippage_cfg: None }
    }

    /// Persist slippage config.
    pub fn save_slippage(&mut self, config: &SlippageConfig)
        ensures
            final(self).slippage_cfg == Some(*config),
    {
        self.slippage_cfg = Some(*config);
    }

    /// Falls back to `SlippageConfig::default()` when never set, so the adapter is
    /// always safe even before an admin call.
    pub fn load_slippage(&self) -> (c: SlippageConfig)
        ensures
            c == self.slippage_in_effect(),
    {
        match self.slippage_cfg {
            Some(c) => c,
            None => SlippageConfig::default(),
        }
    }
}

} // verus!
