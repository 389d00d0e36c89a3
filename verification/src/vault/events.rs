use vstd::prelude::*;

verus! {

/// Published after a rebalance, with the NAV it left.
#[derive(Clone, Copy, Debug, PartialEq, Eq, Structural)]
pub struct RebalancedEvent {
    pub nav: i128,
}

/// Published after a harvest, with the total credited to the liquid reserve.
#[derive(Clone, Copy, Debug, PartialEq, Eq, Structural)]
pub struct HarvestedEvent {
    pub total: i128,
}

} // verus!
