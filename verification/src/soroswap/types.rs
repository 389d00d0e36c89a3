use vstd::prelude::*;
use crate::arith::{fits_i128, tdiv};

verus! {

/// One basis point is 0.01%; 10_000 bps is 100%.
pub const BPS_DENOMINATOR: i128 = 10_000;

/// Slippage and price-impact limits for all swap/liquidity operations.
///
/// Units are basis points (bps): 1 bps = 0.01%.
///   max_slippage_bps     = 50  ->  0.5% maximum slippage per swap / liquidity op
///   max_price_impact_bps = 100 ->  1.0% maximum price impact per operation
#[derive(Clone, Copy, Debug, PartialEq, Eq, Structural)]
pub struct SlippageConfig {
    /// Maximum acceptable slippage on swap and liquidity calls.
    pub max_slippage_bps: u32,
    /// Maximum acceptable price impact before the operation is rejected.
    pub max_price_impact_bps: u32,
}

/// `expected * (10_000 - bps) / 10_000`, rounded toward zero, or 0 when the
/// product leaves `i128`.
pub open spec fn min_out_spec(expected: int, max_slippage_bps: int) -> int {
    let product = expected * (10_000 - max_slippage_bps);
    if fits_i128(product) {
        tdiv(product, 10_000)
    } else {
        0
    }
}

impl SlippageConfig {
    /// The conservative defaults: 0.5% slippage, 1% price impact.
    pub open spec fn default_spec() -> SlippageConfig {
        SlippageConfig { max_slippage_bps: 50, max_price_impact_bps: 100 }
    }

    /// Conservative defaults: 0.5% slippage, 1% price impact.
    pub fn default() -> (c: SlippageConfig)
        ensures
            c == Self::default_spec(),
    {
        SlippageConfig { max_slippage_bps: 50, max_price_impact_bps: 100 }
    }

    /// Whether the admin may store this configuration: each limit is at most 100%.
    pub open spec fn is_within_limits(self) -> bool {
        self.max_slippage_bps <= 10_000 && self.max_price_impact_bps <= 10_000
    }

    /// Apply slippage to an expected output amount.
    /// Returns `expected * (10_000 - max_slippage_bps) / 10_000`, and 0 when the
    /// multiplication overflows.
    pub fn min_out(&self, expected: i128) -> (r: i128)
        ensures
            r == min_out_spec(expected as int, self.max_slippage_bps as int),
    {
        let factor: i128 = 10_000 - self.max_slippage_bps as i128;
        expected.checked_mul(factor).unwrap_or(0).checked_div(BPS_DENOMINATOR).unwrap_or(0)
    }
}

/// A slippage floor never exceeds the expected amount and is never negative, for a
/// non-negative expected amount and a slippage limit of at most 100%.
pub proof fn lemma_min_out_bounded(expected: int, max_slippage_bps: int)
    requires
        0 <= expected <= i128::MAX,
        0 <= max_slippage_bps <= 10_000,
    ensures
        0 <= min_out_spec(expected, max_slippage_bps) <= expected,
{
    let f = 10_000 - max_slippage_bps;
    assert(0 <= expected * f <= expected * 10_000) by (nonlinear_arith)
        requires
            0 <= expected,
            0 <= f <= 10_000,
    ;
    if fits_i128(expected * f) {
        assert((expected * f) / 10_000 <= expected) by (nonlinear_arith)
            requires
                0 <= expected * f <= expected * 10_000,
        ;
    }
}

/// The slippage floor is the expected amount reduced by the tolerance, rounded down,
/// for every tolerance of at most 100%:
/// `m·10_000 ≤ expected·(10_000 − bps) < (m + 1)·10_000`.
pub proof fn lemma_min_out_floor(expected: int, max_slippage_bps: int)
    requires
        expected >= 0,
        0 <= max_slippage_bps <= 10_000,
        fits_i128(expected * (10_000 - max_slippage_bps)),
    ensures
        min_out_spec(expected, max_slippage_bps) * 10_000 <= expected * (10_000 - max_slippage_bps)
            < (min_out_spec(expected, max_slippage_bps) + 1) * 10_000,
{
    let p = expected * (10_000 - max_slippage_bps);
    assert(p >= 0) by (nonlinear_arith)
        requires
            expected >= 0,
            max_slippage_bps <= 10_000,
            p == expected * (10_000 - max_slippage_bps),
    ;
    vstd::arithmetic::div_mod::lemma_fundamental_div_mod(p, 10_000);
    vstd::arithmetic::div_mod::lemma_mod_pos_bound(p, 10_000);
}

} // verus!
