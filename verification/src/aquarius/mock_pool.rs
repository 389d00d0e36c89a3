use vstd::prelude::*;

verus! {

/// Swap fee of the pool: 0.3% (30 bps).
pub const FEE_BPS: u128 = 30;
pub const BPS: u128 = 10_000;

/// Reserves and LP supply of the pool (the token addresses stay with the contract).
#[derive(Clone, Copy, Debug, PartialEq, Eq, Structural)]
pub struct PoolState {
    pub reserve_a: u128,
    pub reserve_b: u128,
    pub shares: u128,
}

/// A native constant-product (x·y = k) pool with the Aquarius pool interface and a
/// 0.3% swap fee; reserves and shares live in instance storage.
pub struct MockPool;

/// The reserves a swap goes in and out of: token_a → token_b for index 0, else the
/// other way.
pub open spec fn swap_reserves(s: PoolState, in_idx: u32) -> (u128, u128) {
    if in_idx == 0 {
        (s.reserve_a, s.reserve_b)
    } else {
        (s.reserve_b, s.reserve_a)
    }
}

/// The input left after the fee: `in_amount × 9970 / 10000`.
pub open spec fn after_fee(in_amount: int) -> int {
    in_amount * 9970 / 10_000
}

/// Constant-product output with fee: `r_out × in_after_fee / (r_in + in_after_fee)`,
/// and 0 when a reserve is empty.
pub open spec fn estimate_swap_spec(s: PoolState, in_idx: u32, in_amount: int) -> int {
    let (r_in, r_out) = swap_reserves(s, in_idx);
    if r_in == 0 || r_out == 0 {
        0
    } else {
        r_out * after_fee(in_amount) / (r_in + after_fee(in_amount))
    }
}

/// The swap estimate never overflows `u128`.
pub open spec fn swap_in_range(s: PoolState, in_idx: u32, in_amount: int) -> bool {
    let (r_in, r_out) = swap_reserves(s, in_idx);
    &&& in_amount * 9970 <= u128::MAX
    &&& r_out * after_fee(in_amount) <= u128::MAX
    &&& r_in + after_fee(in_amount) <= u128::MAX
}

/// Shares minted for depositing `a` and `b`: `min(a, b)` into an empty pool, else
/// `a × shares / reserve_a`.
pub open spec fn deposit_shares_spec(s: PoolState, a: int, b: int) -> int {
    if s.shares == 0 {
        if a < b {
            a
        } else {
            b
        }
    } else {
        a * s.shares / (s.reserve_a as int)
    }
}

proof fn lemma_swap_out_below_reserve(r_in: int, r_out: int, f: int)
    requires
        r_in > 0,
        r_out > 0,
        f >= 0,
    ensures
        0 <= r_out * f / (r_in + f) < r_out,
        (r_in + f) * (r_out - r_out * f / (r_in + f)) >= r_in * r_out,
{
    let out = r_out * f / (r_in + f);
    assert(0 <= out && out * (r_in + f) <= r_out * f) by (nonlinear_arith)
        requires
            out == r_out * f / (r_in + f),
            r_in > 0,
            r_out > 0,
            f >= 0,
    ;
    assert(out < r_out) by (nonlinear_arith)
        requires
            out * (r_in + f) <= r_out * f,
            r_in > 0,
            r_out > 0,
            f >= 0,
            out >= 0,
    ;
    assert((r_in + f) * (r_out - out) >= r_in * r_out) by (nonlinear_arith)
        requires
            out * (r_in + f) <= r_out * f,
    ;
}

impl MockPool {
    /// A pool with empty reserves and no shares.
    pub fn initialize() -> (s: PoolState)
        ensures
            s == (PoolState { reserve_a: 0, reserve_b: 0, shares: 0 }),
    {
        PoolState { reserve_a: 0, reserve_b: 0, shares: 0 }
    }

    pub fn get_total_shares(s: &PoolState) -> (r: u128)
        ensures
            r == s.shares,
    {
        s.shares
    }

    pub fn get_reserves(s: &PoolState) -> (r: (u128, u128))
        ensures
            r == (s.reserve_a, s.reserve_b),
    {
        (s.reserve_a, s.reserve_b)
    }

    /// Estimate swap output using constant-product with fee.
    pub fn estimate_swap(s: &PoolState, in_idx: u32, out_idx: u32, in_amount: u128) -> (r: u128)
        requires
            swap_in_range(*s, in_idx, in_amount as int),
        ensures
            r == estimate_swap_spec(*s, in_idx, in_amount as int),
    {
        let (r_in, r_out) = if in_idx == 0 {
            (s.reserve_a, s.reserve_b)
        } else {
            (s.reserve_b, s.reserve_a)
        };
        if r_in == 0 || r_out == 0 {
            return 0;
        }
        let in_after_fee = in_amount * (BPS - FEE_BPS) / BPS;
        r_out * in_after_fee / (r_in + in_after_fee)
    }

    /// Estimate shares for deposit (proportional to reserves).
    pub fn estimate_deposit(s: &PoolState, a: u128, b: u128) -> (r: u128)
        requires
            s.shares == 0 || s.reserve_a == 0 || a * s.shares <= u128::MAX,
        ensures
            s.shares == 0 || s.reserve_a == 0 ==> r == (if a < b { a } else { b }),
            !(s.shares == 0 || s.reserve_a == 0) ==> r == a * s.shares / (s.reserve_a as int),
    {
        if s.shares == 0 || s.reserve_a == 0 {
            // First deposit: shares = geometric mean, approximated as the smaller amount.
            return if a < b {
                a
            } else {
                b
            };
        }
        (a * s.shares) / s.reserve_a
    }

    /// Swap token `in_idx` → `out_idx`: the output, or `None` when it falls below
    /// `out_min` (the swap is rejected and the pool unchanged). The input joins its
    /// reserve and the output leaves the other.
    pub fn swap(s: &mut PoolState, in_idx: u32, out_idx: u32, in_amount: u128, out_min: u128) -> (r: Option<u128>)
        requires
            swap_in_range(*old(s), in_idx, in_amount as int),
            in_idx == 0 ==> old(s).reserve_a + in_amount <= u128::MAX,
            in_idx != 0 ==> old(s).reserve_b + in_amount <= u128::MAX,
        ensures
            ({
                let out = estimate_swap_spec(*old(s), in_idx, in_amount as int);
                if out < out_min {
                    r is None && *final(s) == *old(s)
                } else {
                    &&& r == Some(out as u128)
                    &&& final(s).shares == old(s).shares
                    &&& in_idx == 0 ==> final(s).reserve_a == old(s).reserve_a + in_amount
                        && final(s).reserve_b == old(s).reserve_b - out
                    &&& in_idx != 0 ==> final(s).reserve_b == old(s).reserve_b + in_amount
                        && final(s).reserve_a == old(s).reserve_a - out
                }
            }),
    {
        let out = Self::estimate_swap(s, in_idx, out_idx, in_amount);
        if out < out_min {
            return None;
        }
        proof {
            let (r_in, r_out) = swap_reserves(*s, in_idx);
            if r_in != 0 && r_out != 0 {
                lemma_swap_out_below_reserve(r_in as int, r_out as int, after_fee(in_amount as int));
            }
        }
        if in_idx == 0 {
            s.reserve_a = s.reserve_a + in_amount;
            s.reserve_b = s.reserve_b - out;
        } else {
            s.reserve_b = s.reserve_b + in_amount;
            s.reserve_a = s.reserve_a - out;
        }
        Some(out)
    }

    /// Deposit tokens and mint LP shares: the shares minted, or `None` when they fall
    /// below `min_shares` (the deposit is rejected and the pool unchanged).
    pub fn deposit(s: &mut PoolState, a: u128, b: u128, min_shares: u128) -> (r: Option<u128>)
        requires
            old(s).shares != 0 ==> old(s).reserve_a != 0 && a * old(s).shares <= u128::MAX,
            old(s).reserve_a + a <= u128::MAX,
            old(s).reserve_b + b <= u128::MAX,
            old(s).shares + deposit_shares_spec(*old(s), a as int, b as int) <= u128::MAX,
        ensures
            ({
                let minted = deposit_shares_spec(*old(s), a as int, b as int);
                if minted < min_shares {
                    r is None && *final(s) == *old(s)
                } else {
                    &&& r == Some(minted as u128)
                    &&& *final(s) == (PoolState {
                        reserve_a: (old(s).reserve_a + a) as u128,
                        reserve_b: (old(s).reserve_b + b) as u128,
                        shares: (old(s).shares + minted) as u128,
                    })
                }
            }),
    {
        let new_shares = if s.shares == 0 {
            if a < b {
                a
            } else {
                b
            }
        } else {
            (a * s.shares) / s.reserve_a
        };
        if new_shares < min_shares {
            return None;
        }
        s.reserve_a = s.reserve_a + a;
        s.reserve_b = s.reserve_b + b;
        s.shares = s.shares + new_shares;
        Some(new_shares)
    }

    /// Burn LP shares and return tokens proportionally: `reserve × share_amount / shares`
    /// of each, or `None` when an amount falls below its minimum (the withdrawal is
    /// rejected and the pool unchanged). An empty pool returns nothing.
    pub fn withdraw(s: &mut PoolState, share_amount: u128, min_a: u128, min_b: u128) -> (r: Option<(u128, u128)>)
        requires
            old(s).shares != 0 ==> share_amount <= old(s).shares,
            old(s).shares != 0 ==> old(s).reserve_a * share_amount <= u128::MAX,
            old(s).shares != 0 ==> old(s).reserve_b * share_amount <= u128::MAX,
        ensures
            old(s).shares == 0 ==> r == Some((0u128, 0u128)) && *final(s) == *old(s),
            old(s).shares != 0 ==> ({
                let out_a = old(s).reserve_a * share_amount / (old(s).shares as int);
                let out_b = old(s).reserve_b * share_amount / (old(s).shares as int);
                if out_a < min_a || out_b < min_b {
                    r is None && *final(s) == *old(s)
                } else {
                    &&& r == Some((out_a as u128, out_b as u128))
                    &&& *final(s) == (PoolState {
                        reserve_a: (old(s).reserve_a - out_a) as u128,
                        reserve_b: (old(s).reserve_b - out_b) as u128,
                        shares: (old(s).shares - share_amount) as u128,
                    })
                }
            }),
    {
        if s.shares == 0 {
            return Some((0, 0));
        }
        let out_a = s.reserve_a * share_amount / s.shares;
        let out_b = s.reserve_b * share_amount / s.shares;
        if out_a < min_a || out_b < min_b {
            return None;
        }
        proof {
            assert(out_a <= s.reserve_a && out_b <= s.reserve_b) by (nonlinear_arith)
                requires
                    out_a == s.reserve_a * share_amount / (s.shares as int),
                    out_b == s.reserve_b * share_amount / (s.shares as int),
                    share_amount <= s.shares,
                    s.shares > 0,
            ;
        }
        s.reserve_a = s.reserve_a - out_a;
        s.reserve_b = s.reserve_b - out_b;
        s.shares = s.shares - share_amount;
        Some((out_a, out_b))
    }

    /// Claim AQUA rewards: none are configured, so nothing is claimed.
    pub fn claim() -> (r: u128)
        ensures
            r == 0,
    {
        0
    }
}

/// A swap never drains the output reserve and never lowers the product of the
/// reserves (the fee stays in the pool).
pub proof fn lemma_swap_keeps_invariant(s: PoolState, in_idx: u32, in_amount: int)
    requires
        swap_in_range(s, in_idx, in_amount),
        in_amount >= 0,
        swap_reserves(s, in_idx).0 > 0,
        swap_reserves(s, in_idx).1 > 0,
    ensures
        ({
            let (r_in, r_out) = swap_reserves(s, in_idx);
            let out = estimate_swap_spec(s, in_idx, in_amount);
            &&& 0 <= out < r_out
            &&& (r_in + in_amount) * (r_out - out) >= r_in * r_out
        }),
{
    let (r_in, r_out) = swap_reserves(s, in_idx);
    let f = after_fee(in_amount);
    assert(0 <= f <= in_amount) by (nonlinear_arith)
        requires
            f == in_amount * 9970 / 10_000,
            in_amount >= 0,
    ;
    lemma_swap_out_below_reserve(r_in as int, r_out as int, f);
    let out = estimate_swap_spec(s, in_idx, in_amount);
    assert((r_in + in_amount) * (r_out - out) >= (r_in + f) * (r_out - out)) by (nonlinear_arith)
        requires
            f <= in_amount,
            out < r_out,
    ;
}

/// Withdrawing every share empties the pool and returns both whole reserves.
pub proof fn lemma_withdraw_all_shares(s: PoolState)
    requires
        s.shares > 0,
    ensures
        s.reserve_a * s.shares / (s.shares as int) == s.reserve_a,
        s.reserve_b * s.shares / (s.shares as int) == s.reserve_b,
{
    assert(s.reserve_a * s.shares / (s.shares as int) == s.reserve_a) by (nonlinear_arith)
        requires
            s.shares > 0,
    ;
    assert(s.reserve_b * s.shares / (s.shares as int) == s.reserve_b) by (nonlinear_arith)
        requires
            s.shares > 0,
    ;
}

} // verus!
