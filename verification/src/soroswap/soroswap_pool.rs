use vstd::prelude::*;
use vstd::arithmetic::div_mod::{
    lemma_div_is_ordered_by_denominator, lemma_fundamental_div_mod, lemma_mod_pos_bound,
};
use crate::arith::{fits_i128, tdiv, mul_div_or_zero, mul_div_or_zero_spec};
use crate::soroswap::types::{SlippageConfig, min_out_spec};
use crate::soroswap::error::Error;

verus! {

// ─── Integer square-root ─────────────────────────────────────────────────────

/// `r` is the largest natural number whose square does not exceed `x`.
pub open spec fn is_floor_sqrt(x: int, r: int) -> bool {
    0 <= r && r * r <= x && x < (r + 1) * (r + 1)
}

proof fn lemma_div_bounds(x: int, g: int)
    requires
        x >= 0,
        g >= 1,
    ensures
        g * (x / g) <= x < g * (x / g + 1),
        x / g >= 0,
{
    lemma_fundamental_div_mod(x, g);
    lemma_mod_pos_bound(x, g);
    assert(g * (x / g + 1) == g * (x / g) + g) by (nonlinear_arith);
    assert(x / g >= 0) by (nonlinear_arith)
        requires
            x >= 0,
            g >= 1,
            x == g * (x / g) + x % g,
            x % g < g,
    ;
}

/// One Newton step `(g + x / g) / 2` never falls below the floor square root.
proof fn lemma_newton_step_above(x: int, g: int)
    requires
        x >= 1,
        g >= 1,
    ensures
        x < ((g + x / g) / 2 + 1) * ((g + x / g) / 2 + 1),
{
    let q = x / g;
    let t = (g + q) / 2 + 1;
    lemma_div_bounds(x, g);
    assert(q + 1 <= 2 * t - g);
    assert(g * (q + 1) <= g * (2 * t - g)) by (nonlinear_arith)
        requires
            g >= 1,
            q + 1 <= 2 * t - g,
    ;
    assert(g * (2 * t - g) <= t * t) by (nonlinear_arith);
}

/// For `1 <= g <= x`, `g + x / g` never exceeds `x + 1`.
proof fn lemma_newton_sum_bound(x: int, g: int)
    requires
        1 <= g <= x,
    ensures
        g + x / g <= x + 1,
{
    let q = x / g;
    lemma_div_bounds(x, g);
    assert(q >= 1) by (nonlinear_arith)
        requires
            g <= x,
            x < g * (q + 1),
            g >= 1,
    ;
    assert(g + q <= g * q + 1) by (nonlinear_arith)
        requires
            g >= 1,
            q >= 1,
    ;
}

/// Below `x`, a guess of at least 2 keeps `g + x / g` within `x`.
proof fn lemma_newton_sum_below(x: int, g: int)
    requires
        2 <= g < x,
    ensures
        g + x / g <= x,
{
    let q = x / g;
    lemma_div_bounds(x, g);
    if q >= 2 {
        assert(g + q <= g * q) by (nonlinear_arith)
            requires
                g >= 2,
                q >= 2,
        ;
    } else {
        assert(q >= 1) by (nonlinear_arith)
            requires
                g <= x,
                x < g * (q + 1),
                g >= 1,
        ;
    }
}

/// Newton-Raphson integer square root: the largest `n` with `n * n <= x`, and 0 for
/// a non-positive `x`.
pub fn isqrt(x: i128) -> (r: i128)
    ensures
        x <= 0 ==> r == 0,
        x > 0 ==> is_floor_sqrt(x as int, r as int),
{
    if x <= 0 {
        return 0;
    }
    proof {
        assert(x as int / x as int == 1) by (nonlinear_arith)
            requires
                x >= 1,
        ;
        lemma_newton_step_above(x as int, x as int);
        assert(x < (x + 1) * (x + 1)) by (nonlinear_arith)
            requires
                x >= 1,
        ;
    }
    let mut guess = x;
    // `(x + 1) / 2`, written so that `x == i128::MAX` does not overflow.
    let mut next = x / 2 + x % 2;
    while next < guess
        invariant
            1 <= guess <= x,
            next == (guess + x / guess) / 2,
            x < (guess + 1) * (guess + 1),
            x < (next + 1) * (next + 1),
        decreases guess,
    {
        guess = next;
        proof {
            assert(guess >= 1) by (nonlinear_arith)
                requires
                    guess >= 0,
                    x >= 1,
                    x < (guess + 1) * (guess + 1),
            ;
            if x >= 4 {
                assert(guess >= 2) by (nonlinear_arith)
                    requires
                        guess >= 1,
                        x >= 4,
                        x < (guess + 1) * (guess + 1),
                ;
                lemma_newton_sum_below(x as int, guess as int);
            } else {
                lemma_newton_sum_bound(x as int, guess as int);
            }
            lemma_div_bounds(x as int, guess as int);
            lemma_newton_step_above(x as int, guess as int);
        }
        next = (guess + x / guess) / 2;
    }
    proof {
        lemma_div_bounds(x as int, guess as int);
        if guess * guess > x {
            assert(x / guess < guess) by (nonlinear_arith)
                requires
                    guess * (x / guess) <= x,
                    x < guess * guess,
                    guess >= 1,
            ;
        }
    }
    guess
}

/// The floor square root of `x`, and 0 for a non-positive `x`.
pub open spec fn floor_sqrt(x: int) -> int {
    if x <= 0 {
        0
    } else {
        choose|r: int| is_floor_sqrt(x, r)
    }
}

/// The floor square root is unique.
pub proof fn lemma_floor_sqrt_unique(x: int, r1: int, r2: int)
    requires
        is_floor_sqrt(x, r1),
        is_floor_sqrt(x, r2),
    ensures
        r1 == r2,
{
    if r1 < r2 {
        assert((r1 + 1) * (r1 + 1) <= r2 * r2) by (nonlinear_arith)
            requires
                0 <= r1 + 1 <= r2,
        ;
    }
    if r2 < r1 {
        assert((r2 + 1) * (r2 + 1) <= r1 * r1) by (nonlinear_arith)
            requires
                0 <= r2 + 1 <= r1,
        ;
    }
}

/// A root found for `x` is the one `floor_sqrt` names.
proof fn lemma_floor_sqrt_is(x: int, r: int)
    requires
        x > 0,
        is_floor_sqrt(x, r),
    ensures
        floor_sqrt(x) == r,
{
    lemma_floor_sqrt_unique(x, r, floor_sqrt(x));
}

// ─── Price-impact estimation ──────────────────────────────────────────────────

/// Price impact of swapping `amount_in` against `reserve_in`, in bps:
/// `amount_in * 10_000 / (reserve_in + amount_in)` capped at 10_000, where a sum or
/// product that leaves `i128` is taken as `i128::MAX`, and 0 when either input is
/// not positive.
pub open spec fn price_impact_spec(amount_in: int, reserve_in: int) -> int {
    if reserve_in <= 0 || amount_in <= 0 {
        0
    } else {
        let denom = if fits_i128(reserve_in + amount_in) {
            reserve_in + amount_in
        } else {
            i128::MAX as int
        };
        let num = if fits_i128(amount_in * 10_000) {
            amount_in * 10_000
        } else {
            i128::MAX as int
        };
        if num / denom < 10_000 {
            num / denom
        } else {
            10_000
        }
    }
}

/// Estimate price impact for swapping `amount_in` against `reserve_in` in bps.
///
/// Impact ≈ amount_in / (reserve_in + amount_in) × 10_000
/// This is the fraction of the pool that the trade consumes, which upper-bounds
/// the actual slippage from the constant-product formula.
pub fn price_impact_bps(amount_in: i128, reserve_in: i128) -> (r: u32)
    ensures
        r == price_impact_spec(amount_in as int, reserve_in as int),
        r <= 10_000,
{
    if reserve_in <= 0 || amount_in <= 0 {
        return 0;
    }
    let denom = reserve_in.checked_add(amount_in).unwrap_or(i128::MAX);
    let bps = amount_in.checked_mul(10_000).unwrap_or(i128::MAX).checked_div(denom).unwrap_or(
        10_000,
    );
    let capped = bps.min(10_000);
    capped as u32
}

/// Without overflow, the price impact is exactly the share of the post-trade pool
/// that the trade brings, `amount_in * 10_000 / (reserve_in + amount_in)`, which is
/// below 100%.
pub proof fn lemma_price_impact_exact(amount_in: int, reserve_in: int)
    requires
        amount_in > 0,
        reserve_in > 0,
        fits_i128(reserve_in + amount_in),
        fits_i128(amount_in * 10_000),
    ensures
        price_impact_spec(amount_in, reserve_in) == (amount_in * 10_000) / (reserve_in
            + amount_in),
        price_impact_spec(amount_in, reserve_in) < 10_000,
{
    assert((amount_in * 10_000) / (reserve_in + amount_in) < 10_000) by (nonlinear_arith)
        requires
            amount_in > 0,
            reserve_in > 0,
    ;
}

/// The price impact bounds the slippage of a constant-product swap. Without a fee, a
/// trade of `a` into a pool holding `r` of the input token receives `r / (r + a)` of
/// what the spot price would give, a shortfall of exactly `a / (r + a)`, which the
/// impact states in bps up to its floor rounding:
/// `impact·(r + a) ≤ 10_000·a < (impact + 1)·(r + a)`. With Soroswap's 0.3% fee the
/// shortfall below the fee-adjusted spot output is `997a / (1000r + 997a)`, smaller
/// than `a / (r + a)` and so below `impact + 1` bps.
pub proof fn lemma_price_impact_bounds_slippage(amount_in: int, reserve_in: int)
    requires
        amount_in > 0,
        reserve_in > 0,
        fits_i128(reserve_in + amount_in),
        fits_i128(amount_in * 10_000),
    ensures
        price_impact_spec(amount_in, reserve_in) * (reserve_in + amount_in) <= 10_000 * amount_in,
        10_000 * amount_in < (price_impact_spec(amount_in, reserve_in) + 1) * (reserve_in
            + amount_in),
        (997 * amount_in) * (reserve_in + amount_in) < amount_in * (1000 * reserve_in + 997
            * amount_in),
        10_000 * (997 * amount_in) < (price_impact_spec(amount_in, reserve_in) + 1) * (1000
            * reserve_in + 997 * amount_in),
{
    let a = amount_in;
    let r = reserve_in;
    lemma_price_impact_exact(a, r);
    let i = price_impact_spec(a, r);
    lemma_div_bounds(a * 10_000, r + a);
    assert((997 * a) * (r + a) < a * (1000 * r + 997 * a)) by (nonlinear_arith)
        requires
            a > 0,
            r > 0,
    ;
    assert(10_000 * (997 * a) < (i + 1) * (1000 * r + 997 * a)) by (nonlinear_arith)
        requires
            a > 0,
            r > 0,
            0 <= i < 10_000,
            10_000 * a < (i + 1) * (r + a),
    ;
}

/// The same trade against a deeper reserve never has a larger price impact (when
/// nothing overflows).
pub proof fn lemma_price_impact_reserve_antitone(amount_in: int, r1: int, r2: int)
    requires
        amount_in > 0,
        0 < r1 <= r2,
        fits_i128(r2 + amount_in),
        fits_i128(amount_in * 10_000),
    ensures
        price_impact_spec(amount_in, r2) <= price_impact_spec(amount_in, r1),
{
    lemma_price_impact_exact(amount_in, r1);
    lemma_price_impact_exact(amount_in, r2);
    assert(amount_in * 10_000 >= 0) by (nonlinear_arith)
        requires
            amount_in > 0,
    ;
    lemma_div_is_ordered_by_denominator(amount_in * 10_000, r1 + amount_in, r2 + amount_in);
}

/// A larger trade against the same reserve never has a smaller price impact (when
/// nothing overflows).
pub proof fn lemma_price_impact_monotone(a1: int, a2: int, reserve_in: int)
    requires
        0 < a1 <= a2,
        reserve_in > 0,
        fits_i128(reserve_in + a2),
        fits_i128(a2 * 10_000),
    ensures
        price_impact_spec(a1, reserve_in) <= price_impact_spec(a2, reserve_in),
{
    assert(a1 * 10_000 <= a2 * 10_000) by (nonlinear_arith)
        requires
            0 < a1 <= a2,
    ;
    lemma_price_impact_exact(a1, reserve_in);
    lemma_price_impact_exact(a2, reserve_in);
    let n1 = a1 * 10_000;
    let n2 = a2 * 10_000;
    let d1 = reserve_in + a1;
    let d2 = reserve_in + a2;
    assert(n1 * d2 <= n2 * d1) by (nonlinear_arith)
        requires
            n1 == a1 * 10_000,
            n2 == a2 * 10_000,
            d1 == reserve_in + a1,
            d2 == reserve_in + a2,
            0 < a1 <= a2,
            reserve_in > 0,
    ;
    let q1 = n1 / d1;
    assert(q1 * d2 <= n2) by (nonlinear_arith)
        requires
            q1 == n1 / d1,
            n1 * d2 <= n2 * d1,
            d1 > 0,
            d2 > 0,
            n1 >= 0,
    ;
    assert(q1 <= n2 / d2) by (nonlinear_arith)
        requires
            q1 * d2 <= n2,
            d2 > 0,
    ;
}

// ─── Pair state ───────────────────────────────────────────────────────────────

/// Reserves of the Soroswap pair as `get_reserves` reports them, and whether the
/// pair's `token_0` is the adapter's token_a (otherwise it is token_b).
#[derive(Clone, Copy, Debug, PartialEq, Eq, Structural)]
pub struct PairReserves {
    pub reserve0: i128,
    pub reserve1: i128,
    pub token0_is_a: bool,
}

impl PairReserves {
    /// The reserve of token_a.
    pub open spec fn reserve_a_spec(self) -> i128 {
        if self.token0_is_a {
            self.reserve0
        } else {
            self.reserve1
        }
    }

    /// The reserve of token_b.
    pub open spec fn reserve_b_spec(self) -> i128 {
        if self.token0_is_a {
            self.reserve1
        } else {
            self.reserve0
        }
    }

    /// The reserve of token_a.
    pub fn reserve_a(&self) -> (r: i128)
        ensures
            r == self.reserve_a_spec(),
    {
        if self.token0_is_a {
            self.reserve0
        } else {
            self.reserve1
        }
    }

    /// The reserve of token_b.
    pub fn reserve_b(&self) -> (r: i128)
        ensures
            r == self.reserve_b_spec(),
    {
        if self.token0_is_a {
            self.reserve1
        } else {
            self.reserve0
        }
    }
}

/// What the pair reports about one holder's LP position.
#[derive(Clone, Copy, Debug, PartialEq, Eq, Structural)]
pub struct PairPosition {
    /// LP tokens held by the holder (`pair.balance(holder)`).
    pub lp_balance: i128,
    /// Total LP supply (`pair.total_supply()`).
    pub total_lp: i128,
    pub reserves: PairReserves,
}

// ─── Fair-value LP valuation ──────────────────────────────────────────────────

/// Scale applied to both factors before the square root and removed after it.
pub const FAIR_VALUE_SCALE: i128 = 1_000_000;

/// `x * 10^6`, or `x` itself when the scaled value leaves `i128`.
pub open spec fn scaled_or_kept(x: int) -> int {
    if fits_i128(x * 1_000_000) {
        x * 1_000_000
    } else {
        x
    }
}

/// The holder's pro-rata shares of each reserve:
/// `reserve × lp_balance / total_lp`, 0 when that overflows.
pub open spec fn fair_value_factors(p: PairPosition) -> (int, int) {
    let ra = p.reserves.reserve_a_spec() as int;
    let rb = p.reserves.reserve_b_spec() as int;
    let share_a = mul_div_or_zero_spec(ra, p.lp_balance as int, p.total_lp as int);
    let share_b = mul_div_or_zero_spec(rb, p.lp_balance as int, p.total_lp as int);
    (share_a, share_b)
}

/// The product of the scaled factors, or 0 when it leaves `i128`.
pub open spec fn fair_value_product(p: PairPosition) -> int {
    let (a, b) = fair_value_factors(p);
    let product = scaled_or_kept(a) * scaled_or_kept(b);
    if fits_i128(product) {
        product
    } else {
        0
    }
}

/// Fair value of an LP position in token_a units: the holder's share of the pool's
/// invariant `k = reserve_a × reserve_b` valued at a 1:1 price,
/// `2 × sqrt(share_a × share_b)`, computed as
/// `2 × floor_sqrt(share_a × 10^6 × share_b × 10^6) / 10^6`;
/// 0 when the holder has no LP tokens, the supply is zero or a reserve is empty.
pub open spec fn fair_value_spec(p: PairPosition) -> int {
    if p.lp_balance == 0 || p.total_lp == 0 || p.reserves.reserve_a_spec() == 0
        || p.reserves.reserve_b_spec() == 0 {
        0
    } else {
        (2 * floor_sqrt(fair_value_product(p))) / 1_000_000
    }
}

/// Returns the holder's LP position in **fair-value** token_a units.
///
///   k          = reserve_a × reserve_b
///   fair_total = 2 × sqrt(k)          [pool value if price = 1:1]
///
/// and the holder's part of it is `2 × sqrt(share_a × share_b)`. A single swap
/// preserves k (up to the fee it adds), so it moves the fair value by ≈ 0% however it
/// skews reserve_a / reserve_b, unlike a spot-price valuation
/// `share_a + share_b × reserve_a / reserve_b`. Both factors are scaled by 10^6
/// before the square root, and the result is divided by 10^6 after it.
pub fn get_fair_value(position: &PairPosition) -> (r: i128)
    ensures
        r == fair_value_spec(*position),
        r >= 0,
{
    let lp_balance = position.lp_balance;
    if lp_balance == 0 {
        return 0;
    }
    let total_lp = position.total_lp;
    if total_lp == 0 {
        return 0;
    }
    let reserve_a = position.reserves.reserve_a();
    let reserve_b = position.reserves.reserve_b();
    if reserve_a == 0 || reserve_b == 0 {
        return 0;
    }
    let share_a = mul_div_or_zero(reserve_a, lp_balance, total_lp);
    let share_b = mul_div_or_zero(reserve_b, lp_balance, total_lp);

    let scaled_a = share_a.checked_mul(FAIR_VALUE_SCALE).unwrap_or(share_a);
    let scaled_b = share_b.checked_mul(FAIR_VALUE_SCALE).unwrap_or(share_b);
    let product = scaled_a.checked_mul(scaled_b).unwrap_or(0);
    assert(product == fair_value_product(*position));
    let sqrt_val = isqrt(product);
    proof {
        if product > 0 {
            lemma_floor_sqrt_is(product as int, sqrt_val as int);
            assert(sqrt_val < 0x1_0000_0000_0000_0000) by (nonlinear_arith)
                requires
                    0 <= sqrt_val,
                    sqrt_val * sqrt_val <= product,
                    product <= i128::MAX,
            ;
        }
    }
    let fair = sqrt_val.checked_mul(2).unwrap_or(sqrt_val).checked_div(FAIR_VALUE_SCALE).unwrap_or(0);
    fair
}

/// Backward-compatible alias of `get_fair_value`: NAV uses the
/// manipulation-resistant formula.
pub fn position_value(position: &PairPosition) -> (r: i128)
    ensures
        r == fair_value_spec(*position),
{
    get_fair_value(position)
}

// ─── Fair value under a swap that keeps k ─────────────────────────────────────

proof fn lemma_floor_sqrt_exists(x: int)
    requires
        x >= 0,
    ensures
        exists|r: int| #[trigger] is_floor_sqrt(x, r),
    decreases x,
{
    if x == 0 {
        assert(is_floor_sqrt(0, 0));
    } else {
        lemma_floor_sqrt_exists(x - 1);
        let r = choose|r: int| #[trigger] is_floor_sqrt(x - 1, r);
        if (r + 1) * (r + 1) <= x {
            assert(x < (r + 2) * (r + 2)) by (nonlinear_arith)
                requires
                    x - 1 < (r + 1) * (r + 1),
                    r >= 0,
            ;
            assert(is_floor_sqrt(x, r + 1));
        } else {
            assert(is_floor_sqrt(x, r));
        }
    }
}

/// `floor_sqrt` is the floor square root of every non-negative integer.
pub proof fn lemma_floor_sqrt(x: int)
    requires
        x >= 0,
    ensures
        is_floor_sqrt(x, floor_sqrt(x)),
{
    if x == 0 {
        assert(is_floor_sqrt(0, 0));
    } else {
        lemma_floor_sqrt_exists(x);
    }
}

/// The rounded value `f = 2 × floor_sqrt(p × 10^12) / 10^6` of a share product `p`
/// satisfies `f² ≤ 4p < (f + 2)²`: it is `2 × sqrt(p)` rounded down, to within 2.
proof fn lemma_scaled_root_bounds(p: int)
    requires
        p >= 0,
    ensures
        (2 * floor_sqrt(p * 1_000_000_000_000)) / 1_000_000 >= 0,
        ({
            let f = (2 * floor_sqrt(p * 1_000_000_000_000)) / 1_000_000;
            f * f <= 4 * p && 4 * p < (f + 2) * (f + 2)
        }),
{
    let m: int = 1_000_000;
    assert(m * m == 1_000_000_000_000);
    let x = p * (m * m);
    lemma_floor_sqrt(x);
    let s = floor_sqrt(x);
    lemma_div_bounds(2 * s, m);
    let f = (2 * s) / m;
    assert((m * f) * (m * f) <= (2 * s) * (2 * s)) by (nonlinear_arith)
        requires
            0 <= m * f <= 2 * s,
    ;
    assert((m * m) * (f * f) <= (m * m) * (4 * p)) by (nonlinear_arith)
        requires
            (m * f) * (m * f) <= (2 * s) * (2 * s),
            s * s <= p * (m * m),
    ;
    assert(f * f <= 4 * p) by (nonlinear_arith)
        requires
            (m * m) * (f * f) <= (m * m) * (4 * p),
            m * m > 0,
    ;
    assert(2 * s + 2 <= m * (f + 2)) by (nonlinear_arith)
        requires
            2 * s < m * (f + 1),
            m >= 2,
    ;
    assert((2 * s + 2) * (2 * s + 2) <= (m * (f + 2)) * (m * (f + 2))) by (nonlinear_arith)
        requires
            0 <= 2 * s + 2 <= m * (f + 2),
    ;
    assert((m * m) * (4 * p) < (m * m) * ((f + 2) * (f + 2))) by (nonlinear_arith)
        requires
            p * (m * m) < (s + 1) * (s + 1),
            (2 * s + 2) * (2 * s + 2) <= (m * (f + 2)) * (m * (f + 2)),
    ;
    assert(4 * p < (f + 2) * (f + 2)) by (nonlinear_arith)
        requires
            (m * m) * (4 * p) < (m * m) * ((f + 2) * (f + 2)),
            m * m > 0,
    ;
}

/// Floored pro-rata shares bracket the pool's `k` scaled to the position:
/// `sa·sb·T² ≤ (ra·lp)·(rb·lp) < (sa+1)·(sb+1)·T²`.
proof fn lemma_share_product_bounds(ra: int, rb: int, lp: int, t: int)
    requires
        ra > 0,
        rb > 0,
        lp > 0,
        t > 0,
    ensures
        ((ra * lp) / t) * ((rb * lp) / t) * (t * t) <= (ra * lp) * (rb * lp),
        (ra * lp) * (rb * lp) < ((ra * lp) / t + 1) * ((rb * lp) / t + 1) * (t * t),
{
    let xa = ra * lp;
    let xb = rb * lp;
    assert(xa > 0 && xb > 0) by (nonlinear_arith)
        requires
            ra > 0,
            rb > 0,
            lp > 0,
            xa == ra * lp,
            xb == rb * lp,
    ;
    lemma_div_bounds(xa, t);
    lemma_div_bounds(xb, t);
    let sa = xa / t;
    let sb = xb / t;
    assert((t * sa) * (t * sb) <= xa * xb) by (nonlinear_arith)
        requires
            0 <= t * sa <= xa,
            0 <= t * sb <= xb,
    ;
    assert(xa * xb < (t * (sa + 1)) * (t * (sb + 1))) by (nonlinear_arith)
        requires
            0 < xa < t * (sa + 1),
            0 < xb < t * (sb + 1),
    ;
    assert((t * sa) * (t * sb) == sa * sb * (t * t)) by (nonlinear_arith);
    assert((t * (sa + 1)) * (t * (sb + 1)) == (sa + 1) * (sb + 1) * (t * t)) by (nonlinear_arith);
}

/// One side of the comparison of two positions, the second on a `k` no larger.
proof fn lemma_same_k_side(f2: int, u2: int, f1: int, a1: int, b1: int, q2: int, q1: int, d: int)
    requires
        d > 0,
        f2 * f2 <= 4 * u2,
        u2 * d <= q2,
        q2 <= q1,
        q1 < (a1 + 1) * (b1 + 1) * d,
        4 * (a1 * b1) < (f1 + 2) * (f1 + 2),
    ensures
        f2 * f2 < (f1 + 2) * (f1 + 2) + 4 * (a1 + b1 + 1),
{
    assert((a1 + 1) * (b1 + 1) * d == (a1 * b1 + a1 + b1 + 1) * d) by (nonlinear_arith);
    assert(u2 < a1 * b1 + a1 + b1 + 1) by (nonlinear_arith)
        requires
            d > 0,
            u2 * d < (a1 * b1 + a1 + b1 + 1) * d,
    ;
}

/// The other side, the second position on a `k` larger by at most 0.2%.
proof fn lemma_grown_k_side(f2: int, u2: int, f1: int, a1: int, b1: int, q2: int, q1: int, d: int)
    requires
        d > 0,
        f2 * f2 <= 4 * u2,
        u2 * d <= q2,
        1000 * q2 <= 1002 * q1,
        q1 < (a1 + 1) * (b1 + 1) * d,
        4 * (a1 * b1) < (f1 + 2) * (f1 + 2),
    ensures
        1000 * (f2 * f2) < 1002 * ((f1 + 2) * (f1 + 2) + 4 * (a1 + b1 + 1)),
{
    assert((a1 + 1) * (b1 + 1) * d == (a1 * b1 + a1 + b1 + 1) * d) by (nonlinear_arith);
    assert((1000 * u2) * d == 1000 * (u2 * d)) by (nonlinear_arith);
    assert((1002 * (a1 * b1 + a1 + b1 + 1)) * d == 1002 * ((a1 * b1 + a1 + b1 + 1) * d)) by (
    nonlinear_arith);
    assert(1000 * u2 < 1002 * (a1 * b1 + a1 + b1 + 1)) by (nonlinear_arith)
        requires
            d > 0,
            (1000 * u2) * d < (1002 * (a1 * b1 + a1 + b1 + 1)) * d,
    ;
}

/// The position's fair value is computed without any overflow fallback: the pro-rata
/// products, the scaled shares and their product all fit in `i128`.
pub open spec fn fair_value_exact(p: PairPosition) -> bool {
    let ra = p.reserves.reserve_a_spec() as int;
    let rb = p.reserves.reserve_b_spec() as int;
    let (sa, sb) = fair_value_factors(p);
    &&& fits_i128(ra * p.lp_balance)
    &&& fits_i128(rb * p.lp_balance)
    &&& fits_i128(sa * 1_000_000)
    &&& fits_i128(sb * 1_000_000)
    &&& fits_i128((sa * 1_000_000) * (sb * 1_000_000))
}

/// A live position (LP held, positive supply, both reserves positive) valued exactly.
pub open spec fn fair_value_valued(p: PairPosition) -> bool {
    &&& p.lp_balance > 0
    &&& p.total_lp > 0
    &&& p.reserves.reserve_a_spec() > 0
    &&& p.reserves.reserve_b_spec() > 0
    &&& fair_value_exact(p)
}

/// The fair value of a valued position is `2 × sqrt(share_a × share_b)` to within the
/// rounding: `f² ≤ 4·sa·sb < (f + 2)²`.
proof fn lemma_fair_value_root(p: PairPosition)
    requires
        fair_value_valued(p),
    ensures
        ({
            let (sa, sb) = fair_value_factors(p);
            let f = fair_value_spec(p);
            &&& sa == (p.reserves.reserve_a_spec() * p.lp_balance) / (p.total_lp as int)
            &&& sb == (p.reserves.reserve_b_spec() * p.lp_balance) / (p.total_lp as int)
            &&& sa >= 0 && sb >= 0 && f >= 0
            &&& f * f <= 4 * (sa * sb)
            &&& 4 * (sa * sb) < (f + 2) * (f + 2)
        }),
{
    let ra = p.reserves.reserve_a_spec() as int;
    let rb = p.reserves.reserve_b_spec() as int;
    let lp = p.lp_balance as int;
    let t = p.total_lp as int;
    assert(ra * lp > 0 && rb * lp > 0) by (nonlinear_arith)
        requires
            ra > 0,
            rb > 0,
            lp > 0,
    ;
    lemma_div_bounds(ra * lp, t);
    lemma_div_bounds(rb * lp, t);
    assert((ra * lp) / t <= ra * lp) by (nonlinear_arith)
        requires
            t >= 1,
            ra * lp > 0,
            t * ((ra * lp) / t) <= ra * lp,
            (ra * lp) / t >= 0,
    ;
    assert((rb * lp) / t <= rb * lp) by (nonlinear_arith)
        requires
            t >= 1,
            rb * lp > 0,
            t * ((rb * lp) / t) <= rb * lp,
            (rb * lp) / t >= 0,
    ;
    let (sa, sb) = fair_value_factors(p);
    assert(sa == (ra * lp) / t);
    assert(sb == (rb * lp) / t);
    assert(scaled_or_kept(sa) * scaled_or_kept(sb) == (sa * sb) * 1_000_000_000_000) by (
    nonlinear_arith)
        requires
            scaled_or_kept(sa) == sa * 1_000_000,
            scaled_or_kept(sb) == sb * 1_000_000,
    ;
    assert(sa * sb >= 0) by (nonlinear_arith)
        requires
            sa >= 0,
            sb >= 0,
    ;
    lemma_scaled_root_bounds(sa * sb);
}

/// A swap that keeps `k` changes the fair value by rounding only: two positions with
/// the same LP balance and supply in pools with the same `k = reserve_a × reserve_b`
/// have fair values `f1`, `f2` with `f2² < (f1 + 2)² + 4·(sa1 + sb1 + 1)` and the
/// same with the positions exchanged, whatever the reserves' ratio.
pub proof fn lemma_fair_value_same_k(p1: PairPosition, p2: PairPosition)
    requires
        fair_value_valued(p1),
        fair_value_valued(p2),
        p1.lp_balance == p2.lp_balance,
        p1.total_lp == p2.total_lp,
        p1.reserves.reserve_a_spec() * p1.reserves.reserve_b_spec() == p2.reserves.reserve_a_spec()
            * p2.reserves.reserve_b_spec(),
    ensures
        ({
            let (sa1, sb1) = fair_value_factors(p1);
            let (sa2, sb2) = fair_value_factors(p2);
            let f1 = fair_value_spec(p1);
            let f2 = fair_value_spec(p2);
            &&& f2 * f2 < (f1 + 2) * (f1 + 2) + 4 * (sa1 + sb1 + 1)
            &&& f1 * f1 < (f2 + 2) * (f2 + 2) + 4 * (sa2 + sb2 + 1)
        }),
{
    let lp = p1.lp_balance as int;
    let t = p1.total_lp as int;
    let ra1 = p1.reserves.reserve_a_spec() as int;
    let rb1 = p1.reserves.reserve_b_spec() as int;
    let ra2 = p2.reserves.reserve_a_spec() as int;
    let rb2 = p2.reserves.reserve_b_spec() as int;
    lemma_fair_value_root(p1);
    lemma_fair_value_root(p2);
    lemma_share_product_bounds(ra1, rb1, lp, t);
    lemma_share_product_bounds(ra2, rb2, lp, t);
    let q = (ra1 * lp) * (rb1 * lp);
    assert((ra2 * lp) * (rb2 * lp) == q) by (nonlinear_arith)
        requires
            ra1 * rb1 == ra2 * rb2,
            q == (ra1 * lp) * (rb1 * lp),
    ;
    let (sa1, sb1) = fair_value_factors(p1);
    let (sa2, sb2) = fair_value_factors(p2);
    let f1 = fair_value_spec(p1);
    let f2 = fair_value_spec(p2);
    assert(t * t > 0) by (nonlinear_arith)
        requires
            t > 0,
    ;
    lemma_same_k_side(f2, sa2 * sb2, f1, sa1, sb1, q, q, t * t);
    lemma_same_k_side(f1, sa1 * sb1, f2, sa2, sb2, q, q, t * t);
}

/// Two rounded values of positions whose shares are each at least 1000, on pools
/// whose `k` differ by at most 0.2%, are within 0.5% of each other.
proof fn lemma_within_half_percent(f1: int, f2: int, sa1: int, sb1: int, sa2: int, sb2: int)
    requires
        f1 >= 0,
        f2 >= 0,
        sa1 >= 1000,
        sb1 >= 1000,
        sa2 >= 1000,
        sb2 >= 1000,
        4 * (sa1 * sb1) < (f1 + 2) * (f1 + 2),
        4 * (sa2 * sb2) < (f2 + 2) * (f2 + 2),
        1000 * (f2 * f2) < 1002 * ((f1 + 2) * (f1 + 2) + 4 * (sa1 + sb1 + 1)),
        f1 * f1 < (f2 + 2) * (f2 + 2) + 4 * (sa2 + sb2 + 1),
    ensures
        199 * f1 <= 200 * f2 <= 201 * f1,
{
    assert(1000 * (sa1 + sb1) <= 2 * (sa1 * sb1)) by (nonlinear_arith)
        requires
            sa1 >= 1000,
            sb1 >= 1000,
    ;
    assert(1000 * (sa2 + sb2) <= 2 * (sa2 * sb2)) by (nonlinear_arith)
        requires
            sa2 >= 1000,
            sb2 >= 1000,
    ;
    assert(sa1 * sb1 >= 1_000_000) by (nonlinear_arith)
        requires
            sa1 >= 1000,
            sb1 >= 1000,
    ;
    assert(f1 >= 1999) by (nonlinear_arith)
        requires
            f1 >= 0,
            4_000_000 < (f1 + 2) * (f1 + 2),
    ;
    assert(f1 * f1 >= 1999 * f1) by (nonlinear_arith)
        requires
            f1 >= 1999,
    ;
    assert((f1 + 2) * (f1 + 2) == f1 * f1 + 4 * f1 + 4) by (nonlinear_arith);
    if 200 * f2 > 201 * f1 {
        assert(40401 * (f1 * f1) < 40000 * (f2 * f2)) by (nonlinear_arith)
            requires
                0 <= 201 * f1 < 200 * f2,
        ;
    }
    if 200 * f2 < 199 * f1 {
        assert(40000 * ((f2 + 2) * (f2 + 2)) < 39601 * (f1 * f1) + 159200 * f1 + 160000) by (
        nonlinear_arith)
            requires
                0 <= 200 * (f2 + 2) < 199 * f1 + 400,
        ;
    }
}

/// The fair value resists manipulation: between two positions with the same LP balance
/// and supply, on pools whose `k = reserve_a × reserve_b` is the same or has grown by
/// at most 0.2% (what a swap's fee adds), the fair value moves by at most 0.5%:
/// `|f2 − f1| × 10_000 ≤ f1 × 50`, whatever the reserves' ratio, as long as each of
/// the position's shares is at least 1000 units (below that, rounding alone is larger
/// than 0.5%).
pub proof fn lemma_fair_value_resists_skew(p1: PairPosition, p2: PairPosition)
    requires
        fair_value_valued(p1),
        fair_value_valued(p2),
        p1.lp_balance == p2.lp_balance,
        p1.total_lp == p2.total_lp,
        p1.reserves.reserve_a_spec() * p1.reserves.reserve_b_spec() <= p2.reserves.reserve_a_spec()
            * p2.reserves.reserve_b_spec(),
        1000 * (p2.reserves.reserve_a_spec() * p2.reserves.reserve_b_spec()) <= 1002 * (
        p1.reserves.reserve_a_spec() * p1.reserves.reserve_b_spec()),
        fair_value_factors(p1).0 >= 1000,
        fair_value_factors(p1).1 >= 1000,
        fair_value_factors(p2).0 >= 1000,
        fair_value_factors(p2).1 >= 1000,
    ensures
        199 * fair_value_spec(p1) <= 200 * fair_value_spec(p2) <= 201 * fair_value_spec(p1),
        (fair_value_spec(p2) - fair_value_spec(p1)) * 10_000 <= fair_value_spec(p1) * 50,
        (fair_value_spec(p1) - fair_value_spec(p2)) * 10_000 <= fair_value_spec(p1) * 50,
{
    let lp = p1.lp_balance as int;
    let t = p1.total_lp as int;
    let ra1 = p1.reserves.reserve_a_spec() as int;
    let rb1 = p1.reserves.reserve_b_spec() as int;
    let ra2 = p2.reserves.reserve_a_spec() as int;
    let rb2 = p2.reserves.reserve_b_spec() as int;
    lemma_fair_value_root(p1);
    lemma_fair_value_root(p2);
    lemma_share_product_bounds(ra1, rb1, lp, t);
    lemma_share_product_bounds(ra2, rb2, lp, t);
    let q1 = (ra1 * lp) * (rb1 * lp);
    let q2 = (ra2 * lp) * (rb2 * lp);
    assert(q1 <= q2 && 1000 * q2 <= 1002 * q1) by (nonlinear_arith)
        requires
            ra1 * rb1 <= ra2 * rb2,
            1000 * (ra2 * rb2) <= 1002 * (ra1 * rb1),
            q1 == (ra1 * lp) * (rb1 * lp),
            q2 == (ra2 * lp) * (rb2 * lp),
    ;
    let (sa1, sb1) = fair_value_factors(p1);
    let (sa2, sb2) = fair_value_factors(p2);
    let f1 = fair_value_spec(p1);
    let f2 = fair_value_spec(p2);
    assert(t * t > 0) by (nonlinear_arith)
        requires
            t > 0,
    ;
    lemma_grown_k_side(f2, sa2 * sb2, f1, sa1, sb1, q2, q1, t * t);
    lemma_same_k_side(f1, sa1 * sb1, f2, sa2, sb2, q1, q2, t * t);
    lemma_within_half_percent(f1, f2, sa1, sb1, sa2, sb2);
}

/// A Soroswap swap of `a` (at most 10% of the input reserve `r`) against an output
/// reserve `s` of at least 1000 keeps `k` or raises it, by less than 0.2%: the
/// pool keeps the whole input and pays out the fee-reduced, rounded-down output.
proof fn lemma_swap_k_growth(r: int, s: int, a: int)
    requires
        a > 0,
        10 * a <= r,
        s >= 1000,
    ensures
        ({
            let out = (a * 997 * s) / (r * 1000 + a * 997);
            &&& 0 <= out < s
            &&& r * s <= (r + a) * (s - out)
            &&& 1000 * ((r + a) * (s - out)) <= 1002 * (r * s)
        }),
{
    let d = r * 1000 + a * 997;
    let n = a * 997 * s;
    assert(n >= 0 && d > 0) by (nonlinear_arith)
        requires
            a > 0,
            r > 0,
            s > 0,
            n == a * 997 * s,
            d == r * 1000 + a * 997,
    ;
    lemma_div_bounds(n, d);
    let out = n / d;
    let e = s - out;
    let p = r * s;
    // d·e = d·s − d·out, and d·s = 1000·r·s + n
    assert(d * e == d * s - d * out) by (nonlinear_arith)
        requires
            e == s - out,
    ;
    assert(d * s == 1000 * p + n) by (nonlinear_arith)
        requires
            d == r * 1000 + a * 997,
            n == a * 997 * s,
            p == r * s,
    ;
    assert(n < d * s) by (nonlinear_arith)
        requires
            d == r * 1000 + a * 997,
            n == a * 997 * s,
            r > 0,
            s > 0,
    ;
    assert(out < s) by (nonlinear_arith)
        requires
            d * out <= n,
            n < d * s,
            d > 0,
    ;
    // lower: d·e ≥ 1000·r·s, and 1000·(r + a) ≥ d
    assert(r * s <= (r + a) * e) by (nonlinear_arith)
        requires
            d * e >= 1000 * p,
            p == r * s,
            1000 * (r + a) >= d,
            e > 0,
            d > 0,
    ;
    // upper: d·e < 1000·r·s + d, and 1000·(r + a)·(1000·p + d) ≤ 1002·p·d
    assert(d * (out + 1) == d * out + d) by (nonlinear_arith);
    assert(d * e < 1000 * p + d);
    assert(10 * (a * p) <= r * p) by (nonlinear_arith)
        requires
            10 * a <= r,
            p >= 0,
    ;
    assert(r * p >= 1000 * (r * r)) by (nonlinear_arith)
        requires
            p == r * s,
            s >= 1000,
            r > 0,
    ;
    assert(10 * (a * r) <= r * r && 100 * (a * a) <= r * r) by (nonlinear_arith)
        requires
            0 < 10 * a <= r,
    ;
    assert(1000 * (r + a) * (1000 * p + d) == 1_000_000 * (r * p) + 1_000_000 * (a * p)
        + 1_000_000 * (r * r) + 1_997_000 * (a * r) + 997_000 * (a * a)) by (nonlinear_arith)
        requires
            d == r * 1000 + a * 997,
    ;
    assert(1002 * p * d == 1_002_000 * (r * p) + 998_994 * (a * p)) by (nonlinear_arith)
        requires
            d == r * 1000 + a * 997,
    ;
    assert(1000 * (r + a) * (1000 * p + d) <= 1002 * p * d);
    assert(d * (1000 * (r + a) * e) < d * (1002 * p)) by (nonlinear_arith)
        requires
            d * e < 1000 * p + d,
            r + a > 0,
            1000 * (r + a) * (1000 * p + d) <= 1002 * p * d,
    ;
    assert(1000 * ((r + a) * e) <= 1002 * p) by (nonlinear_arith)
        requires
            d * (1000 * (r + a) * e) < d * (1002 * p),
            d > 0,
    ;
}

/// The test's attack, stated in general: a single Soroswap swap of at most 10% of the
/// input reserve (token_a for token_b when `a_to_b`, otherwise the reverse), made by a
/// third party while the holder's LP balance and the supply stay as they are, moves
/// the position's fair value by at most 0.5%, `|f2 − f1| × 10_000 ≤ f1 × 50`, when
/// each of the position's shares is at least 1000 units before and after.
pub proof fn lemma_fair_value_resists_swap(p1: PairPosition, p2: PairPosition, amount_in: int, a_to_b: bool)
    requires
        fair_value_valued(p1),
        fair_value_valued(p2),
        p1.lp_balance == p2.lp_balance,
        p1.total_lp == p2.total_lp,
        p1.lp_balance <= p1.total_lp,
        amount_in > 0,
        a_to_b ==> ({
            let r = p1.reserves.reserve_a_spec() as int;
            let s = p1.reserves.reserve_b_spec() as int;
            &&& 10 * amount_in <= r
            &&& fits_i128(amount_in * 997 * s)
            &&& fits_i128(r * 1000 + amount_in * 997)
            &&& p2.reserves.reserve_a_spec() == r + amount_in
            &&& p2.reserves.reserve_b_spec() == s - amm_out_spec(amount_in, r, s)
        }),
        !a_to_b ==> ({
            let r = p1.reserves.reserve_b_spec() as int;
            let s = p1.reserves.reserve_a_spec() as int;
            &&& 10 * amount_in <= r
            &&& fits_i128(amount_in * 997 * s)
            &&& fits_i128(r * 1000 + amount_in * 997)
            &&& p2.reserves.reserve_b_spec() == r + amount_in
            &&& p2.reserves.reserve_a_spec() == s - amm_out_spec(amount_in, r, s)
        }),
        fair_value_factors(p1).0 >= 1000,
        fair_value_factors(p1).1 >= 1000,
        fair_value_factors(p2).0 >= 1000,
        fair_value_factors(p2).1 >= 1000,
    ensures
        199 * fair_value_spec(p1) <= 200 * fair_value_spec(p2) <= 201 * fair_value_spec(p1),
        (fair_value_spec(p2) - fair_value_spec(p1)) * 10_000 <= fair_value_spec(p1) * 50,
        (fair_value_spec(p1) - fair_value_spec(p2)) * 10_000 <= fair_value_spec(p1) * 50,
{
    let lp = p1.lp_balance as int;
    let t = p1.total_lp as int;
    let ra = p1.reserves.reserve_a_spec() as int;
    let rb = p1.reserves.reserve_b_spec() as int;
    lemma_fair_value_root(p1);
    let (sa, sb) = fair_value_factors(p1);
    assert(sa <= ra && sb <= rb) by (nonlinear_arith)
        requires
            sa == (ra * lp) / t,
            sb == (rb * lp) / t,
            0 < lp <= t,
            ra > 0,
            rb > 0,
    {
        assert(ra * lp <= ra * t) by (nonlinear_arith)
            requires
                lp <= t,
                ra > 0,
        ;
        assert(rb * lp <= rb * t) by (nonlinear_arith)
            requires
                lp <= t,
                rb > 0,
        ;
    }
    if a_to_b {
        lemma_amm_out_below_reserve(amount_in, ra, rb);
        lemma_swap_k_growth(ra, rb, amount_in);
        assert(ra * rb == rb * ra && (ra + amount_in) * (rb - amm_out_spec(amount_in, ra, rb))
            == p2.reserves.reserve_a_spec() * p2.reserves.reserve_b_spec());
    } else {
        lemma_amm_out_below_reserve(amount_in, rb, ra);
        lemma_swap_k_growth(rb, ra, amount_in);
        assert(rb * ra == ra * rb) by (nonlinear_arith);
        assert((rb + amount_in) * (ra - amm_out_spec(amount_in, rb, ra)) == p2.reserves.reserve_a_spec()
            * p2.reserves.reserve_b_spec()) by (nonlinear_arith)
            requires
                p2.reserves.reserve_b_spec() == rb + amount_in,
                p2.reserves.reserve_a_spec() == ra - amm_out_spec(amount_in, rb, ra),
        ;
    }
    lemma_fair_value_resists_skew(p1, p2);
}

/// Price impact, in bps, of swapping `amount_in` of token_a into the pair.
pub fn get_price_impact_bps(amount_in: i128, reserves: &PairReserves) -> (r: u32)
    ensures
        r == price_impact_spec(amount_in as int, reserves.reserve_a_spec() as int),
{
    let reserve_in = reserves.reserve_a();
    price_impact_bps(amount_in, reserve_in)
}

// ─── Swap output estimate ─────────────────────────────────────────────────────

/// Soroswap constant-product output with its 0.3% fee:
/// `amount_in × 997 × reserve_out / (reserve_in × 1000 + amount_in × 997)`.
/// A product that leaves `i128` counts as 0 in the numerator, `reserve_in × 1000`
/// counts as 1 when it overflows, an overflowing denominator counts as 1, and an
/// undefined quotient gives 0.
pub open spec fn amm_out_spec(amount_in: int, reserve_in: int, reserve_out: int) -> int {
    let in_with_fee = if fits_i128(amount_in * 997) {
        amount_in * 997
    } else {
        0
    };
    let numerator = if fits_i128(in_with_fee * reserve_out) {
        in_with_fee * reserve_out
    } else {
        0
    };
    let scaled_reserve = if fits_i128(reserve_in * 1000) {
        reserve_in * 1000
    } else {
        1
    };
    let denominator = if fits_i128(scaled_reserve + in_with_fee) {
        scaled_reserve + in_with_fee
    } else {
        1
    };
    if denominator != 0 && fits_i128(tdiv(numerator, denominator)) {
        tdiv(numerator, denominator)
    } else {
        0
    }
}

/// Expected output of swapping `amount_in` into a pool holding `reserve_in` of the
/// input token and `reserve_out` of the output token.
pub fn estimate_swap_out(amount_in: i128, reserve_in: i128, reserve_out: i128) -> (r: i128)
    ensures
        r == amm_out_spec(amount_in as int, reserve_in as int, reserve_out as int),
{
    let in_with_fee = amount_in.checked_mul(997).unwrap_or(0);
    let numerator = in_with_fee.checked_mul(reserve_out).unwrap_or(0);
    let denominator = reserve_in.checked_mul(1000).unwrap_or(1).checked_add(in_with_fee).unwrap_or(
        1,
    );
    numerator.checked_div(denominator).unwrap_or(0)
}

/// Without overflow, the estimate is the constant-product formula, and it never
/// reaches the whole output reserve.
pub proof fn lemma_amm_out_below_reserve(amount_in: int, reserve_in: int, reserve_out: int)
    requires
        amount_in >= 0,
        reserve_in > 0,
        reserve_out >= 0,
        fits_i128(amount_in * 997 * reserve_out),
        fits_i128(reserve_in * 1000 + amount_in * 997),
    ensures
        amm_out_spec(amount_in, reserve_in, reserve_out) == (amount_in * 997 * reserve_out) / (
        reserve_in * 1000 + amount_in * 997),
        reserve_out > 0 ==> amm_out_spec(amount_in, reserve_in, reserve_out) < reserve_out,
        reserve_out == 0 ==> amm_out_spec(amount_in, reserve_in, reserve_out) == 0,
{
    assert(0 <= amount_in * 997 <= amount_in * 997 * reserve_out || reserve_out == 0) by (
    nonlinear_arith)
        requires
            amount_in >= 0,
            reserve_out >= 0,
    ;
    assert(0 <= amount_in * 997 * reserve_out) by (nonlinear_arith)
        requires
            amount_in >= 0,
            reserve_out >= 0,
    ;
    assert(fits_i128(amount_in * 997)) by (nonlinear_arith)
        requires
            amount_in >= 0,
            reserve_in > 0,
            fits_i128(reserve_in * 1000 + amount_in * 997),
    ;
    assert(fits_i128(reserve_in * 1000)) by (nonlinear_arith)
        requires
            amount_in >= 0,
            reserve_in > 0,
            fits_i128(reserve_in * 1000 + amount_in * 997),
    ;
    let n = amount_in * 997 * reserve_out;
    let d = reserve_in * 1000 + amount_in * 997;
    assert(n / d <= n) by (nonlinear_arith)
        requires
            n >= 0,
            d >= 1000,
    ;
    if reserve_out > 0 {
        assert(n / d < reserve_out) by (nonlinear_arith)
            requires
                n == amount_in * 997 * reserve_out,
                d == reserve_in * 1000 + amount_in * 997,
                reserve_in > 0,
                amount_in >= 0,
                reserve_out > 0,
        ;
    } else {
        assert(n == 0) by (nonlinear_arith)
            requires
                n == amount_in * 997 * reserve_out,
                reserve_out == 0,
        ;
    }
}

/// What a router swap delivered: the last amount of the returned path, or 0 when the
/// router returned no amounts.
pub open spec fn received_spec(amounts: Seq<i128>) -> i128 {
    if amounts.len() == 0 {
        0
    } else {
        amounts.last()
    }
}

/// The amount a router swap delivered (`amounts.last()`, or 0).
pub fn received_amount(amounts: &Vec<i128>) -> (r: i128)
    ensures
        r == received_spec(amounts@),
{
    if amounts.len() == 0 {
        0
    } else {
        amounts[amounts.len() - 1]
    }
}

// ─── Deposit ──────────────────────────────────────────────────────────────────

/// First step of a deposit: swap half of token_a for token_b.
#[derive(Clone, Copy, Debug, PartialEq, Eq, Structural)]
pub struct DepositSwap {
    /// token_a to swap into token_b (`amount / 2`, rounded toward zero).
    pub swap_amount: i128,
    /// token_a kept for the liquidity leg.
    pub remaining_a: i128,
    /// Least token_b the swap may deliver.
    pub min_b_out: i128,
}

/// Second step of a deposit: the `add_liquidity` call.
#[derive(Clone, Copy, Debug, PartialEq, Eq, Structural)]
pub struct AddLiquidity {
    pub amount_a: i128,
    pub amount_b: i128,
    pub min_a: i128,
    pub min_b: i128,
}

/// Decides the swap leg of depositing `amount` of token_a into the pair.
///
///   1. Check the price impact of the half-swap against `max_price_impact_bps`.
///   2. Swap half of token_a → token_b with `min_amount_out` derived from config.
///
/// Fails with `PriceImpactTooHigh` exactly when the half-swap's price impact exceeds
/// the configured limit.
pub fn plan_deposit_swap(amount: i128, config: &SlippageConfig, reserves: &PairReserves) -> (r:
    Result<DepositSwap, Error>)
    ensures
        ({
            let swap = tdiv(amount as int, 2);
            let impact = price_impact_spec(swap, reserves.reserve_a_spec() as int);
            match r {
                Ok(plan) => {
                    &&& impact <= config.max_price_impact_bps
                    &&& plan.swap_amount == swap
                    &&& plan.remaining_a == amount - swap
                    &&& plan.min_b_out == min_out_spec(
                        amm_out_spec(
                            swap,
                            reserves.reserve_a_spec() as int,
                            reserves.reserve_b_spec() as int,
                        ),
                        config.max_slippage_bps as int,
                    )
                },
                Err(e) => e == Error::PriceImpactTooHigh && impact > config.max_price_impact_bps,
            }
        }),
{
    let swap_amount = amount / 2;
    let remaining_a = amount - swap_amount;

    let impact = get_price_impact_bps(swap_amount, reserves);
    if impact > config.max_price_impact_bps {
        return Err(Error::PriceImpactTooHigh);
    }
    let reserve_in = reserves.reserve_a();
    let reserve_out = reserves.reserve_b();
    let expected_b = estimate_swap_out(swap_amount, reserve_in, reserve_out);
    let min_b_out = config.min_out(expected_b);
    Ok(DepositSwap { swap_amount, remaining_a, min_b_out })
}

/// Decides the liquidity leg of a deposit from what the swap delivered and the
/// reserves after it: token_b is added in the pool's ratio to the remaining token_a
/// (`remaining_a × reserve_b / reserve_a`) but never more than was received, and each
/// leg gets the configured slippage floor.
pub fn plan_add_liquidity(
    remaining_a: i128,
    b_received: i128,
    config: &SlippageConfig,
    reserves: &PairReserves,
) -> (r: AddLiquidity)
    ensures
        ({
            let b_optimal = mul_div_or_zero_spec(
                remaining_a as int,
                reserves.reserve_b_spec() as int,
                reserves.reserve_a_spec() as int,
            );
            &&& r.amount_a == remaining_a
            &&& r.amount_b == if b_optimal < b_received {
                b_optimal
            } else {
                b_received as int
            }
            &&& r.amount_b <= b_received
            &&& r.min_a == min_out_spec(remaining_a as int, config.max_slippage_bps as int)
            &&& r.min_b == min_out_spec(r.amount_b as int, config.max_slippage_bps as int)
        }),
{
    let reserve_a = reserves.reserve_a();
    let reserve_b = reserves.reserve_b();
    let b_optimal = mul_div_or_zero(remaining_a, reserve_b, reserve_a);
    let b_to_add = if b_optimal < b_received {
        b_optimal
    } else {
        b_received
    };
    let min_a = config.min_out(remaining_a);
    let min_b = config.min_out(b_to_add);
    AddLiquidity { amount_a: remaining_a, amount_b: b_to_add, min_a, min_b }
}

/// The two legs of a deposit together use exactly the deposited token_a.
pub proof fn lemma_deposit_split(amount: int)
    requires
        fits_i128(amount),
    ensures
        tdiv(amount, 2) + (amount - tdiv(amount, 2)) == amount,
        amount >= 0 ==> 0 <= tdiv(amount, 2) <= amount - tdiv(amount, 2) <= tdiv(amount, 2) + 1,
{
}

// ─── Withdraw ─────────────────────────────────────────────────────────────────

/// The `remove_liquidity` call of a withdrawal.
#[derive(Clone, Copy, Debug, PartialEq, Eq, Structural)]
pub struct RemoveLiquidity {
    pub lp_to_burn: i128,
    pub min_a_out: i128,
    pub min_b_out: i128,
}

/// The swap of the withdrawn token_b back into token_a.
#[derive(Clone, Copy, Debug, PartialEq, Eq, Structural)]
pub struct SwapBack {
    pub amount_in: i128,
    pub min_out: i128,
}

/// LP tokens to burn for a withdrawal of `amount` from a position of `lp_balance`
/// LP tokens worth `total_balance`: all of them when `amount` covers the position,
/// else `lp_balance × amount / total_balance`. When `lp_balance × amount` overflows,
/// `lp_balance` stands in for the product; when the division is undefined, the whole
/// balance is burnt.
pub open spec fn lp_to_burn_spec(amount: int, lp_balance: int, total_balance: int) -> int {
    if amount >= total_balance {
        lp_balance
    } else {
        let product = if fits_i128(lp_balance * amount) {
            lp_balance * amount
        } else {
            lp_balance
        };
        if total_balance != 0 && fits_i128(tdiv(product, total_balance)) {
            tdiv(product, total_balance)
        } else {
            lp_balance
        }
    }
}

/// Decides the liquidity removal of withdrawing `amount` (token_a units) from the
/// adapter's position: burns LP tokens proportional to `amount / fair_value`, with
/// each token's pro-rata share of the removed liquidity as the slippage-reduced
/// floor. `None` (nothing to do, the withdrawal returns 0) when the position holds no
/// LP tokens, is worth nothing, or the amount rounds to no LP token.
pub fn plan_withdraw(amount: i128, position: &PairPosition, config: &SlippageConfig) -> (r:
    Option<RemoveLiquidity>)
    ensures
        ({
            let total_balance = fair_value_spec(*position);
            let burn = lp_to_burn_spec(amount as int, position.lp_balance as int, total_balance);
            if position.lp_balance == 0 || total_balance == 0 || burn == 0 {
                r is None
            } else {
                &&& r is Some
                &&& r->0.lp_to_burn == burn
                &&& r->0.min_a_out == min_out_spec(
                    mul_div_or_zero_spec(
                        position.reserves.reserve_a_spec() as int,
                        burn,
                        position.total_lp as int,
                    ),
                    config.max_slippage_bps as int,
                )
                &&& r->0.min_b_out == min_out_spec(
                    mul_div_or_zero_spec(
                        position.reserves.reserve_b_spec() as int,
                        burn,
                        position.total_lp as int,
                    ),
                    config.max_slippage_bps as int,
                )
            }
        }),
{
    let lp_balance = position.lp_balance;
    if lp_balance == 0 {
        return None;
    }
    let total_balance = get_fair_value(position);
    if total_balance == 0 {
        return None;
    }
    let lp_to_burn = if amount >= total_balance {
        lp_balance
    } else {
        lp_balance.checked_mul(amount).unwrap_or(lp_balance).checked_div(total_balance).unwrap_or(
            lp_balance,
        )
    };
    if lp_to_burn == 0 {
        return None;
    }
    let total_lp = position.total_lp;
    let reserve_a = position.reserves.reserve_a();
    let reserve_b = position.reserves.reserve_b();
    let expected_a_out = mul_div_or_zero(reserve_a, lp_to_burn, total_lp);
    let expected_b_out = mul_div_or_zero(reserve_b, lp_to_burn, total_lp);
    let min_a_out = config.min_out(expected_a_out);
    let min_b_out = config.min_out(expected_b_out);
    Some(RemoveLiquidity { lp_to_burn, min_a_out, min_b_out })
}

/// A withdrawal of a non-negative amount never burns more LP tokens than the position
/// holds, and one that covers the whole fair value burns all of them.
pub proof fn lemma_withdraw_burn_bounded(amount: int, lp_balance: int, total_balance: int)
    requires
        amount >= 0,
        lp_balance > 0,
        total_balance > 0,
        fits_i128(lp_balance),
    ensures
        0 <= lp_to_burn_spec(amount, lp_balance, total_balance) <= lp_balance,
        amount >= total_balance ==> lp_to_burn_spec(amount, lp_balance, total_balance)
            == lp_balance,
{
    if amount < total_balance {
        if fits_i128(lp_balance * amount) {
            assert(0 <= lp_balance * amount <= lp_balance * total_balance) by (nonlinear_arith)
                requires
                    0 <= amount < total_balance,
                    lp_balance > 0,
            ;
            assert((lp_balance * amount) / total_balance <= lp_balance) by (nonlinear_arith)
                requires
                    0 <= lp_balance * amount <= lp_balance * total_balance,
                    total_balance > 0,
            ;
        } else {
            assert(lp_balance / total_balance <= lp_balance) by (nonlinear_arith)
                requires
                    lp_balance > 0,
                    total_balance > 0,
            ;
        }
    }
}

/// A withdrawal of less than the position's fair value `V` burns LP tokens in
/// proportion to `amount / V`, rounded down: `b·V ≤ lp_balance·amount < (b + 1)·V`;
/// only a withdrawal of at least `V` burns the whole balance.
pub proof fn lemma_withdraw_burn_proportional(amount: int, lp_balance: int, total_balance: int)
    requires
        0 <= amount,
        lp_balance > 0,
        total_balance > 0,
        fits_i128(lp_balance * amount),
    ensures
        amount < total_balance ==> lp_to_burn_spec(amount, lp_balance, total_balance)
            * total_balance <= lp_balance * amount < (lp_to_burn_spec(
            amount,
            lp_balance,
            total_balance,
        ) + 1) * total_balance,
        amount < total_balance ==> lp_to_burn_spec(amount, lp_balance, total_balance) < lp_balance,
        amount >= total_balance ==> lp_to_burn_spec(amount, lp_balance, total_balance)
            == lp_balance,
{
    if amount < total_balance {
        let p = lp_balance * amount;
        assert(0 <= p < lp_balance * total_balance) by (nonlinear_arith)
            requires
                0 <= amount < total_balance,
                lp_balance > 0,
                p == lp_balance * amount,
        ;
        vstd::arithmetic::div_mod::lemma_fundamental_div_mod(p, total_balance);
        vstd::arithmetic::div_mod::lemma_mod_pos_bound(p, total_balance);
        let q = p / total_balance;
        assert(q * total_balance <= p < (q + 1) * total_balance && 0 <= q <= p) by (
        nonlinear_arith)
            requires
                p == total_balance * q + p % total_balance,
                0 <= p % total_balance < total_balance,
                p >= 0,
                total_balance >= 1,
        ;
        assert(q < lp_balance) by (nonlinear_arith)
            requires
                q * total_balance <= p,
                p < lp_balance * total_balance,
                total_balance > 0,
        ;
    }
}

/// Decides the swap of the withdrawn token_b back to token_a, against the reserves at
/// that point. `None` when no token_b came out.
pub fn plan_swap_back(b_out: i128, reserves: &PairReserves, config: &SlippageConfig) -> (r: Option<
    SwapBack,
>)
    ensures
        b_out <= 0 ==> r is None,
        b_out > 0 ==> r == Some(
            SwapBack {
                amount_in: b_out,
                min_out: min_out_spec(
                    amm_out_spec(
                        b_out as int,
                        reserves.reserve_b_spec() as int,
                        reserves.reserve_a_spec() as int,
                    ),
                    config.max_slippage_bps as int,
                ) as i128,
            },
        ),
{
    if b_out > 0 {
        let r_in = reserves.reserve_b();
        let r_out = reserves.reserve_a();
        let expected_swap_a = estimate_swap_out(b_out, r_in, r_out);
        let min_swap_a = config.min_out(expected_swap_a);
        Some(SwapBack { amount_in: b_out, min_out: min_swap_a })
    } else {
        None
    }
}

/// How a withdrawal settles: the token_a collected, and whether it is sent on to the
/// vault (only a positive amount is transferred).
#[derive(Clone, Copy, Debug, PartialEq, Eq, Structural)]
pub struct WithdrawSettlement {
    pub total_a: i128,
    pub transfer_to_vault: bool,
}

/// Settles a withdrawal from the token_a that `remove_liquidity` returned and the
/// token_a that the swap back delivered (0 when there was no swap).
pub fn settle_withdraw(a_out: i128, swapped_a: i128) -> (r: WithdrawSettlement)
    requires
        fits_i128(a_out + swapped_a),
    ensures
        r.total_a == a_out + swapped_a,
        r.transfer_to_vault == (r.total_a > 0),
{
    let total_a = a_out + swapped_a;
    WithdrawSettlement { total_a, transfer_to_vault: total_a > 0 }
}

} // verus!
