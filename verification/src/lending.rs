use vstd::prelude::*;
use crate::arith::{fits_i128, tdiv, mul_div_or_zero, mul_div_or_zero_spec};

verus! {

/// Fixed-point scale of a lending pool's b-token rate: `b_rate == 10^12` means one
/// b-token is worth one underlying token.
pub const SCALAR_12: i128 = 1_000_000_000_000;

/// b-tokens to burn to withdraw `amount` underlying at `b_rate`:
/// `ceil(amount × 10^12 / b_rate)`, computed as `(amount × 10^12 + b_rate - 1) / b_rate`
/// where an overflowing product or sum is taken as `i128::MAX`, and 0 when the
/// division is undefined.
pub open spec fn b_tokens_for_spec(amount: int, b_rate: int) -> int {
    let scaled = if fits_i128(amount * 1_000_000_000_000) {
        amount * 1_000_000_000_000
    } else {
        i128::MAX as int
    };
    let rounded = if fits_i128(scaled + (b_rate - 1)) {
        scaled + (b_rate - 1)
    } else {
        i128::MAX as int
    };
    if b_rate != 0 && fits_i128(tdiv(rounded, b_rate)) {
        tdiv(rounded, b_rate)
    } else {
        0
    }
}

/// Underlying value of `b_tokens` at `b_rate`: `b_tokens × b_rate / 10^12`, rounded
/// toward zero, 0 when the product overflows.
pub open spec fn underlying_spec(b_tokens: int, b_rate: int) -> int {
    mul_div_or_zero_spec(b_tokens, b_rate, 1_000_000_000_000)
}

/// Converts a requested underlying amount to b-tokens, rounding up so that the
/// withdrawal covers the amount (ceiling division to avoid dust).
/// (`b_rate - 1` overflows at `i128::MIN`.)
pub fn b_tokens_for_underlying(amount: i128, b_rate: i128) -> (r: i128)
    requires
        b_rate > i128::MIN,
    ensures
        r == b_tokens_for_spec(amount as int, b_rate as int),
{
    amount.checked_mul(SCALAR_12).unwrap_or(i128::MAX).checked_add(b_rate - 1).unwrap_or(
        i128::MAX,
    ).checked_div(b_rate).unwrap_or(0)
}

/// Underlying value of `b_tokens`: `b_tokens × b_rate / SCALAR_12` (floor).
pub fn underlying_for_b_tokens(b_tokens: i128, b_rate: i128) -> (r: i128)
    ensures
        r == underlying_spec(b_tokens as int, b_rate as int),
{
    mul_div_or_zero(b_tokens, b_rate, SCALAR_12)
}

/// Without overflow, the b-token conversion is the ceiling of `amount × 10^12 / b_rate`:
/// non-negative, and worth at least `amount × 10^12` at `b_rate`.
pub proof fn lemma_b_tokens_ceil(amount: int, b_rate: int)
    requires
        amount >= 0,
        b_rate > 0,
        fits_i128(amount * 1_000_000_000_000 + b_rate - 1),
    ensures
        b_tokens_for_spec(amount, b_rate) == (amount * 1_000_000_000_000 + b_rate - 1) / b_rate,
        b_tokens_for_spec(amount, b_rate) >= 0,
        b_tokens_for_spec(amount, b_rate) * b_rate >= amount * 1_000_000_000_000,
{
    assert(0 <= amount * 1_000_000_000_000) by (nonlinear_arith)
        requires
            amount >= 0,
    ;
    let n = amount * 1_000_000_000_000 + b_rate - 1;
    let t = n / b_rate;
    assert(t * b_rate >= amount * 1_000_000_000_000 && t >= 0) by (nonlinear_arith)
        requires
            n == amount * 1_000_000_000_000 + b_rate - 1,
            t == n / b_rate,
            b_rate > 0,
            amount >= 0,
    ;
}

/// Rounding up on the way in and down on the way out never leaves the caller short:
/// the b-tokens computed for `amount` are worth at least `amount`, when nothing
/// overflows.
pub proof fn lemma_ceil_then_floor_covers(amount: int, b_rate: int)
    requires
        amount >= 0,
        b_rate > 0,
        fits_i128(amount * 1_000_000_000_000 + b_rate - 1),
        fits_i128(b_tokens_for_spec(amount, b_rate) * b_rate),
    ensures
        b_tokens_for_spec(amount, b_rate) >= 0,
        underlying_spec(b_tokens_for_spec(amount, b_rate), b_rate) >= amount,
{
    lemma_b_tokens_ceil(amount, b_rate);
    let t = b_tokens_for_spec(amount, b_rate);
    assert((t * b_rate) / 1_000_000_000_000 >= amount && t * b_rate >= 0) by (nonlinear_arith)
        requires
            t * b_rate >= amount * 1_000_000_000_000,
            amount >= 0,
    ;
}

/// The floor valuation is monotone: fewer b-tokens are never worth more.
pub proof fn lemma_underlying_monotone(x: int, y: int, b_rate: int)
    requires
        0 <= x <= y,
        b_rate >= 0,
        fits_i128(y * b_rate),
    ensures
        0 <= underlying_spec(x, b_rate) <= underlying_spec(y, b_rate),
{
    assert(0 <= x * b_rate <= y * b_rate) by (nonlinear_arith)
        requires
            0 <= x <= y,
            b_rate >= 0,
    ;
    assert((x * b_rate) / 1_000_000_000_000 <= (y * b_rate) / 1_000_000_000_000) by (
    nonlinear_arith)
        requires
            0 <= x * b_rate <= y * b_rate,
    ;
    assert(0 <= (x * b_rate) / 1_000_000_000_000) by (nonlinear_arith)
        requires
            0 <= x * b_rate,
    ;
}

} // verus!
