use vstd::prelude::*;

verus! {

/// Whether a mathematical integer is representable as an `i128`.
pub open spec fn fits_i128(x: int) -> bool {
    i128::MIN <= x <= i128::MAX
}

/// Integer division rounding toward zero, as Rust's `/` on signed integers does.
pub open spec fn tdiv(a: int, b: int) -> int
    recommends
        b != 0,
{
    if a >= 0 && b > 0 {
        a / b
    } else if a < 0 && b < 0 {
        (-a) / (-b)
    } else if a < 0 {
        -((-a) / b)
    } else {
        -(a / (-b))
    }
}

/// `a * b / c` rounded toward zero, or 0 when the product or the quotient leaves
/// `i128` or `c` is zero.
pub open spec fn mul_div_or_zero_spec(a: int, b: int, c: int) -> int {
    if fits_i128(a * b) && c != 0 && fits_i128(tdiv(a * b, c)) {
        tdiv(a * b, c)
    } else {
        0
    }
}

/// Computes `a * b / c` with checked arithmetic, falling back to 0 when the
/// multiplication overflows or the division is undefined.
pub fn mul_div_or_zero(a: i128, b: i128, c: i128) -> (r: i128)
    ensures
        r == mul_div_or_zero_spec(a as int, b as int, c as int),
{
    a.checked_mul(b).unwrap_or(0).checked_div(c).unwrap_or(0)
}

/// Without overflow and for a positive divisor, `mul_div_or_zero` of a non-negative
/// product is that product divided and rounded down: `r·c ≤ a·b < (r + 1)·c`.
pub proof fn lemma_mul_div_floor(a: int, b: int, c: int)
    requires
        a * b >= 0,
        c > 0,
        fits_i128(a * b),
    ensures
        mul_div_or_zero_spec(a, b, c) * c <= a * b < (mul_div_or_zero_spec(a, b, c) + 1) * c,
{
    let p = a * b;
    vstd::arithmetic::div_mod::lemma_fundamental_div_mod(p, c);
    vstd::arithmetic::div_mod::lemma_mod_pos_bound(p, c);
    let q = p / c;
    assert(q * c <= p < (q + 1) * c && 0 <= q <= p) by (nonlinear_arith)
        requires
            p == c * q + p % c,
            0 <= p % c < c,
            p >= 0,
            c >= 1,
    ;
}

} // verus!
