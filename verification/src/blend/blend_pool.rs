use vstd::prelude::*;
use crate::arith::fits_i128;
use crate::lending::{
    b_tokens_for_spec, underlying_spec, b_tokens_for_underlying, underlying_for_b_tokens,
    lemma_ceil_then_floor_covers, lemma_underlying_monotone, lemma_b_tokens_ceil,
};

verus! {

/// The withdraw request sent to the pool's `submit`.
#[derive(Clone, Copy, Debug, PartialEq, Eq, Structural)]
pub struct WithdrawRequest {
    /// b-tokens the request redeems.
    pub b_tokens: i128,
    /// Underlying amount requested, and what the withdrawal reports as withdrawn.
    pub amount: i128,
}

/// The b-tokens a withdrawal of `amount` redeems from a position of `position_b_tokens`:
/// the rounded-up b-token equivalent of `amount`, capped at the position.
pub open spec fn redeemed_b_tokens_spec(amount: int, b_rate: int, position_b_tokens: int) -> int {
    let wanted = b_tokens_for_spec(amount, b_rate);
    if wanted < position_b_tokens {
        wanted
    } else {
        position_b_tokens
    }
}

/// Withdraw `amount` of deposit_token from the Blend pool.
///
/// Converts the requested underlying amount to b_tokens (ceiling division to avoid
/// dust), caps it at the adapter's b_token balance, and requests the floor value of
/// those b_tokens. `None` (no request is submitted and the withdrawal returns 0) when
/// the amount converts to no b_token or the position holds none.
pub fn withdraw(amount: i128, b_rate: i128, position_b_tokens: i128) -> (r: Option<WithdrawRequest>)
    requires
        b_rate > i128::MIN,
    ensures
        ({
            let wanted = b_tokens_for_spec(amount as int, b_rate as int);
            let redeemed = redeemed_b_tokens_spec(amount as int, b_rate as int, position_b_tokens as int);
            if wanted == 0 || redeemed == 0 {
                r is None
            } else {
                r == Some(WithdrawRequest {
                    b_tokens: redeemed as i128,
                    amount: underlying_spec(redeemed, b_rate as int) as i128,
                })
            }
        }),
{
    let b_tokens_to_burn = b_tokens_for_underlying(amount, b_rate);
    if b_tokens_to_burn == 0 {
        return None;
    }
    let b_tokens_actual = if b_tokens_to_burn < position_b_tokens {
        b_tokens_to_burn
    } else {
        position_b_tokens
    };
    if b_tokens_actual == 0 {
        return None;
    }
    let actual_amount = underlying_for_b_tokens(b_tokens_actual, b_rate);
    Some(WithdrawRequest { b_tokens: b_tokens_actual, amount: actual_amount })
}

/// The adapter's current position value in deposit_token units:
/// `b_tokens × b_rate / SCALAR_12`, and 0 without b_tokens.
pub fn position_value(b_tokens: i128, b_rate: i128) -> (r: i128)
    ensures
        r == underlying_spec(b_tokens as int, b_rate as int),
{
    if b_tokens == 0 {
        return 0;
    }
    underlying_for_b_tokens(b_tokens, b_rate)
}

/// A withdrawal never takes out more than the position is worth, and, when the
/// position holds enough b-tokens, it takes out at least the requested amount.
pub proof fn lemma_withdraw_within_position(amount: int, b_rate: int, position_b_tokens: int)
    requires
        amount >= 0,
        b_rate > 0,
        position_b_tokens >= 0,
        fits_i128(position_b_tokens * b_rate),
        fits_i128(amount * 1_000_000_000_000 + b_rate - 1),
    ensures
        underlying_spec(redeemed_b_tokens_spec(amount, b_rate, position_b_tokens), b_rate)
            <= underlying_spec(position_b_tokens, b_rate),
        b_tokens_for_spec(amount, b_rate) <= position_b_tokens ==> underlying_spec(
            redeemed_b_tokens_spec(amount, b_rate, position_b_tokens),
            b_rate,
        ) >= amount,
{
    let wanted = b_tokens_for_spec(amount, b_rate);
    lemma_b_tokens_ceil(amount, b_rate);
    let redeemed = redeemed_b_tokens_spec(amount, b_rate, position_b_tokens);
    lemma_underlying_monotone(redeemed, position_b_tokens, b_rate);
    if wanted <= position_b_tokens {
        assert(fits_i128(wanted * b_rate)) by (nonlinear_arith)
            requires
                0 <= wanted <= position_b_tokens,
                b_rate > 0,
                fits_i128(position_b_tokens * b_rate),
        ;
        lemma_ceil_then_floor_covers(amount, b_rate);
    }
}

} // verus!
