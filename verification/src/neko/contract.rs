use vstd::prelude::*;
use crate::lending::{
    b_tokens_for_spec, underlying_spec, b_tokens_for_underlying, underlying_for_b_tokens,
};

verus! {

/// Adapter connecting neko-vault to a single neko-pool pool.
pub struct NekoAdapter;

/// The b-tokens a withdrawal redeems, and the underlying amount the adapter
/// pre-authorizes the pool to transfer to it.
#[derive(Clone, Copy, Debug, PartialEq, Eq, Structural)]
pub struct NekoWithdraw {
    pub b_tokens: i128,
    pub underlying_out: i128,
}

impl NekoAdapter {
    /// Decides a withdrawal of `amount` underlying: the rounded-up b-token
    /// equivalent, capped at the adapter's b-token balance, and its floor value as
    /// the transfer the pool will make. `None` (the withdrawal returns 0) when that
    /// comes to no b-token.
    pub fn a_withdraw(amount: i128, b_rate: i128, b_token_balance: i128) -> (r: Option<NekoWithdraw>)
        requires
            b_rate > i128::MIN,
        ensures
            ({
                let wanted = b_tokens_for_spec(amount as int, b_rate as int);
                let actual = if wanted < b_token_balance { wanted } else { b_token_balance as int };
                if wanted == 0 || actual == 0 {
                    r is None
                } else {
                    r == Some(NekoWithdraw {
                        b_tokens: actual as i128,
                        underlying_out: underlying_spec(actual, b_rate as int) as i128,
                    })
                }
            }),
    {
        let b_tokens_to_burn = b_tokens_for_underlying(amount, b_rate);
        if b_tokens_to_burn == 0 {
            return None;
        }
        let b_tokens_actual = if b_tokens_to_burn < b_token_balance {
            b_tokens_to_burn
        } else {
            b_token_balance
        };
        if b_tokens_actual == 0 {
            return None;
        }
        let underlying_out = underlying_for_b_tokens(b_tokens_actual, b_rate);
        Some(NekoWithdraw { b_tokens: b_tokens_actual, underlying_out })
    }

    /// The adapter's value in neko-pool in deposit_token units:
    /// `b_tokens × b_rate / SCALAR_12`.
    pub fn balance_in_underlying(b_tokens: i128, b_rate: i128) -> (r: i128)
        ensures
            r == underlying_spec(b_tokens as int, b_rate as int),
    {
        underlying_for_b_tokens(b_tokens, b_rate)
    }

    /// Returns 0: the supply rate is embedded in the b_rate change over time.
    pub fn a_get_apy() -> (apy: u32)
        ensures
            apy == 0,
    {
        0
    }
}

} // verus!
