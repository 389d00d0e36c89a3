use vstd::prelude::*;
use crate::arith::{fits_i128, tdiv};
use crate::vault::deposit::deposit_spec;
use crate::vault::error::Error;
use crate::vault::nav::{Nav, nav_result};
use crate::vault::types::VaultStorage;

verus! {

/// Withdrawals from the vault.
pub struct Withdraw;

/// A withdrawal burning `shares` from vault `s` whose NAV is `nav`: the new storage
/// and the deposit_token amount paid out, or the error.
///
/// The share count must be positive (`ZeroAmount`) and at most the supply
/// (`InsufficientBalance`). The amount is the shares' part of the NAV,
/// `shares × nav / total_shares` rounded toward zero; it is paid from the liquid
/// reserve (`InsufficientLiquidity` when the reserve holds less). An overflow, or a
/// negative amount from a negative NAV, is an `ArithmeticError`. Withdrawals are open in
/// every vault status.
pub open spec fn withdraw_spec(s: VaultStorage, shares: int, nav: Result<i128, Error>) -> Result<
    (VaultStorage, int),
    Error,
> {
    if shares <= 0 {
        Err(Error::ZeroAmount)
    } else if shares > s.total_shares {
        Err(Error::InsufficientBalance)
    } else {
        match nav {
            Err(e) => Err(e),
            Ok(n) => {
                let p = shares * n;
                if !fits_i128(p) || tdiv(p, s.total_shares as int) < 0 {
                    Err(Error::ArithmeticError)
                } else {
                    let amount = tdiv(p, s.total_shares as int);
                    if amount > s.liquid_reserve {
                        Err(Error::InsufficientLiquidity)
                    } else {
                        Ok(
                            (
                                VaultStorage {
                                    total_shares: (s.total_shares - shares) as i128,
                                    liquid_reserve: (s.liquid_reserve - amount) as i128,
                                    ..s
                                },
                                amount,
                            ),
                        )
                    }
                }
            },
        }
    }
}

impl Withdraw {
    /// Burn `shares` (already debited from the holder) and return the deposit_token
    /// amount to pay out. The NAV is the liquid reserve plus `balances`, the
    /// `a_balance` of each active protocol in order. On an error the storage is
    /// unchanged.
    pub fn execute(storage: &mut VaultStorage, shares: i128, balances: &Vec<i128>) -> (r: Result<
        i128,
        Error,
    >)
        ensures
            match withdraw_spec(
                *old(storage),
                shares as int,
                nav_result(old(storage).liquid_reserve as int, balances@),
            ) {
                Ok((s, a)) => r == Ok::<i128, Error>(a as i128) && *final(storage) == s,
                Err(e) => r == Err::<i128, Error>(e) && *final(storage) == *old(storage),
            },
    {
        if shares <= 0 {
            return Err(Error::ZeroAmount);
        }
        if shares > storage.total_shares {
            return Err(Error::InsufficientBalance);
        }
        let nav = match Nav::calculate(storage.liquid_reserve, balances) {
            Ok(n) => n,
            Err(e) => return Err(e),
        };
        let p = match shares.checked_mul(nav) {
            Some(p) => p,
            None => return Err(Error::ArithmeticError),
        };
        let amount = p / storage.total_shares;
        if amount < 0 {
            return Err(Error::ArithmeticError);
        }
        if amount > storage.liquid_reserve {
            return Err(Error::InsufficientLiquidity);
        }
        storage.total_shares = storage.total_shares - shares;
        storage.liquid_reserve = storage.liquid_reserve - amount;
        Ok(amount)
    }
}

/// A withdrawal pays out the shares' part of the NAV, rounded down:
/// `amount × total_shares ≤ shares × nav < (amount + 1) × total_shares`.
pub proof fn lemma_withdraw_proportional(s: VaultStorage, shares: int, nav: i128)
    requires
        withdraw_spec(s, shares, Ok(nav)) is Ok,
        nav >= 0,
    ensures
        ({
            let (s1, amount) = withdraw_spec(s, shares, Ok(nav))->Ok_0;
            &&& amount * s.total_shares <= shares * nav < (amount + 1) * s.total_shares
            &&& s1.total_shares == s.total_shares - shares
            &&& s1.liquid_reserve == s.liquid_reserve - amount
        }),
{
    let t = s.total_shares as int;
    let p = shares * nav;
    assert(p >= 0) by (nonlinear_arith)
        requires
            shares > 0,
            nav >= 0,
            p == shares * nav,
    ;
    vstd::arithmetic::div_mod::lemma_fundamental_div_mod(p, t);
    vstd::arithmetic::div_mod::lemma_mod_pos_bound(p, t);
    let a = p / t;
    assert(a * t <= p < (a + 1) * t) by (nonlinear_arith)
        requires
            p == t * a + p % t,
            0 <= p % t < t,
    ;
}

/// A deposit followed by the withdrawal of the shares it minted, at the NAV raised by
/// exactly the deposit, never pays out more than was deposited: no one gains by
/// entering and leaving (for a vault with shares and a positive NAV, or an empty one).
pub proof fn lemma_deposit_then_withdraw_no_gain(s: VaultStorage, amount: int, nav: i128, nav_after: i128)
    requires
        s.total_shares >= 0,
        s.total_shares > 0 ==> nav > 0,
        s.total_shares == 0 ==> nav == 0,
        nav_after == nav + amount,
        deposit_spec(s, amount, Ok(nav)) is Ok,
        withdraw_spec(
            (deposit_spec(s, amount, Ok(nav))->Ok_0).0,
            (deposit_spec(s, amount, Ok(nav))->Ok_0).1,
            Ok(nav_after),
        ) is Ok,
    ensures
        ({
            let (s1, sh) = deposit_spec(s, amount, Ok(nav))->Ok_0;
            let (s2, out) = withdraw_spec(s1, sh, Ok(nav_after))->Ok_0;
            &&& out <= amount
            &&& s2.total_shares == s.total_shares
            &&& s2.liquid_reserve == s.liquid_reserve + amount - out
        }),
{
    let (s1, sh) = deposit_spec(s, amount, Ok(nav))->Ok_0;
    let t = s.total_shares as int;
    let t1 = s1.total_shares as int;
    let p = sh * nav_after;
    assert(sh > 0 && t1 == t + sh);
    if t > 0 {
        let q = amount * t;
        assert(q > 0) by (nonlinear_arith)
            requires
                amount > 0,
                t > 0,
                q == amount * t,
        ;
        vstd::arithmetic::div_mod::lemma_fundamental_div_mod(q, nav as int);
        vstd::arithmetic::div_mod::lemma_mod_pos_bound(q, nav as int);
        assert(sh * nav <= q) by (nonlinear_arith)
            requires
                sh == q / (nav as int),
                q == nav * (q / (nav as int)) + q % (nav as int),
                q % (nav as int) >= 0,
        ;
        assert(p <= amount * t1) by (nonlinear_arith)
            requires
                p == sh * nav_after,
                nav_after == nav + amount,
                sh * nav <= amount * t,
                t1 == t + sh,
        ;
    } else {
        assert(p == amount * t1) by (nonlinear_arith)
            requires
                p == sh * nav_after,
                nav_after == amount,
                sh == amount,
                t1 == sh,
        ;
    }
    assert(p >= 0) by (nonlinear_arith)
        requires
            sh > 0,
            nav_after >= 0,
            p == sh * nav_after,
    ;
    vstd::arithmetic::div_mod::lemma_fundamental_div_mod(p, t1);
    vstd::arithmetic::div_mod::lemma_mod_pos_bound(p, t1);
    assert(p / t1 <= amount) by (nonlinear_arith)
        requires
            p <= amount * t1,
            p == t1 * (p / t1) + p % t1,
            p % t1 >= 0,
            t1 > 0,
    ;
}

} // verus!
