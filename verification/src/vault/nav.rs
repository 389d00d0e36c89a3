use vstd::prelude::*;
use crate::arith::{fits_i128, tdiv};
use crate::vault::error::Error;
use crate::vault::types::SCALAR_7;

verus! {

/// The vault's net asset value and its price per share.
pub struct Nav;

/// The NAV: the liquid reserve plus what each active protocol reports holding, added in
/// order; `ArithmeticError` as soon as a running sum leaves `i128`.
pub open spec fn nav_spec(liquid_reserve: int, balances: Seq<i128>) -> Result<int, Error>
    decreases balances.len(),
{
    if balances.len() == 0 {
        if fits_i128(liquid_reserve) {
            Ok(liquid_reserve)
        } else {
            Err(Error::ArithmeticError)
        }
    } else {
        match nav_spec(liquid_reserve, balances.drop_last()) {
            Err(e) => Err(e),
            Ok(t) => if fits_i128(t + balances.last()) {
                Ok(t + balances.last())
            } else {
                Err(Error::ArithmeticError)
            },
        }
    }
}

/// The price of one share in `SCALAR_7` units: `nav × SCALAR_7 / total_shares`
/// rounded toward zero, and 1.0 (`SCALAR_7`) while no share exists;
/// `ArithmeticError` when the product or the quotient leaves `i128`.
pub open spec fn share_price_spec(nav: int, total_shares: int) -> Result<int, Error> {
    if total_shares == 0 {
        Ok(10_000_000)
    } else if fits_i128(nav * 10_000_000) && fits_i128(tdiv(nav * 10_000_000, total_shares)) {
        Ok(tdiv(nav * 10_000_000, total_shares))
    } else {
        Err(Error::ArithmeticError)
    }
}

/// The NAV the vault's modules see for a liquid reserve and the active protocols'
/// balances, as an `i128`, or the error computing it fails with.
pub open spec fn nav_result(liquid_reserve: int, balances: Seq<i128>) -> Result<i128, Error> {
    match nav_spec(liquid_reserve, balances) {
        Ok(n) => Ok(n as i128),
        Err(e) => Err(e),
    }
}

/// The share price for that NAV and `total_shares`, or the first error on the way.
pub open spec fn price_result(liquid_reserve: int, balances: Seq<i128>, total_shares: int) -> Result<
    i128,
    Error,
> {
    match nav_result(liquid_reserve, balances) {
        Ok(n) => match share_price_spec(n as int, total_shares) {
            Ok(p) => Ok(p as i128),
            Err(e) => Err(e),
        },
        Err(e) => Err(e),
    }
}

impl Nav {
    /// The NAV from the liquid reserve and the balances (`a_balance`) of the active
    /// protocols, in the vault's protocol order.
    pub fn calculate(liquid_reserve: i128, balances: &Vec<i128>) -> (r: Result<i128, Error>)
        ensures
            match nav_spec(liquid_reserve as int, balances@) {
                Ok(n) => r == Ok::<i128, Error>(n as i128),
                Err(e) => r == Err::<i128, Error>(e),
            },
    {
        let mut total = liquid_reserve;
        let mut i: usize = 0;
        assert(balances@.take(0) =~= Seq::<i128>::empty());
        while i < balances.len()
            invariant
                i <= balances.len(),
                nav_spec(liquid_reserve as int, balances@.take(i as int)) == Ok::<int, Error>(
                    total as int,
                ),
            decreases balances.len() - i,
        {
            assert(balances@.take(i as int) =~= balances@.take(i as int + 1).drop_last());
            match total.checked_add(balances[i]) {
                Some(t) => total = t,
                None => {
                    proof {
                        lemma_nav_error_stays(liquid_reserve as int, balances@, i as int + 1);
                    }
                    return Err(Error::ArithmeticError);
                },
            }
            i = i + 1;
        }
        assert(balances@.take(balances.len() as int) =~= balances@);
        Ok(total)
    }

    /// Share price in `SCALAR_7` units: NAV per share, 1.0 before any share exists.
    pub fn share_price(nav: i128, total_shares: i128) -> (r: Result<i128, Error>)
        ensures
            match share_price_spec(nav as int, total_shares as int) {
                Ok(p) => r == Ok::<i128, Error>(p as i128),
                Err(e) => r == Err::<i128, Error>(e),
            },
    {
        if total_shares == 0 {
            return Ok(SCALAR_7);
        }
        match nav.checked_mul(SCALAR_7) {
            None => Err(Error::ArithmeticError),
            Some(x) => match x.checked_div(total_shares) {
                None => Err(Error::ArithmeticError),
                Some(p) => Ok(p),
            },
        }
    }
}

/// Once a running sum has overflowed, adding more balances keeps the error.
proof fn lemma_nav_error_stays(liquid_reserve: int, balances: Seq<i128>, n: int)
    requires
        0 < n <= balances.len(),
        nav_spec(liquid_reserve, balances.take(n)) is Err,
    ensures
        nav_spec(liquid_reserve, balances) == Err::<int, Error>(Error::ArithmeticError),
    decreases balances.len() - n,
{
    if n < balances.len() {
        assert(balances.take(n + 1).drop_last() =~= balances.take(n));
        assert(nav_spec(liquid_reserve, balances.take(n)) == Err::<int, Error>(
            Error::ArithmeticError,
        )) by {
            lemma_nav_error_is_overflow(liquid_reserve, balances.take(n));
        }
        lemma_nav_error_stays(liquid_reserve, balances, n + 1);
    } else {
        assert(balances.take(n) =~= balances);
        lemma_nav_error_is_overflow(liquid_reserve, balances);
    }
}

/// The only error of the NAV is an overflow.
proof fn lemma_nav_error_is_overflow(liquid_reserve: int, balances: Seq<i128>)
    ensures
        nav_spec(liquid_reserve, balances) is Err ==> nav_spec(liquid_reserve, balances)
            == Err::<int, Error>(Error::ArithmeticError),
    decreases balances.len(),
{
    if balances.len() > 0 {
        lemma_nav_error_is_overflow(liquid_reserve, balances.drop_last());
    }
}

/// The sum of the balances.
pub open spec fn balances_sum(balances: Seq<i128>) -> int
    decreases balances.len(),
{
    if balances.len() == 0 {
        0
    } else {
        balances[0] + balances_sum(balances.subrange(1, balances.len() as int))
    }
}

proof fn lemma_balances_sum_push(balances: Seq<i128>)
    requires
        balances.len() > 0,
    ensures
        balances_sum(balances) == balances_sum(balances.drop_last()) + balances.last(),
    decreases balances.len(),
{
    if balances.len() > 1 {
        let rest = balances.subrange(1, balances.len() as int);
        lemma_balances_sum_push(rest);
        assert(rest.drop_last() =~= balances.drop_last().subrange(
            1,
            balances.drop_last().len() as int,
        ));
    } else {
        assert(balances.subrange(1, 1) =~= Seq::<i128>::empty());
        assert(balances.drop_last() =~= Seq::<i128>::empty());
    }
}

/// The NAV, when it can be computed, is the liquid reserve plus the sum of the
/// protocols' balances.
pub proof fn lemma_nav_is_sum(liquid_reserve: int, balances: Seq<i128>)
    requires
        nav_spec(liquid_reserve, balances) is Ok,
    ensures
        nav_spec(liquid_reserve, balances) == Ok::<int, Error>(
            liquid_reserve + balances_sum(balances),
        ),
    decreases balances.len(),
{
    if balances.len() > 0 {
        lemma_balances_sum_push(balances);
        lemma_nav_is_sum(liquid_reserve, balances.drop_last());
    }
}

/// The share price is the NAV per share in `SCALAR_7` units, rounded down:
/// `p·total_shares ≤ nav·SCALAR_7 < (p + 1)·total_shares` for a non-negative NAV and
/// a positive supply without overflow; 1.0 while no share exists.
pub proof fn lemma_share_price_is_nav_per_share(nav: int, total_shares: int)
    requires
        nav >= 0,
        total_shares >= 0,
        fits_i128(nav * 10_000_000),
    ensures
        total_shares == 0 ==> share_price_spec(nav, total_shares) == Ok::<int, Error>(10_000_000),
        total_shares > 0 ==> share_price_spec(nav, total_shares) is Ok,
        total_shares > 0 ==> (share_price_spec(nav, total_shares)->Ok_0) * total_shares <= nav
            * 10_000_000 < ((share_price_spec(nav, total_shares)->Ok_0) + 1) * total_shares,
{
    if total_shares > 0 {
        let x = nav * 10_000_000;
        vstd::arithmetic::div_mod::lemma_fundamental_div_mod(x, total_shares);
        vstd::arithmetic::div_mod::lemma_mod_pos_bound(x, total_shares);
        let q = x / total_shares;
        assert(q * total_shares <= x < (q + 1) * total_shares && 0 <= q <= x) by (
        nonlinear_arith)
            requires
                x == total_shares * q + x % total_shares,
                0 <= x % total_shares < total_shares,
                x >= 0,
                total_shares >= 1,
        ;
    }
}

} // verus!
