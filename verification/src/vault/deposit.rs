use vstd::prelude::*;
use crate::arith::{fits_i128, tdiv};
use crate::vault::error::Error;
use crate::vault::nav::{Nav, nav_result};
use crate::vault::types::{VaultStatus, VaultStorage};

verus! {

/// Deposits into the vault.
pub struct Deposit;

/// A deposit of `amount` into vault `s` whose NAV is `nav`: the new storage and the
/// shares minted to the depositor, or the error.
///
/// Only an active vault takes deposits (`VaultNotActive`), and only of a positive
/// amount (`ZeroAmount`). The first deposit into a vault without shares is minted 1:1;
/// after that the depositor receives shares proportional to the current NAV,
/// `amount × total_shares / nav` rounded toward zero (the NAV is read only then).
/// The amount joins the liquid reserve. Any result that leaves `i128`, or a zero NAV,
/// is an `ArithmeticError`.
pub open spec fn deposit_spec(s: VaultStorage, amount: int, nav: Result<i128, Error>) -> Result<
    (VaultStorage, int),
    Error,
> {
    if s.status != VaultStatus::Active {
        Err(Error::VaultNotActive)
    } else if amount <= 0 {
        Err(Error::ZeroAmount)
    } else {
        let minted: Result<int, Error> = if s.total_shares == 0 {
            Ok(amount)
        } else {
            match nav {
                Err(e) => Err(e),
                Ok(n) => {
                    let p = amount * s.total_shares;
                    if fits_i128(p) && n != 0 && fits_i128(tdiv(p, n as int)) {
                        Ok(tdiv(p, n as int))
                    } else {
                        Err(Error::ArithmeticError)
                    }
                },
            }
        };
        match minted {
            Err(e) => Err(e),
            Ok(sh) => if fits_i128(s.total_shares + sh) && fits_i128(s.liquid_reserve + amount) {
                Ok(
                    (
                        VaultStorage {
                            total_shares: (s.total_shares + sh) as i128,
                            liquid_reserve: (s.liquid_reserve + amount) as i128,
                            ..s
                        },
                        sh,
                    ),
                )
            } else {
                Err(Error::ArithmeticError)
            },
        }
    }
}

impl Deposit {
    /// Whether a deposit needs the NAV: only once shares exist.
    pub fn needs_nav(storage: &VaultStorage) -> (r: bool)
        ensures
            r == (storage.total_shares != 0),
    {
        storage.total_shares != 0
    }

    /// Deposit `amount` of deposit_token (already received by the vault), and return
    /// the shares to credit to the depositor. The NAV is the liquid reserve plus
    /// `balances`, the `a_balance` of each active protocol in order (only read when
    /// `needs_nav`). On an error the storage is unchanged.
    pub fn execute(storage: &mut VaultStorage, amount: i128, balances: &Vec<i128>) -> (r: Result<
        i128,
        Error,
    >)
        ensures
            match deposit_spec(
                *old(storage),
                amount as int,
                nav_result(old(storage).liquid_reserve as int, balances@),
            ) {
                Ok((s, sh)) => r == Ok::<i128, Error>(sh as i128) && *final(storage) == s,
                Err(e) => r == Err::<i128, Error>(e) && *final(storage) == *old(storage),
            },
    {
        match storage.status {
            VaultStatus::Active => {},
            _ => return Err(Error::VaultNotActive),
        }
        if amount <= 0 {
            return Err(Error::ZeroAmount);
        }
        let shares = if storage.total_shares == 0 {
            amount
        } else {
            let nav = match Nav::calculate(storage.liquid_reserve, balances) {
                Ok(n) => n,
                Err(e) => return Err(e),
            };
            let p = match amount.checked_mul(storage.total_shares) {
                Some(p) => p,
                None => return Err(Error::ArithmeticError),
            };
            match p.checked_div(nav) {
                Some(x) => x,
                None => return Err(Error::ArithmeticError),
            }
        };
        let total_shares = match storage.total_shares.checked_add(shares) {
            Some(t) => t,
            None => return Err(Error::ArithmeticError),
        };
        let liquid_reserve = match storage.liquid_reserve.checked_add(amount) {
            Some(l) => l,
            None => return Err(Error::ArithmeticError),
        };
        storage.total_shares = total_shares;
        storage.liquid_reserve = liquid_reserve;
        Ok(shares)
    }
}

/// Depositors receive shares proportional to the NAV: the first deposit is minted 1:1,
/// and a later one receives `shares` with `shares × nav ≤ amount × total_shares <
/// (shares + 1) × nav` (for a positive NAV and supply), so that it owns its part of the
/// vault, rounded down.
pub proof fn lemma_deposit_proportional(s: VaultStorage, amount: int, nav: i128)
    requires
        deposit_spec(s, amount, Ok(nav)) is Ok,
        s.total_shares >= 0,
    ensures
        ({
            let (s1, sh) = deposit_spec(s, amount, Ok(nav))->Ok_0;
            &&& s1.total_shares == s.total_shares + sh
            &&& s1.liquid_reserve == s.liquid_reserve + amount
            &&& s.total_shares == 0 ==> sh == amount
            &&& s.total_shares > 0 && nav > 0 ==> sh * nav <= amount * s.total_shares < (sh
                + 1) * nav
        }),
{
    if s.total_shares > 0 && nav > 0 {
        let p = amount * s.total_shares;
        assert(p > 0) by (nonlinear_arith)
            requires
                amount > 0,
                s.total_shares > 0,
                p == amount * s.total_shares,
        ;
        vstd::arithmetic::div_mod::lemma_fundamental_div_mod(p, nav as int);
        vstd::arithmetic::div_mod::lemma_mod_pos_bound(p, nav as int);
        let sh = p / (nav as int);
        assert(sh * nav <= p < (sh + 1) * nav) by (nonlinear_arith)
            requires
                p == nav * sh + p % (nav as int),
                0 <= p % (nav as int) < nav,
        ;
    }
}

/// When no share exists yet, a deposit does not depend on the NAV.
pub proof fn lemma_first_deposit_ignores_nav(
    s: VaultStorage,
    amount: int,
    nav: Result<i128, Error>,
    nav2: Result<i128, Error>,
)
    requires
        s.total_shares == 0,
    ensures
        deposit_spec(s, amount, nav) == deposit_spec(s, amount, nav2),
{
}

} // verus!
