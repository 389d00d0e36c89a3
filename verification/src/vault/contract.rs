use vstd::prelude::*;
use crate::arith::fits_i128;
use crate::vault::error::Error;
use crate::vault::storage::{AllowanceStorage, spend_spec};
use crate::vault::types::{VaultAllowance, VaultStorage, MAX_PROTOCOLS};

verus! {

/// The Neko vault contract: the decisions of its SEP-41 share-token entry points.
pub struct VaultContract;

/// The entries of `entries` whose allocation is present, in order, paired with it.
pub open spec fn present_entries<K, V>(entries: Seq<(K, Option<V>)>) -> Seq<(K, V)>
    decreases entries.len(),
{
    if entries.len() == 0 {
        Seq::empty()
    } else {
        let rest = present_entries(entries.drop_last());
        match entries.last().1 {
            Some(v) => rest.push((entries.last().0, v)),
            None => rest,
        }
    }
}

/// The allowance `approve` grants: refused when the expiry ledger is already past.
pub open spec fn approve_spec(amount: i128, live_until_ledger: u32, current: u32) -> Option<
    VaultAllowance,
> {
    if live_until_ledger != 0 && live_until_ledger < current {
        None
    } else {
        Some(VaultAllowance { amount, live_until_ledger })
    }
}

impl VaultContract {
    /// The amount a spender may still transfer from an owner's shares.
    pub fn allowance(stored: Option<VaultAllowance>) -> (r: i128)
        ensures
            r == match stored {
                Some(a) => a.amount,
                None => 0,
            },
    {
        AllowanceStorage::get(stored).amount
    }

    /// The allowance that `approve` stores, or `None` when the requested expiry
    /// ledger is already past (the call is rejected).
    pub fn approve(amount: i128, live_until_ledger: u32, current_ledger: u32) -> (r: Option<
        VaultAllowance,
    >)
        ensures
            r == approve_spec(amount, live_until_ledger, current_ledger),
    {
        if live_until_ledger != 0 && live_until_ledger < current_ledger {
            return None;
        }
        Some(VaultAllowance { amount, live_until_ledger })
    }

    /// Burning `amount` shares lowers the total supply by that amount.
    pub fn burn(storage: &mut VaultStorage, amount: i128)
        requires
            fits_i128(old(storage).total_shares - amount),
        ensures
            *final(storage) == (VaultStorage {
                total_shares: (old(storage).total_shares - amount) as i128,
                ..*old(storage)
            }),
    {
        storage.total_shares = storage.total_shares - amount;
    }

    /// Whether a new protocol may be registered next to `registered` ones: at most
    /// `MAX_PROTOCOLS` protocols (`TooManyProtocols` otherwise).
    pub fn check_protocol_count(registered: u32) -> (r: Result<(), Error>)
        ensures
            registered < MAX_PROTOCOLS ==> r == Ok::<(), Error>(()),
            registered >= MAX_PROTOCOLS ==> r == Err::<(), Error>(Error::TooManyProtocols),
    {
        if registered >= MAX_PROTOCOLS {
            return Err(Error::TooManyProtocols);
        }
        Ok(())
    }

    /// The registered protocols, in registration order, that have an allocation.
    pub fn get_protocols<K, V>(entries: Vec<(K, Option<V>)>) -> (r: Vec<(K, V)>)
        ensures
            r@ == present_entries(entries@),
    {
        let ghost all = entries@;
        let mut rest = entries;
        let mut result: Vec<(K, V)> = Vec::new();
        let ghost mut done: int = 0;
        while rest.len() > 0
            invariant
                0 <= done <= all.len(),
                rest@ == all.skip(done),
                result@ == present_entries(all.take(done)),
            decreases rest.len(),
        {
            let (id, alloc) = rest.remove(0);
            proof {
                assert(all.take(done + 1).drop_last() =~= all.take(done));
                assert(all.take(done + 1).last() == all[done]);
                assert(rest@ =~= all.skip(done + 1));
                done = done + 1;
            }
            match alloc {
                Some(a) => result.push((id, a)),
                None => {},
            }
        }
        proof {
            assert(all.take(done) =~= all);
        }
        result
    }
}

/// An allowance granted by `approve` and spent at a ledger where it is still live is
/// reduced by exactly the amount spent, keeping its expiry; spending more than was
/// granted is refused.
pub proof fn lemma_approve_then_spend(
    granted: i128,
    live_until_ledger: u32,
    approved_at: u32,
    spent: int,
    spent_at: u32,
)
    requires
        approve_spec(granted, live_until_ledger, approved_at) is Some,
        live_until_ledger == 0 || spent_at <= live_until_ledger,
        fits_i128(granted - spent),
    ensures
        spent <= granted ==> spend_spec(
            approve_spec(granted, live_until_ledger, approved_at)->0,
            spent,
            spent_at,
        ) == Ok::<VaultAllowance, Error>(
            VaultAllowance { amount: (granted - spent) as i128, live_until_ledger },
        ),
        spent > granted ==> spend_spec(
            approve_spec(granted, live_until_ledger, approved_at)->0,
            spent,
            spent_at,
        ) == Err::<VaultAllowance, Error>(Error::InsufficientAllowance),
{
}

} // verus!
