use vstd::prelude::*;

verus! {

/// Adapter connecting neko-vault to a single Blend lending pool.
pub struct BlendAdapter;

impl BlendAdapter {
    /// Blend's yield is embedded in b_rate appreciation — no explicit APY is exposed
    /// on-chain, so this reports 0.
    pub fn a_get_apy() -> (apy: u32)
        ensures
            apy == 0,
    {
        0
    }

    /// The pool's emission id for the supply (b-token) side of the reserve at
    /// `reserve_index`, which the adapter claims BLND on: `reserve_index × 2 + 1`
    /// (even ids are the liability side); `None` when that leaves `u32`.
    pub fn supply_claim_id(reserve_index: u32) -> (r: Option<u32>)
        ensures
            reserve_index * 2 + 1 <= u32::MAX ==> r == Some((reserve_index * 2 + 1) as u32),
            reserve_index * 2 + 1 > u32::MAX ==> r is None,
    {
        match reserve_index.checked_mul(2) {
            None => None,
            Some(x) => x.checked_add(1),
        }
    }
}

} // verus!
