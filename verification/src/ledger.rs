//! Plain-value stand-ins for the ledger runtime's vocabulary.
//!
//! A principal (an account or contract address) is an opaque identity;
//! the components only ever compare principals for equality, so an
//! integer stands for one. The runtime's authorization oracle is
//! modelled as the set of principals that have authorized the current
//! call, handed in as a vector; a token transfer the runtime must
//! perform is handed back out as a `Transfer` value.

use vstd::prelude::*;

verus! {

/// An opaque identity: an account or contract address. The core only
/// compares principals for equality.
pub type Principal = u64;

/// One token movement that a component asks the ledger runtime to
/// perform: `amount` of the asset `token`, from `from` to `to`.
#[derive(Clone, Copy, Debug, PartialEq, Eq, Structural)]
pub struct Transfer {
    pub token: Principal,
    pub from: Principal,
    pub to: Principal,
    pub amount: i128,
}

/// True iff `p` is among the principals that have authorized the
/// current call.
pub fn grants(authorized: &Vec<Principal>, p: Principal) -> (r: bool)
    ensures
        r == authorized@.contains(p),
{
    let mut i: usize = 0;
    while i < authorized.len()
        invariant
            0 <= i <= authorized.len(),
            forall|j: int| 0 <= j < i ==> authorized@[j] != p,
        decreases authorized.len() - i,
    {
        if authorized[i] == p {
            return true;
        }
        i = i + 1;
    }
    false
}

} // verus!
