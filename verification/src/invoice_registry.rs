//! The invoice registry: sequentially numbered invoices with a
//! single-party "mark paid" transition.
//!
//! Issuing allocates the next id from a saturating counter and stores
//! an unpaid invoice; only the stored issuer may later mark it paid,
//! exactly once.

use vstd::prelude::*;
use crate::ledger::{Principal, grants};
use crate::store::Store64;

verus! {

/// Why a registry call is refused.
#[derive(Clone, Copy, Debug, PartialEq, Eq, Structural)]
pub enum Error {
    /// The invoice is already marked paid.
    AlreadyPaid,
    /// The caller is not the stored issuer of this invoice.
    NotIssuer,
    /// No invoice stands at this id.
    NotFound,
    /// The acting principal has not authorized the call.
    Unauthorized,
}

/// One invoice record. The reference is an opaque caller-supplied
/// label, carried through unread.
#[derive(Clone, Copy, Debug, PartialEq, Eq)]
pub struct Invoice {
    pub id: u64,
    pub issuer: Principal,
    pub payer: Option<Principal>,
    pub amount: i128,
    pub paid: bool,
    pub reference: Option<u64>,
}

/// The invoice registry component.
pub struct InvoiceRegistry {
    next_id: u64,
    invoices: Store64<Invoice>,
}

impl InvoiceRegistry {
    /// The id the next issued invoice will get.
    pub closed spec fn next(&self) -> u64 {
        self.next_id
    }

    /// The invoices by id.
    pub closed spec fn invoices_map(&self) -> Map<u64, Invoice> {
        self.invoices@
    }

    /// Internal invariant: the store is well-formed.
    pub closed spec fn wf(&self) -> bool {
        self.invoices.wf()
    }

    /// An empty registry whose first invoice will get id 0.
    pub fn new() -> (r: InvoiceRegistry)
        ensures
            r.wf(),
            r.next() == 0,
            r.invoices_map() == Map::<u64, Invoice>::empty(),
    {
        InvoiceRegistry { next_id: 0, invoices: Store64::new() }
    }

    /// Issue a new invoice under the next id and return that id. The
    /// issuer must have authorized the call; the id counter saturates
    /// at the largest id instead of wrapping.
    pub fn issue(
        &mut self,
        issuer: Principal,
        payer: Option<Principal>,
        amount: i128,
        reference: Option<u64>,
        authorized: &Vec<Principal>,
    ) -> (r: Result<u64, Error>)
        requires
            old(self).wf(),
        ensures
            final(self).wf(),
            match r {
                Ok(id) => {
                    &&& authorized@.contains(issuer)
                    &&& id == old(self).next()
                    &&& final(self).next() == if old(self).next() == u64::MAX {
                        u64::MAX
                    } else {
                        (old(self).next() + 1) as u64
                    }
                    &&& final(self).invoices_map() == old(self).invoices_map().insert(
                        id,
                        Invoice { id, issuer, payer, amount, paid: false, reference },
                    )
                },
                Err(e) => {
                    &&& e == Error::Unauthorized
                    &&& !authorized@.contains(issuer)
                    &&& *final(self) == *old(self)
                },
            },
    {
        if !grants(authorized, issuer) {
            return Err(Error::Unauthorized);
        }
        let id: u64 = self.next_id;
        self.next_id = id.saturating_add(1);
        self.invoices.set(id, Invoice { id, issuer, payer, amount, paid: false, reference });
        Ok(id)
    }

    /// An empty registry whose counter stands at `next_id`, as the
    /// surrounding runtime rebuilds one from its persisted counter.
    pub fn restore(next_id: u64) -> (r: InvoiceRegistry)
        ensures
            r.wf(),
            r.next() == next_id,
            r.invoices_map() == Map::<u64, Invoice>::empty(),
    {
        InvoiceRegistry { next_id, invoices: Store64::new() }
    }

    /// Load one persisted invoice back into the registry, under its own
    /// id, as the surrounding runtime does when it rehydrates the
    /// registry from its key-addressed storage before a call.
    pub fn restore_invoice(&mut self, invoice: Invoice)
        requires
            old(self).wf(),
        ensures
            final(self).wf(),
            final(self).invoices_map() == old(self).invoices_map().insert(invoice.id, invoice),
            final(self).next() == old(self).next(),
    {
        let id: u64 = invoice.id;
        self.invoices.set(id, invoice);
    }

    /// The invoice at `id`, if any.
    pub fn get(&self, id: u64) -> (r: Option<Invoice>)
        requires
            self.wf(),
        ensures
            r == if self.invoices_map().contains_key(id) {
                Some(self.invoices_map()[id])
            } else {
                None::<Invoice>
            },
    {
        match self.invoices.get(id) {
            Some(inv) => Some(*inv),
            None => None,
        }
    }

    /// The fail-fast validation of `mark_paid`: the invoice must exist
    /// (checked first), the caller must have authorized the call and be
    /// the stored issuer, and the invoice must not be paid yet.
    pub open spec fn mark_paid_check(
        &self,
        id: u64,
        issuer: Principal,
        authorized: Seq<Principal>,
    ) -> Result<(), Error> {
        if !self.invoices_map().contains_key(id) {
            Err(Error::NotFound)
        } else if !authorized.contains(issuer) {
            Err(Error::Unauthorized)
        } else if self.invoices_map()[id].issuer != issuer {
            Err(Error::NotIssuer)
        } else if self.invoices_map()[id].paid {
            Err(Error::AlreadyPaid)
        } else {
            Ok(())
        }
    }

    /// Mark the invoice at `id` paid. Only its stored issuer may do so,
    /// and only once; nothing changes on failure.
    pub fn mark_paid(
        &mut self,
        id: u64,
        issuer: Principal,
        authorized: &Vec<Principal>,
    ) -> (r: Result<(), Error>)
        requires
            old(self).wf(),
        ensures
            final(self).wf(),
            match r {
                Ok(()) => {
                    &&& old(self).mark_paid_check(id, issuer, authorized@)
                        == Ok::<(), Error>(())
                    &&& final(self).invoices_map() == old(self).invoices_map().insert(
                        id,
                        Invoice { paid: true, ..old(self).invoices_map()[id] },
                    )
                    &&& final(self).next() == old(self).next()
                },
                Err(e) => {
                    &&& old(self).mark_paid_check(id, issuer, authorized@)
                        == Err::<(), Error>(e)
                    &&& *final(self) == *old(self)
                },
            },
    {
        let inv: Invoice = match self.invoices.get(id) {
            Some(inv) => *inv,
            None => {
                return Err(Error::NotFound);
            },
        };
        if !grants(authorized, issuer) {
            return Err(Error::Unauthorized);
        }
        if inv.issuer != issuer {
            return Err(Error::NotIssuer);
        }
        if inv.paid {
            return Err(Error::AlreadyPaid);
        }
        self.invoices.set(
            id,
            Invoice {
                id: inv.id,
                issuer: inv.issuer,
                payer: inv.payer,
                amount: inv.amount,
                paid: true,
                reference: inv.reference,
            },
        );
        Ok(())
    }

    /// How many invoices have been issued (the next id to be handed
    /// out).
    pub fn count(&self) -> (r: u64)
        ensures
            r == self.next(),
    {
        self.next_id
    }
}

} // verus!
