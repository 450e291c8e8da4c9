//! The badge mint: an owner-gated registry of sequentially numbered
//! badges with collection metadata.
//!
//! The owner is fixed at initialization; only the owner mints badges
//! or replaces the metadata. Badge ids are handed out sequentially
//! starting at 0. The token bookkeeping itself (balances, transfers,
//! enumeration) belongs to the non-fungible token library of the
//! surrounding runtime; what is decided here is who may mint, which id
//! a mint gets, and what event it publishes.

use vstd::prelude::*;
use crate::ledger::{Principal, grants};

verus! {

/// Why a badge call is refused.
#[derive(Clone, Copy, Debug, PartialEq, Eq, Structural)]
pub enum Error {
    /// The mint already holds an owner.
    AlreadyInitialized,
    /// The acting principal has not authorized the call or is not the
    /// owner.
    NotAuthorized,
    /// The mint holds no owner yet.
    NotInitialized,
}

/// The collection metadata, held as plain byte strings.
#[derive(Clone, Debug, PartialEq, Eq)]
pub struct Metadata {
    pub base_uri: Vec<u8>,
    pub name: Vec<u8>,
    pub symbol: Vec<u8>,
}

/// The event a successful mint publishes.
#[derive(Clone, Copy, Debug, PartialEq, Eq, Structural)]
pub struct BadgeIssuedEvent {
    pub recipient: Principal,
    pub token_id: u32,
}

/// The badge mint component.
pub struct LumenPassBadges {
    owner: Option<Principal>,
    metadata: Option<Metadata>,
    next_token_id: u32,
}

impl LumenPassBadges {
    /// The owner, once initialized.
    pub closed spec fn owner_of(&self) -> Option<Principal> {
        self.owner
    }

    /// The stored metadata as byte strings: base URI, name, symbol.
    pub closed spec fn meta(&self) -> Option<(Seq<u8>, Seq<u8>, Seq<u8>)> {
        match self.metadata {
            Some(m) => Some((m.base_uri@, m.name@, m.symbol@)),
            None => None,
        }
    }

    /// How many badges have been minted (the id the next mint gets).
    pub closed spec fn minted(&self) -> u32 {
        self.next_token_id
    }

    /// An empty, ownerless mint.
    pub fn new() -> (b: LumenPassBadges)
        ensures
            b.owner_of() is None,
            b.meta() is None,
            b.minted() == 0,
    {
        LumenPassBadges { owner: None, metadata: None, next_token_id: 0 }
    }

    /// A mint rebuilt from its persisted owner and counter, as the
    /// surrounding runtime does from its key-addressed storage before a
    /// call; the metadata record is loaded only when a call reads it.
    pub fn restore(owner: Option<Principal>, minted: u32) -> (b: LumenPassBadges)
        ensures
            b.owner_of() == owner,
            b.meta() is None,
            b.minted() == minted,
    {
        LumenPassBadges { owner, metadata: None, next_token_id: minted }
    }

    /// Fix the owner and the collection metadata. Fails with
    /// `AlreadyInitialized` on every call after the first; the owner
    /// must have authorized the call. Nothing changes on failure.
    pub fn init(
        &mut self,
        owner: Principal,
        base_uri: Vec<u8>,
        name: Vec<u8>,
        symbol: Vec<u8>,
        authorized: &Vec<Principal>,
    ) -> (r: Result<(), Error>)
        ensures
            match r {
                Ok(()) => {
                    &&& old(self).owner_of() is None
                    &&& authorized@.contains(owner)
                    &&& final(self).owner_of() == Some(owner)
                    &&& final(self).meta() == Some((base_uri@, name@, symbol@))
                    &&& final(self).minted() == old(self).minted()
                },
                Err(e) => {
                    &&& *final(self) == *old(self)
                    &&& e == (if old(self).owner_of() is Some {
                        Error::AlreadyInitialized
                    } else {
                        Error::NotAuthorized
                    })
                    &&& (old(self).owner_of() is Some || !authorized@.contains(owner))
                },
            },
    {
        if self.owner.is_some() {
            return Err(Error::AlreadyInitialized);
        }
        if !grants(authorized, owner) {
            return Err(Error::NotAuthorized);
        }
        self.owner = Some(owner);
        self.metadata = Some(Metadata { base_uri, name, symbol });
        Ok(())
    }

    /// Mint the next badge for `to` and return the event to publish,
    /// carrying the new badge's id. Only the stored owner, with
    /// authorization, may mint; ids are sequential from 0. The id
    /// counter is checked, so a full mint is left out by precondition.
    pub fn mint_badge(&mut self, to: Principal, authorized: &Vec<Principal>) -> (r: Result<
        BadgeIssuedEvent,
        Error,
    >)
        requires
            old(self).minted() < u32::MAX,
        ensures
            match r {
                Ok(ev) => {
                    &&& old(self).owner_of() is Some
                    &&& authorized@.contains(old(self).owner_of().unwrap())
                    &&& ev == (BadgeIssuedEvent { recipient: to, token_id: old(self).minted() })
                    &&& final(self).minted() == old(self).minted() + 1
                    &&& final(self).owner_of() == old(self).owner_of()
                    &&& final(self).meta() == old(self).meta()
                },
                Err(e) => {
                    &&& *final(self) == *old(self)
                    &&& e == (if old(self).owner_of() is None {
                        Error::NotInitialized
                    } else {
                        Error::NotAuthorized
                    })
                    &&& (old(self).owner_of() is None || !authorized@.contains(
                        old(self).owner_of().unwrap(),
                    ))
                },
            },
    {
        let owner: Principal = match self.owner {
            Some(o) => o,
            None => {
                return Err(Error::NotInitialized);
            },
        };
        if !grants(authorized, owner) {
            return Err(Error::NotAuthorized);
        }
        let token_id: u32 = self.next_token_id;
        self.next_token_id = token_id + 1;
        Ok(BadgeIssuedEvent { recipient: to, token_id })
    }

    /// Replace the collection metadata. Only the stored owner, with
    /// authorization, may do so.
    pub fn set_metadata(
        &mut self,
        base_uri: Vec<u8>,
        name: Vec<u8>,
        symbol: Vec<u8>,
        authorized: &Vec<Principal>,
    ) -> (r: Result<(), Error>)
        ensures
            match r {
                Ok(()) => {
                    &&& old(self).owner_of() is Some
                    &&& authorized@.contains(old(self).owner_of().unwrap())
                    &&& final(self).meta() == Some((base_uri@, name@, symbol@))
                    &&& final(self).owner_of() == old(self).owner_of()
                    &&& final(self).minted() == old(self).minted()
                },
                Err(e) => {
                    &&& *final(self) == *old(self)
                    &&& e == (if old(self).owner_of() is None {
                        Error::NotInitialized
                    } else {
                        Error::NotAuthorized
                    })
                    &&& (old(self).owner_of() is None || !authorized@.contains(
                        old(self).owner_of().unwrap(),
                    ))
                },
            },
    {
        let owner: Principal = match self.owner {
            Some(o) => o,
            None => {
                return Err(Error::NotInitialized);
            },
        };
        if !grants(authorized, owner) {
            return Err(Error::NotAuthorized);
        }
        self.metadata = Some(Metadata { base_uri, name, symbol });
        Ok(())
    }

    /// The stored owner.
    pub fn owner(&self) -> (r: Principal)
        requires
            self.owner_of() is Some,
        ensures
            r == self.owner_of().unwrap(),
    {
        self.owner.unwrap()
    }
}

} // verus!
