//! The name directory: an owner-gated map from byte-string names to
//! principals.
//!
//! The owner is fixed at initialization; only the owner binds or
//! removes names. Anyone may resolve one. Names are held as plain byte
//! strings and compared by content.

use vstd::prelude::*;
use crate::ledger::{Principal, grants};
use crate::store::{
    assoc_map, unique_keys, lemma_assoc_contains, lemma_assoc_get, lemma_assoc_update,
    lemma_assoc_push, lemma_assoc_remove,
};

verus! {

/// Why a registrar call is refused.
#[derive(Clone, Copy, Debug, PartialEq, Eq, Structural)]
pub enum RegistrarError {
    /// The registrar already holds an owner.
    AlreadyInitialized,
    /// The registrar holds no owner yet.
    NotInitialized,
    /// The acting principal has not authorized the call or is not the
    /// owner.
    Unauthorized,
}

/// The event a successful binding publishes.
#[derive(Clone, Debug, PartialEq, Eq)]
pub struct SetEvent {
    pub name: Vec<u8>,
    pub contract: Principal,
}

/// The name directory component.
pub struct Registrar {
    owner: Option<Principal>,
    entries: Vec<(Vec<u8>, Principal)>,
}

/// The stored entries with their names read off as byte sequences.
pub open spec fn keyed(s: Seq<(Vec<u8>, Principal)>) -> Seq<(Seq<u8>, Principal)> {
    s.map_values(|e: (Vec<u8>, Principal)| (e.0@, e.1))
}

/// True iff the two byte strings hold the same bytes.
pub fn bytes_eq(a: &Vec<u8>, b: &Vec<u8>) -> (r: bool)
    ensures
        r == (a@ == b@),
{
    if a.len() != b.len() {
        return false;
    }
    let mut i: usize = 0;
    while i < a.len()
        invariant
            a@.len() == b@.len(),
            0 <= i <= a@.len(),
            forall|j: int| 0 <= j < i ==> a@[j] == b@[j],
        decreases a@.len() - i,
    {
        if a[i] != b[i] {
            return false;
        }
        i = i + 1;
    }
    proof {
        assert(a@ =~= b@);
    }
    true
}

/// A fresh byte string holding the same bytes.
fn copy_bytes(a: &Vec<u8>) -> (r: Vec<u8>)
    ensures
        r@ == a@,
{
    let mut r: Vec<u8> = Vec::new();
    let mut i: usize = 0;
    while i < a.len()
        invariant
            0 <= i <= a@.len(),
            r@.len() == i,
            forall|j: int| 0 <= j < i ==> r@[j] == a@[j],
        decreases a@.len() - i,
    {
        r.push(a[i]);
        i = i + 1;
    }
    proof {
        assert(r@ =~= a@);
    }
    r
}

impl Registrar {
    /// The owner, once initialized.
    pub closed spec fn owner_of(&self) -> Option<Principal> {
        self.owner
    }

    /// The bindings: name bytes to principal.
    pub closed spec fn names_map(&self) -> Map<Seq<u8>, Principal> {
        assoc_map(keyed(self.entries@))
    }

    /// Internal invariant: no two entries bind the same name.
    pub closed spec fn wf(&self) -> bool {
        unique_keys(keyed(self.entries@))
    }

    /// An empty, ownerless directory.
    pub fn new() -> (r: Registrar)
        ensures
            r.wf(),
            r.owner_of() is None,
            r.names_map() == Map::<Seq<u8>, Principal>::empty(),
    {
        let r = Registrar { owner: None, entries: Vec::new() };
        proof {
            assert(keyed(r.entries@) =~= Seq::<(Seq<u8>, Principal)>::empty());
        }
        r
    }

    /// Find the index of the entry binding `name`, if any.
    fn find(&self, name: &Vec<u8>) -> (r: Option<usize>)
        ensures
            match r {
                Some(i) => i < self.entries@.len() && keyed(self.entries@)[i as int].0 == name@,
                None => forall|j: int|
                    0 <= j < self.entries@.len() ==> (#[trigger] keyed(self.entries@)[j]).0
                        != name@,
            },
    {
        let mut i: usize = 0;
        while i < self.entries.len()
            invariant
                0 <= i <= self.entries@.len(),
                forall|j: int|
                    0 <= j < i ==> (#[trigger] keyed(self.entries@)[j]).0 != name@,
            decreases self.entries@.len() - i,
        {
            if bytes_eq(&self.entries[i].0, name) {
                proof {
                    assert(keyed(self.entries@)[i as int].0 == self.entries@[i as int].0@);
                }
                return Some(i);
            }
            proof {
                assert(keyed(self.entries@)[i as int].0 == self.entries@[i as int].0@);
            }
            i = i + 1;
        }
        None
    }

    /// Fix the owner. Fails with `AlreadyInitialized` on every call
    /// after the first; the owner must have authorized the call.
    /// Nothing changes on failure.
    pub fn init(&mut self, owner: Principal, authorized: &Vec<Principal>) -> (r: Result<
        (),
        RegistrarError,
    >)
        requires
            old(self).wf(),
        ensures
            final(self).wf(),
            match r {
                Ok(()) => {
                    &&& old(self).owner_of() is None
                    &&& authorized@.contains(owner)
                    &&& final(self).owner_of() == Some(owner)
                    &&& final(self).names_map() == old(self).names_map()
                },
                Err(e) => {
                    &&& *final(self) == *old(self)
                    &&& e == (if old(self).owner_of() is Some {
                        RegistrarError::AlreadyInitialized
                    } else {
                        RegistrarError::Unauthorized
                    })
                    &&& (old(self).owner_of() is Some || !authorized@.contains(owner))
                },
            },
    {
        if self.owner.is_some() {
            return Err(RegistrarError::AlreadyInitialized);
        }
        if !grants(authorized, owner) {
            return Err(RegistrarError::Unauthorized);
        }
        self.owner = Some(owner);
        Ok(())
    }

    /// Bind `name` to `contract_id`, replacing any previous binding of
    /// the same name. Only the stored owner, with authorization, may
    /// bind; the returned event carries the bound name and principal.
    pub fn set(
        &mut self,
        name: Vec<u8>,
        contract_id: Principal,
        authorized: &Vec<Principal>,
    ) -> (r: Result<SetEvent, RegistrarError>)
        requires
            old(self).wf(),
        ensures
            final(self).wf(),
            match r {
                Ok(ev) => {
                    &&& old(self).owner_of() is Some
                    &&& authorized@.contains(old(self).owner_of().unwrap())
                    &&& final(self).names_map() == old(self).names_map().insert(
                        name@,
                        contract_id,
                    )
                    &&& final(self).owner_of() == old(self).owner_of()
                    &&& ev.name@ == name@
                    &&& ev.contract == contract_id
                },
                Err(e) => {
                    &&& *final(self) == *old(self)
                    &&& e == (if old(self).owner_of() is None {
                        RegistrarError::NotInitialized
                    } else {
                        RegistrarError::Unauthorized
                    })
                    &&& (old(self).owner_of() is None || !authorized@.contains(
                        old(self).owner_of().unwrap(),
                    ))
                },
            },
    {
        let owner: Principal = match self.owner {
            Some(o) => o,
            None => {
                return Err(RegistrarError::NotInitialized);
            },
        };
        if !grants(authorized, owner) {
            return Err(RegistrarError::Unauthorized);
        }
        let stored: Vec<u8> = copy_bytes(&name);
        self.restore_binding(stored, contract_id);
        Ok(SetEvent { name, contract: contract_id })
    }

    /// Load one persisted binding back into the directory, as the
    /// surrounding runtime does when it rehydrates the registrar from
    /// its key-addressed storage before a call; `set` stores its
    /// validated binding through this too.
    pub fn restore_binding(&mut self, name: Vec<u8>, contract_id: Principal)
        requires
            old(self).wf(),
        ensures
            final(self).wf(),
            final(self).names_map() == old(self).names_map().insert(name@, contract_id),
            final(self).owner_of() == old(self).owner_of(),
    {
        let ghost s0 = self.entries@;
        match self.find(&name) {
            Some(i) => {
                proof {
                    lemma_assoc_update(keyed(s0), i as int, contract_id);
                }
                self.entries[i] = (name, contract_id);
                proof {
                    assert(keyed(self.entries@) =~= keyed(s0).update(
                        i as int,
                        (keyed(s0)[i as int].0, contract_id),
                    ));
                }
            },
            None => {
                proof {
                    lemma_assoc_push(keyed(s0), name@, contract_id);
                }
                self.entries.push((name, contract_id));
                proof {
                    assert(keyed(self.entries@) =~= keyed(s0).push((name@, contract_id)));
                }
            },
        }
    }

    /// Drop the binding of `name`, if any; removing an unbound name
    /// changes nothing and still succeeds. Only the stored owner, with
    /// authorization, may remove.
    pub fn remove(&mut self, name: &Vec<u8>, authorized: &Vec<Principal>) -> (r: Result<
        (),
        RegistrarError,
    >)
        requires
            old(self).wf(),
        ensures
            final(self).wf(),
            match r {
                Ok(()) => {
                    &&& old(self).owner_of() is Some
                    &&& authorized@.contains(old(self).owner_of().unwrap())
                    &&& final(self).names_map() == old(self).names_map().remove(name@)
                    &&& final(self).owner_of() == old(self).owner_of()
                },
                Err(e) => {
                    &&& *final(self) == *old(self)
                    &&& e == (if old(self).owner_of() is None {
                        RegistrarError::NotInitialized
                    } else {
                        RegistrarError::Unauthorized
                    })
                    &&& (old(self).owner_of() is None || !authorized@.contains(
                        old(self).owner_of().unwrap(),
                    ))
                },
            },
    {
        let owner: Principal = match self.owner {
            Some(o) => o,
            None => {
                return Err(RegistrarError::NotInitialized);
            },
        };
        if !grants(authorized, owner) {
            return Err(RegistrarError::Unauthorized);
        }
        let ghost s0 = self.entries@;
        match self.find(name) {
            Some(i) => {
                proof {
                    lemma_assoc_remove(keyed(s0), i as int);
                }
                self.entries.remove(i);
                proof {
                    assert(keyed(self.entries@) =~= keyed(s0).remove(i as int));
                }
            },
            None => {
                proof {
                    lemma_assoc_contains(keyed(s0), name@);
                    assert(self.names_map() =~= self.names_map().remove(name@));
                }
            },
        }
        Ok(())
    }

    /// The principal bound to `name`, if any.
    pub fn resolve(&self, name: &Vec<u8>) -> (r: Option<Principal>)
        requires
            self.wf(),
        ensures
            r == if self.names_map().contains_key(name@) {
                Some(self.names_map()[name@])
            } else {
                None::<Principal>
            },
    {
        match self.find(name) {
            Some(i) => {
                proof {
                    lemma_assoc_get(keyed(self.entries@), i as int);
                }
                Some(self.entries[i].1)
            },
            None => {
                proof {
                    lemma_assoc_contains(keyed(self.entries@), name@);
                }
                None
            },
        }
    }
}

} // verus!
