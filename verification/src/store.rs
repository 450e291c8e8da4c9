//! Key-addressed record stores.
//!
//! Every component keeps its persisted records in a store keyed by a
//! plain value, mirroring the ledger runtime's key-addressed storage:
//! one value per key, written by `set`, read by `get`. A store is a
//! vector of key-value entries with pairwise-distinct keys; its view is
//! the finite `Map` those entries spell out, and the contracts of the
//! components speak only of that map.
//!
//! The association-list spec functions and lemmas are generic in the
//! key; the executable stores are one per key type, since looking a key
//! up needs an executable equality.

use vstd::prelude::*;

verus! {

/// The map that a sequence of key-value entries spells out; a later
/// entry wins over an earlier one with the same key.
pub open spec fn assoc_map<K, V>(s: Seq<(K, V)>) -> Map<K, V>
    decreases s.len(),
{
    if s.len() == 0 {
        Map::empty()
    } else {
        assoc_map(s.drop_last()).insert(s.last().0, s.last().1)
    }
}

/// No two entries share a key.
pub open spec fn unique_keys<K, V>(s: Seq<(K, V)>) -> bool {
    forall|i: int, j: int|
        0 <= i < j < s.len() ==> (#[trigger] s[i]).0 != (#[trigger] s[j]).0
}

/// The spelled-out map holds a key exactly when some entry carries it.
pub proof fn lemma_assoc_contains<K, V>(s: Seq<(K, V)>, k: K)
    ensures
        assoc_map(s).contains_key(k) <==> exists|i: int|
            0 <= i < s.len() && (#[trigger] s[i]).0 == k,
    decreases s.len(),
{
    if s.len() > 0 {
        let dl = s.drop_last();
        lemma_assoc_contains(dl, k);
        if s.last().0 == k {
            assert(s[s.len() - 1].0 == k);
        } else {
            if assoc_map(s).contains_key(k) {
                let i = choose|i: int| 0 <= i < dl.len() && (#[trigger] dl[i]).0 == k;
                assert(s[i].0 == k);
            }
            if exists|i: int| 0 <= i < s.len() && (#[trigger] s[i]).0 == k {
                let i = choose|i: int| 0 <= i < s.len() && (#[trigger] s[i]).0 == k;
                assert(dl[i].0 == k);
            }
        }
    }
}

/// With distinct keys, the entry at `i` is what the spelled-out map
/// holds at its key.
pub proof fn lemma_assoc_get<K, V>(s: Seq<(K, V)>, i: int)
    requires
        unique_keys(s),
        0 <= i < s.len(),
    ensures
        assoc_map(s).contains_key(s[i].0),
        assoc_map(s)[s[i].0] == s[i].1,
    decreases s.len(),
{
    if i < s.len() - 1 {
        let dl = s.drop_last();
        assert(unique_keys(dl));
        lemma_assoc_get(dl, i);
        assert(s[i].0 != s[s.len() - 1].0);
    }
}

/// Replacing the value of the entry at `i` inserts at its key.
pub proof fn lemma_assoc_update<K, V>(s: Seq<(K, V)>, i: int, v: V)
    requires
        unique_keys(s),
        0 <= i < s.len(),
    ensures
        assoc_map(s.update(i, (s[i].0, v))) == assoc_map(s).insert(s[i].0, v),
        unique_keys(s.update(i, (s[i].0, v))),
    decreases s.len(),
{
    let k = s[i].0;
    let s2 = s.update(i, (k, v));
    assert(forall|x: int| 0 <= x < s.len() ==> (#[trigger] s2[x]).0 == s[x].0);
    if i == s.len() - 1 {
        assert(s2.drop_last() =~= s.drop_last());
        assert(assoc_map(s.drop_last()).insert(k, s.last().1).insert(k, v) =~= assoc_map(
            s.drop_last(),
        ).insert(k, v));
    } else {
        let dl = s.drop_last();
        let e = s.last();
        assert(unique_keys(dl));
        assert(s2.drop_last() =~= dl.update(i, (k, v)));
        assert(s2.last() == e);
        lemma_assoc_update(dl, i, v);
        assert(k != e.0);
        assert(assoc_map(dl).insert(k, v).insert(e.0, e.1) =~= assoc_map(dl).insert(
            e.0,
            e.1,
        ).insert(k, v));
    }
}

/// Appending an entry with a fresh key inserts at that key.
pub proof fn lemma_assoc_push<K, V>(s: Seq<(K, V)>, k: K, v: V)
    requires
        unique_keys(s),
        forall|i: int| 0 <= i < s.len() ==> (#[trigger] s[i]).0 != k,
    ensures
        assoc_map(s.push((k, v))) == assoc_map(s).insert(k, v),
        unique_keys(s.push((k, v))),
{
    assert(s.push((k, v)).drop_last() =~= s);
    assert(s.push((k, v)).last() == (k, v));
    assert(forall|x: int| 0 <= x < s.len() ==> (#[trigger] s.push((k, v))[x]) == s[x]);
}

/// Deleting the entry at `i` removes its key.
pub proof fn lemma_assoc_remove<K, V>(s: Seq<(K, V)>, i: int)
    requires
        unique_keys(s),
        0 <= i < s.len(),
    ensures
        assoc_map(s.remove(i)) == assoc_map(s).remove(s[i].0),
        unique_keys(s.remove(i)),
    decreases s.len(),
{
    let k = s[i].0;
    let sr = s.remove(i);
    if i == s.len() - 1 {
        let dl = s.drop_last();
        assert(sr =~= dl);
        lemma_assoc_contains(dl, k);
        assert(forall|j: int| 0 <= j < dl.len() ==> (#[trigger] dl[j]).0 != k);
        assert(assoc_map(dl).insert(k, s.last().1).remove(k) =~= assoc_map(dl));
    } else {
        let dl = s.drop_last();
        let e = s.last();
        assert(unique_keys(dl));
        assert(sr.drop_last() =~= dl.remove(i));
        assert(sr.last() == e);
        lemma_assoc_remove(dl, i);
        assert(k != e.0);
        assert(assoc_map(dl).remove(k).insert(e.0, e.1) =~= assoc_map(dl).insert(
            e.0,
            e.1,
        ).remove(k));
        assert(forall|a: int, b: int|
            0 <= a < b < sr.len() ==> (#[trigger] sr[a]).0 != (#[trigger] sr[b]).0) by {
            assert(forall|x: int|
                0 <= x < sr.len() ==> (#[trigger] sr[x]) == (if x < i {
                    s[x]
                } else {
                    s[x + 1]
                }));
        }
    }
}

/// A record store keyed by a 64-bit id.
pub struct Store64<V> {
    entries: Vec<(u64, V)>,
}

impl<V> View for Store64<V> {
    type V = Map<u64, V>;

    closed spec fn view(&self) -> Map<u64, V> {
        assoc_map(self.entries@)
    }
}

impl<V> Store64<V> {
    pub closed spec fn wf(&self) -> bool {
        unique_keys(self.entries@)
    }

    pub fn new() -> (s: Self)
        ensures
            s.wf(),
            s@ == Map::<u64, V>::empty(),
    {
        Store64 { entries: Vec::new() }
    }

    fn find(&self, key: u64) -> (r: Option<usize>)
        ensures
            match r {
                Some(i) => i < self.entries@.len() && self.entries@[i as int].0 == key,
                None => forall|j: int|
                    0 <= j < self.entries@.len() ==> (#[trigger] self.entries@[j]).0 != key,
            },
    {
        let mut i: usize = 0;
        while i < self.entries.len()
            invariant
                0 <= i <= self.entries@.len(),
                forall|j: int| 0 <= j < i ==> (#[trigger] self.entries@[j]).0 != key,
            decreases self.entries@.len() - i,
        {
            if self.entries[i].0 == key {
                return Some(i);
            }
            i = i + 1;
        }
        None
    }

    pub fn get(&self, key: u64) -> (r: Option<&V>)
        requires
            self.wf(),
        ensures
            match r {
                Some(v) => self@.contains_key(key) && *v == self@[key],
                None => !self@.contains_key(key),
            },
    {
        match self.find(key) {
            Some(i) => {
                proof {
                    lemma_assoc_get(self.entries@, i as int);
                }
                Some(&self.entries[i].1)
            },
            None => {
                proof {
                    lemma_assoc_contains(self.entries@, key);
                }
                None
            },
        }
    }

    pub fn set(&mut self, key: u64, value: V)
        requires
            old(self).wf(),
        ensures
            final(self).wf(),
            final(self)@ == old(self)@.insert(key, value),
    {
        let ghost s0 = self.entries@;
        match self.find(key) {
            Some(i) => {
                proof {
                    lemma_assoc_update(s0, i as int, value);
                }
                self.entries[i] = (key, value);
                proof {
                    assert(self.entries@ =~= s0.update(i as int, (s0[i as int].0, value)));
                }
            },
            None => {
                proof {
                    lemma_assoc_push(s0, key, value);
                }
                self.entries.push((key, value));
            },
        }
    }
}

/// A record store keyed by a 128-bit id.
pub struct Store128<V> {
    entries: Vec<(u128, V)>,
}

impl<V> View for Store128<V> {
    type V = Map<u128, V>;

    closed spec fn view(&self) -> Map<u128, V> {
        assoc_map(self.entries@)
    }
}

impl<V> Store128<V> {
    pub closed spec fn wf(&self) -> bool {
        unique_keys(self.entries@)
    }

    pub fn new() -> (s: Self)
        ensures
            s.wf(),
            s@ == Map::<u128, V>::empty(),
    {
        Store128 { entries: Vec::new() }
    }

    fn find(&self, key: u128) -> (r: Option<usize>)
        ensures
            match r {
                Some(i) => i < self.entries@.len() && self.entries@[i as int].0 == key,
                None => forall|j: int|
                    0 <= j < self.entries@.len() ==> (#[trigger] self.entries@[j]).0 != key,
            },
    {
        let mut i: usize = 0;
        while i < self.entries.len()
            invariant
                0 <= i <= self.entries@.len(),
                forall|j: int| 0 <= j < i ==> (#[trigger] self.entries@[j]).0 != key,
            decreases self.entries@.len() - i,
        {
            if self.entries[i].0 == key {
                return Some(i);
            }
            i = i + 1;
        }
        None
    }

    pub fn get(&self, key: u128) -> (r: Option<&V>)
        requires
            self.wf(),
        ensures
            match r {
                Some(v) => self@.contains_key(key) && *v == self@[key],
                None => !self@.contains_key(key),
            },
    {
        match self.find(key) {
            Some(i) => {
                proof {
                    lemma_assoc_get(self.entries@, i as int);
                }
                Some(&self.entries[i].1)
            },
            None => {
                proof {
                    lemma_assoc_contains(self.entries@, key);
                }
                None
            },
        }
    }

    pub fn set(&mut self, key: u128, value: V)
        requires
            old(self).wf(),
        ensures
            final(self).wf(),
            final(self)@ == old(self)@.insert(key, value),
    {
        let ghost s0 = self.entries@;
        match self.find(key) {
            Some(i) => {
                proof {
                    lemma_assoc_update(s0, i as int, value);
                }
                self.entries[i] = (key, value);
                proof {
                    assert(self.entries@ =~= s0.update(i as int, (s0[i as int].0, value)));
                }
            },
            None => {
                proof {
                    lemma_assoc_push(s0, key, value);
                }
                self.entries.push((key, value));
            },
        }
    }
}

} // verus!
