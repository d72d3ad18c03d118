//! A small map keyed by the hash of a name.
//!
//! Entries are kept in the order they were made. A lookup hashes the name and
//! answers with the oldest entry that has the hash; the names themselves are
//! not kept, so two names with one hash are one key.

use vstd::prelude::*;
use vstd::string::StringSliceAdditionalSpecFns;
use crate::hash::{absorb, DJB2, DJB2_SEED};

verus! {

/// The key of a name: the hash accumulator after the name's bytes, cut to
/// the width of `usize`.
pub open spec fn key_of(name: Seq<u8>) -> usize {
    absorb(DJB2_SEED, name) as usize
}

/// The first entry at or after `start` whose key is `key`.
pub open spec fn position<V>(entries: Seq<(usize, V)>, key: usize, start: int) -> Option<int>
    decreases entries.len() - start,
{
    if start < 0 || start >= entries.len() {
        None
    } else if entries[start].0 == key {
        Some(start)
    } else {
        position(entries, key, start + 1)
    }
}

/// `position` answers with the oldest entry that has the key, and with
/// `None` exactly when no entry has it.
pub proof fn lemma_position<V>(entries: Seq<(usize, V)>, key: usize, start: int)
    requires
        0 <= start,
    ensures
        match position(entries, key, start) {
            Some(i) => {
                &&& start <= i < entries.len()
                &&& entries[i].0 == key
                &&& forall|j: int| start <= j < i ==> (#[trigger] entries[j]).0 != key
            },
            None => forall|j: int| start <= j < entries.len() ==> (#[trigger] entries[j]).0 != key,
        },
    decreases entries.len() - start,
{
    if start < entries.len() && entries[start].0 != key {
        lemma_position(entries, key, start + 1);
    }
}

/// The key of `name`.
pub fn key_hash(name: &str) -> (key: usize)
    ensures
        key == key_of(name.spec_bytes()),
{
    let mut hasher = DJB2::new();
    hasher.write(name.as_bytes());
    let full: u64 = hasher.finish();
    #[verifier::truncate]
    (full as usize)
}

/// A map from names to values of type `V`.
pub struct HashedMap<V> {
    keys: Vec<usize>,
    values: Vec<V>,
}

impl<V> HashedMap<V> {
    /// The entries, oldest first, each with the key of its name.
    pub closed spec fn entries(&self) -> Seq<(usize, V)> {
        Seq::new(self.keys@.len(), |i: int| (self.keys@[i], self.values@[i]))
    }

    /// Every entry has its key and its value.
    pub closed spec fn wf(&self) -> bool {
        self.keys@.len() == self.values@.len()
    }

    /// A map without entries.
    pub fn new() -> (map: Self)
        ensures
            map.wf(),
            map.entries() == Seq::<(usize, V)>::empty(),
    {
        let map = HashedMap { keys: Vec::new(), values: Vec::new() };
        proof {
            assert(map.entries() =~= Seq::<(usize, V)>::empty());
        }
        map
    }

    /// Adds an entry for `key`. Older entries stay, also one for the same
    /// name.
    pub fn insert(&mut self, key: &str, value: V)
        requires
            old(self).wf(),
        ensures
            final(self).wf(),
            final(self).entries() == old(self).entries().push((key_of(key.spec_bytes()), value)),
    {
        let k = key_hash(key);
        self.keys.push(k);
        self.values.push(value);
        proof {
            assert(self.entries() =~= old(self).entries().push((k, value)));
        }
    }

    /// The value of the oldest entry that has the key of `key`.
    pub fn get(&self, key: &str) -> (found: Option<&V>)
        requires
            self.wf(),
        ensures
            match position(self.entries(), key_of(key.spec_bytes()), 0) {
                Some(i) => found matches Some(value) && *value == self.entries()[i].1,
                None => found is None,
            },
    {
        let hash = key_hash(key);
        let mut k: usize = 0;
        while k < self.keys.len()
            invariant
                self.wf(),
                hash == key_of(key.spec_bytes()),
                k <= self.keys@.len(),
                position(self.entries(), hash, 0) == position(self.entries(), hash, k as int),
            decreases self.keys@.len() - k,
        {
            if self.keys[k] == hash {
                proof {
                    assert(self.entries()[k as int] == (self.keys@[k as int], self.values@[k as int]));
                }
                return Some(&self.values[k]);
            }
            proof {
                assert(self.entries()[k as int].0 == self.keys@[k as int]);
            }
            k = k + 1;
        }
        None
    }

    /// How many entries the map has.
    pub fn len(&self) -> (n: usize)
        requires
            self.wf(),
        ensures
            n == self.entries().len(),
    {
        self.keys.len()
    }
}

} // verus!
