//! The key-value store: a mapping from string key to string value behind
//! a pluggable trait, so storage backends can change without touching the
//! callers.
//!
//! Every operation is atomic with respect to the others; the store gives
//! no multi-key atomicity.  Exclusive access for a mutation is expressed
//! here by `&mut self`; a process that shares one store among workers
//! wraps it in a mutual-exclusion container and holds the lock for the
//! duration of the single operation.

use vstd::prelude::*;
use vstd::hash_map::StringHashMap;

verus! {

/// A string key-value store.  `get` on an absent key is a domain-level
/// "not found", distinct from a store malfunction.
pub trait Database: Sized {
    /// The store's contents, as a map from key to value.
    spec fn db(&self) -> Map<Seq<char>, Seq<char>>;

    /// Looks up the value stored under `key`.
    fn get(&self, key: &str) -> (r: Option<String>)
        ensures
            match r {
                Some(v) => self.db().contains_key(key@) && v@ == self.db()[key@],
                None => !self.db().contains_key(key@),
            },
    ;

    /// Stores `value` under `key`, replacing any previous value.
    fn set(&mut self, key: String, value: String)
        ensures
            final(self).db() == old(self).db().insert(key@, value@),
    ;

    /// Removes the value stored under `key`, if any.
    fn del(&mut self, key: &str)
        ensures
            final(self).db() == old(self).db().remove(key@),
    ;
}

/// The in-memory store: one hash map of strings.
pub struct LocalDatabase {
    map: StringHashMap<String>,
}

impl LocalDatabase {
    /// Creates an empty store.
    pub fn new() -> (r: LocalDatabase)
        ensures
            r.db() == Map::<Seq<char>, Seq<char>>::empty(),
    {
        let map = StringHashMap::new();
        let r = LocalDatabase { map };
        proof {
            assert(r.db() =~= Map::<Seq<char>, Seq<char>>::empty());
        }
        r
    }
}

impl Database for LocalDatabase {
    closed spec fn db(&self) -> Map<Seq<char>, Seq<char>> {
        Map::new(|k: Seq<char>| self.map@.contains_key(k), |k: Seq<char>| self.map@[k]@)
    }

    fn get(&self, key: &str) -> (r: Option<String>) {
        match self.map.get(key) {
            Some(v) => Some(v.clone()),
            None => None,
        }
    }

    fn set(&mut self, key: String, value: String) {
        let ghost k = key@;
        let ghost v = value@;
        self.map.insert(key, value);
        proof {
            assert(self.db() =~= old(self).db().insert(k, v));
        }
    }

    fn del(&mut self, key: &str) {
        self.map.remove(key);
        proof {
            assert(self.db() =~= old(self).db().remove(key@));
        }
    }
}

impl Default for LocalDatabase {
    /// An empty store.
    fn default() -> (r: Self)
        ensures
            r.db() == Map::<Seq<char>, Seq<char>>::empty(),
    {
        Self::new()
    }
}

} // verus!
