//! The earliest store of this project: a single-counter database whose
//! one key, `test`, is read and incremented on every access.

use vstd::prelude::*;
use vstd::hash_map::StringHashMap;

verus! {

/// A store holding one counter string under the key `test`, extended by
/// a `1` on every read.
pub struct Database {
    map: StringHashMap<String>,
}

impl Database {
    /// The store's contents.
    pub closed spec fn db(&self) -> Map<Seq<char>, Seq<char>> {
        Map::new(|k: Seq<char>| self.map@.contains_key(k), |k: Seq<char>| self.map@[k]@)
    }

    /// The store always carries its counter key.
    pub closed spec fn wf(&self) -> bool {
        self.map@.contains_key("test"@)
    }

    /// Creates the store with the counter at `"1"`.
    pub fn new() -> (r: Database)
        ensures
            r.wf(),
            r.db() == Map::<Seq<char>, Seq<char>>::empty().insert("test"@, "1"@),
    {
        let mut map = StringHashMap::new();
        map.insert(crate::text::str_to_string("test"), crate::text::str_to_string("1"));
        let r = Database { map };
        proof {
            assert(r.db() =~= Map::<Seq<char>, Seq<char>>::empty().insert("test"@, "1"@));
        }
        r
    }

    /// Reads the counter: appends a `1` to the stored value, stores it
    /// back, and returns the new value.  The key argument is ignored, as
    /// the counter is the store's only value.
    pub fn get(&mut self, key: &str) -> (r: String)
        requires
            old(self).wf(),
        ensures
            final(self).wf(),
            r@ == old(self).db()["test"@] + "1"@,
            final(self).db() == old(self).db().insert("test"@, r@),
    {
        let current = match self.map.get("test") {
            Some(v) => v.clone(),
            None => crate::text::str_to_string(""),
        };
        let mut out: Vec<char> = Vec::new();
        crate::text::push_str_chars(&mut out, current.as_str());
        crate::text::push_str_chars(&mut out, "1");
        let new_value = crate::text::chars_to_string(&out);
        self.map.insert(crate::text::str_to_string("test"), new_value.clone());
        proof {
            assert(self.db() =~= old(self).db().insert("test"@, new_value@));
        }
        new_value
    }
}

} // verus!
