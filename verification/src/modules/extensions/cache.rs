//! A small string-keyed cache, used for prepared statement ids and for the
//! column names of repeated queries.
//!
//! It behaves as a map from key text to value: a lookup gives back what the
//! last insert under that key stored, and an insert replaces an earlier
//! value under the same key.

use vstd::prelude::*;

verus! {

struct CacheEntry<T> {
    key: String,
    value: T,
}

/// A map from strings to values, with the semantics of `HashMap<String, T>`
/// for `get`, `insert` and `clear`.
pub struct Cache<T> {
    entries: Vec<CacheEntry<T>>,
    contents: Ghost<Map<Seq<char>, T>>,
}

impl<T> View for Cache<T> {
    type V = Map<Seq<char>, T>;

    closed spec fn view(&self) -> Map<Seq<char>, T> {
        self.contents@
    }
}

impl<T> Cache<T> {
    /// The entries hold each key once, and the map they describe is the
    /// cache's view.
    pub closed spec fn wf(&self) -> bool {
        &&& forall|i: int, j: int|
            0 <= i < self.entries@.len() && 0 <= j < self.entries@.len() && i != j
                ==> #[trigger] self.entries@[i].key@ != #[trigger] self.entries@[j].key@
        &&& forall|i: int|
            0 <= i < self.entries@.len() ==> self.contents@.contains_key(
                #[trigger] self.entries@[i].key@,
            ) && self.contents@[self.entries@[i].key@] == self.entries@[i].value
        &&& forall|k: Seq<char>|
            #[trigger] self.contents@.contains_key(k) ==> exists|i: int|
                0 <= i < self.entries@.len() && #[trigger] self.entries@[i].key@ == k
    }

    /// An empty cache.
    pub fn new() -> (c: Self)
        ensures
            c.wf(),
            c@ == Map::<Seq<char>, T>::empty(),
    {
        Cache { entries: Vec::new(), contents: Ghost(Map::empty()) }
    }

    fn find(&self, key: &String) -> (r: Option<usize>)
        requires
            self.wf(),
        ensures
            r matches Some(i) ==> i < self.entries@.len() && self.entries@[i as int].key@ == key@,
            r is None ==> !self@.contains_key(key@),
    {
        let mut i: usize = 0;
        while i < self.entries.len()
            invariant
                i <= self.entries@.len(),
                forall|j: int| 0 <= j < i ==> self.entries@[j].key@ != key@,
            decreases self.entries@.len() - i,
        {
            if self.entries[i].key == *key {
                return Some(i);
            }
            i = i + 1;
        }
        proof {
            if self@.contains_key(key@) {
                let j = choose|j: int|
                    0 <= j < self.entries@.len() && #[trigger] self.entries@[j].key@ == key@;
                assert(self.entries@[j].key@ != key@);
            }
        }
        None
    }

    /// The value stored under `key`, if any.
    pub fn get(&self, key: &str) -> (r: Option<&T>)
        requires
            self.wf(),
        ensures
            r is Some == self@.contains_key(key@),
            r matches Some(v) ==> *v == self@[key@],
    {
        let k = key.to_owned();
        match self.find(&k) {
            Some(i) => Some(&self.entries[i].value),
            None => None,
        }
    }

    /// Stores `value` under `key`, replacing what was stored there.
    pub fn insert(&mut self, key: String, value: T)
        requires
            old(self).wf(),
        ensures
            final(self).wf(),
            final(self)@ == old(self)@.insert(key@, value),
    {
        let ghost old_entries = self.entries@;
        let ghost new_contents = self.contents@.insert(key@, value);
        match self.find(&key) {
            Some(i) => {
                self.entries.set(i, CacheEntry { key, value });
                self.contents = Ghost(new_contents);
                assert forall|k: Seq<char>| #[trigger]
                    self.contents@.contains_key(k) implies exists|j: int|
                    0 <= j < self.entries@.len() && #[trigger] self.entries@[j].key@ == k by {
                    if k != self.entries@[i as int].key@ {
                        let j = choose|j: int|
                            0 <= j < old_entries.len() && #[trigger] old_entries[j].key@ == k;
                        assert(self.entries@[j].key@ == k);
                    }
                }
            },
            None => {
                self.entries.push(CacheEntry { key, value });
                self.contents = Ghost(new_contents);
                assert forall|k: Seq<char>| #[trigger]
                    self.contents@.contains_key(k) implies exists|j: int|
                    0 <= j < self.entries@.len() && #[trigger] self.entries@[j].key@ == k by {
                    if k != self.entries@.last().key@ {
                        let j = choose|j: int|
                            0 <= j < old_entries.len() && #[trigger] old_entries[j].key@ == k;
                        assert(self.entries@[j].key@ == k);
                    } else {
                        assert(self.entries@[self.entries@.len() - 1].key@ == k);
                    }
                }
            },
        }
    }

    /// Removes every entry.
    pub fn clear(&mut self)
        ensures
            final(self).wf(),
            final(self)@ == Map::<Seq<char>, T>::empty(),
    {
        self.entries.clear();
        self.contents = Ghost(Map::empty());
    }
}


/// A lookup after an insert gives back the inserted value; other keys keep
/// what they held; after clearing nothing is found.
pub proof fn lemma_read_after_write<T>(
    before: Map<Seq<char>, T>,
    after: Map<Seq<char>, T>,
    key: Seq<char>,
    value: T,
    other: Seq<char>,
)
    requires
        after == before.insert(key, value),
    ensures
        after.contains_key(key) && after[key] == value,
        other != key ==> (after.contains_key(other) == before.contains_key(other)),
        other != key && before.contains_key(other) ==> after[other] == before[other],
        !Map::<Seq<char>, T>::empty().contains_key(key),
{
}

} // verus!
