//! The key-value store: a map from text keys to text values.
//!
//! Reading takes the store by shared reference and writing by exclusive
//! reference, so many readers may look at a store at once while a writer has
//! it alone, and every operation is seen by the others whole or not at all.
use vstd::hash_map::StringHashMap;
use vstd::prelude::*;

verus! {

/// A map from keys to values, both text. No key occurs twice.
pub struct Store {
    entries: StringHashMap<String>,
}

impl View for Store {
    type V = Map<Seq<char>, Seq<char>>;

    closed spec fn view(&self) -> Map<Seq<char>, Seq<char>> {
        self.entries@.map_values(|v: String| v@)
    }
}

impl Default for Store {
    /// An empty store.
    fn default() -> (store: Store)
        ensures
            store@ == Map::<Seq<char>, Seq<char>>::empty(),
    {
        Store::new()
    }
}

impl Store {
    /// An empty store.
    pub fn new() -> (store: Store)
        ensures
            store@ == Map::<Seq<char>, Seq<char>>::empty(),
    {
        Store { entries: StringHashMap::new() }
    }

    /// Puts `value` under `key`, in place of the value that was there, if
    /// any. Every other key keeps its value.
    pub fn set(&mut self, key: String, value: String)
        ensures
            final(self)@ == old(self)@.insert(key@, value@),
    {
        self.entries.insert(key, value);
    }

    /// The value under `key`, or `None` where the store has no such key.
    pub fn get(&self, key: &str) -> (found: Option<&String>)
        ensures
            match found {
                Some(value) => self@.contains_key(key@) && value@ == self@[key@],
                None => !self@.contains_key(key@),
            },
    {
        self.entries.get(key)
    }

    /// Removes `key` and tells whether it was there. Every other key keeps
    /// its value.
    pub fn delete(&mut self, key: &str) -> (removed: bool)
        ensures
            removed == old(self)@.contains_key(key@),
            final(self)@ == old(self)@.remove(key@),
    {
        let removed = self.entries.contains_key(key);
        if removed {
            self.entries.remove(key);
        }
        removed
    }
}

} // verus!
