//! Game data that scripts read: entries by category (a data file) and key.

use vstd::prelude::*;
use crate::maps::StrMap;

verus! {

/// Game data: for each category, its entries by key. `V` is the type of an entry.
pub struct DataStore<V> {
    data: StrMap<StrMap<V>>,
}

impl<V> DataStore<V> {
    /// The data: category to key to entry.
    pub closed spec fn view(&self) -> Map<Seq<char>, Map<Seq<char>, V>> {
        Map::new(|c: Seq<char>| self.data@.contains_key(c), |c: Seq<char>| self.data@[c]@)
    }

    /// The keys of a category, in the order its entries were loaded.
    pub closed spec fn key_order(&self, category: Seq<char>) -> Seq<Seq<char>> {
        self.data@[category].key_seq()
    }

    /// Each category, and each key within one, occurs once.
    pub closed spec fn wf(&self) -> bool {
        &&& self.data.wf()
        &&& forall|c: Seq<char>| #[trigger] self.data@.contains_key(c) ==> self.data@[c].wf()
    }

    /// A store with no data.
    pub fn new() -> (r: Self)
        ensures
            r.wf(),
            r@ == Map::<Seq<char>, Map<Seq<char>, V>>::empty(),
    {
        let r = DataStore { data: StrMap::new() };
        assert(r@ =~= Map::<Seq<char>, Map<Seq<char>, V>>::empty());
        r
    }

    /// Drop all data.
    pub fn clear(&mut self)
        ensures
            final(self).wf(),
            final(self)@ == Map::<Seq<char>, Map<Seq<char>, V>>::empty(),
    {
        self.data = StrMap::new();
        assert(self@ =~= Map::<Seq<char>, Map<Seq<char>, V>>::empty());
    }

    /// Set the entries of a category, replacing any it had.
    pub fn set_category(&mut self, category: String, entries: StrMap<V>)
        requires
            old(self).wf(),
            entries.wf(),
        ensures
            final(self).wf(),
            final(self)@ == old(self)@.insert(category@, entries@),
            final(self).key_order(category@) == entries.key_seq(),
            forall|c: Seq<char>| c != category@ ==> #[trigger] final(self).key_order(c) == old(self).key_order(c),
    {
        let ghost k = category@;
        let ghost e = entries;
        self.data.insert(category, entries);
        assert(self@ =~= old(self)@.insert(k, e@));
    }

    /// The entry under `key` in `category`.
    pub fn get(&self, category: &str, key: &str) -> (r: Option<&V>)
        requires
            self.wf(),
        ensures
            r is Some <==> (self@.contains_key(category@) && self@[category@].contains_key(key@)),
            r matches Some(v) ==> *v == self@[category@][key@],
    {
        match self.data.get(category) {
            Some(entries) => entries.get(key),
            None => None,
        }
    }

    /// All entries of a category.
    pub fn get_category(&self, category: &str) -> (r: Option<&StrMap<V>>)
        requires
            self.wf(),
        ensures
            r is Some <==> self@.contains_key(category@),
            r matches Some(m) ==> m.wf() && m@ == self@[category@] && m.key_seq() == self.key_order(category@),
    {
        self.data.get(category)
    }

    /// The keys of a category, in load order; none for an unknown category.
    pub fn list_keys(&self, category: &str) -> (r: Vec<String>)
        requires
            self.wf(),
        ensures
            self@.contains_key(category@) ==> r@.map_values(|s: String| s@) == self.key_order(category@),
            !self@.contains_key(category@) ==> r@.len() == 0,
    {
        match self.data.get(category) {
            Some(entries) => entries.keys(),
            None => Vec::new(),
        }
    }
}

} // verus!
