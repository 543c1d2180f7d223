//! Small association maps with insertion-ordered entries.
//!
//! `StrMap` is keyed by strings, `IdMap` by 128-bit entity identifiers. Both keep
//! each key at most once; their views are the mathematical maps they hold.

use vstd::prelude::*;
use crate::text::str_eq;

verus! {

/// A map from strings to values, its entries kept in insertion order.
#[derive(Debug, Clone)]
pub struct StrMap<V> {
    entries: Vec<(String, V)>,
}

impl<V> StrMap<V> {
    /// The keys in entry order.
    pub closed spec fn key_seq(&self) -> Seq<Seq<char>> {
        self.entries@.map_values(|e: (String, V)| e.0@)
    }

    /// The values in entry order.
    pub closed spec fn value_seq(&self) -> Seq<V> {
        self.entries@.map_values(|e: (String, V)| e.1)
    }

    /// Every key occurs once.
    pub closed spec fn wf(&self) -> bool {
        self.key_seq().no_duplicates()
    }

    /// The position of `k` in entry order (meaningful when `k` is a key).
    pub closed spec fn pos(&self, k: Seq<char>) -> int {
        choose|i: int| 0 <= i < self.entries@.len() && self.entries@[i].0@ == k
    }

    /// The map that the entries hold.
    pub closed spec fn view(&self) -> Map<Seq<char>, V> {
        Map::new(
            |k: Seq<char>| self.key_seq().contains(k),
            |k: Seq<char>| self.entries@[self.pos(k)].1,
        )
    }

    proof fn lemma_pos(&self, i: int)
        requires
            self.wf(),
            0 <= i < self.entries@.len(),
        ensures
            self.pos(self.entries@[i].0@) == i,
            self.key_seq()[i] == self.entries@[i].0@,
            self@.contains_key(self.entries@[i].0@),
            self@[self.entries@[i].0@] == self.entries@[i].1,
    {
        let k = self.entries@[i].0@;
        assert(self.key_seq()[i] == k);
        assert(self.key_seq().contains(k));
        let p = self.pos(k);
        assert(0 <= p < self.entries@.len() && self.entries@[p].0@ == k);
        assert(self.key_seq()[p] == k);
    }

    /// Ties the view's domain to the key sequence.
    pub proof fn lemma_dom(&self)
        requires
            self.wf(),
        ensures
            self.key_seq().no_duplicates(),
            self@.dom() == self.key_seq().to_set(),
            self@.dom().finite(),
            self@.dom().len() == self.key_seq().len(),
            self.key_seq().len() == self.value_seq().len(),
            forall|i: int| 0 <= i < self.key_seq().len() ==> #[trigger] self@[self.key_seq()[i]] == self.value_seq()[i],
    {
        assert(self@.dom() =~= self.key_seq().to_set());
        self.key_seq().unique_seq_to_set();
        assert forall|i: int| 0 <= i < self.key_seq().len() implies #[trigger] self@[self.key_seq()[i]] == self.value_seq()[i] by {
            self.lemma_pos(i);
        }
    }

    /// An empty map.
    pub fn new() -> (m: Self)
        ensures
            m.wf(),
            m@ == Map::<Seq<char>, V>::empty(),
            m.key_seq().len() == 0,
    {
        let m = StrMap { entries: Vec::new() };
        assert(m@ =~= Map::<Seq<char>, V>::empty());
        m
    }

    /// Number of entries.
    pub fn len(&self) -> (n: usize)
        requires
            self.wf(),
        ensures
            n == self@.len(),
            n == self.key_seq().len(),
    {
        proof { self.lemma_dom(); }
        self.entries.len()
    }

    /// Position of `k` among the entries, if it is a key.
    pub fn index_of(&self, k: &str) -> (r: Option<usize>)
        requires
            self.wf(),
        ensures
            r is None <==> !self@.contains_key(k@),
            r matches Some(i) ==> i < self.key_seq().len() && self.key_seq()[i as int] == k@
                && self.pos(k@) == i,
    {
        let mut i: usize = 0;
        while i < self.entries.len()
            invariant
                self.wf(),
                i <= self.entries@.len(),
                forall|j: int| 0 <= j < i ==> self.entries@[j].0@ != k@,
            decreases self.entries@.len() - i,
        {
            if str_eq(self.entries[i].0.as_str(), k) {
                proof { self.lemma_pos(i as int); }
                return Some(i);
            }
            i = i + 1;
        }
        proof {
            if self.key_seq().contains(k@) {
                let j = choose|j: int| 0 <= j < self.key_seq().len() && self.key_seq()[j] == k@;
                assert(self.entries@[j].0@ == k@);
            }
        }
        None
    }

    /// Whether `k` is a key.
    pub fn contains_key(&self, k: &str) -> (b: bool)
        requires
            self.wf(),
        ensures
            b == self@.contains_key(k@),
    {
        self.index_of(k).is_some()
    }

    /// The value held under `k`.
    pub fn get(&self, k: &str) -> (r: Option<&V>)
        requires
            self.wf(),
        ensures
            r matches Some(v) ==> self@.contains_key(k@) && *v == self@[k@],
            r is None ==> !self@.contains_key(k@),
    {
        match self.index_of(k) {
            Some(i) => {
                proof { self.lemma_pos(i as int); }
                Some(&self.entries[i].1)
            },
            None => None,
        }
    }

    /// The key and value at position `i` in entry order.
    pub fn entry_at(&self, i: usize) -> (r: &(String, V))
        requires
            self.wf(),
            i < self.key_seq().len(),
        ensures
            r.0@ == self.key_seq()[i as int],
            r.1 == self.value_seq()[i as int],
            self@.contains_key(r.0@),
            self@[r.0@] == r.1,
    {
        proof { self.lemma_pos(i as int); }
        &self.entries[i]
    }

    /// Sets the value under `k`, returning the one it replaces. A new key goes last.
    pub fn insert(&mut self, k: String, v: V) -> (old_v: Option<V>)
        requires
            old(self).wf(),
        ensures
            final(self).wf(),
            final(self)@ == old(self)@.insert(k@, v),
            old_v matches Some(o) ==> old(self)@.contains_key(k@) && o == old(self)@[k@],
            old_v is None ==> !old(self)@.contains_key(k@),
            old(self)@.contains_key(k@) ==> final(self).key_seq() == old(self).key_seq(),
            !old(self)@.contains_key(k@) ==> final(self).key_seq() == old(self).key_seq().push(k@),
    {
        match self.index_of(k.as_str()) {
            Some(i) => {
                proof { self.lemma_pos(i as int); }
                let ghost old_self = *self;
                let (old_k, old_val) = self.entries.remove(i);
                self.entries.insert(i, (old_k, v));
                proof {
                    assert(self.entries@ =~= old_self.entries@.update(i as int, (old_k, v)));
                    assert(self.key_seq() =~= old_self.key_seq());
                    assert forall|kk: Seq<char>| #![auto] self@.contains_key(kk) implies
                        self@[kk] == old_self@.insert(k@, v)[kk] by {
                        let p = self.pos(kk);
                        old_self.lemma_pos(p);
                        self.lemma_pos(p);
                    }
                    assert(self@ =~= old_self@.insert(k@, v));
                }
                Some(old_val)
            },
            None => {
                let ghost old_self = *self;
                self.entries.push((k, v));
                proof {
                    let n = old_self.entries@.len();
                    assert(self.key_seq() =~= old_self.key_seq().push(k@));
                    assert(!old_self.key_seq().contains(k@));
                    assert(self.wf());
                    assert forall|kk: Seq<char>| #![auto] self.key_seq().contains(kk) <==> (old_self.key_seq().contains(kk) || kk == k@) by {
                        if self.key_seq().contains(kk) {
                            let j = choose|j: int| 0 <= j < self.key_seq().len() && self.key_seq()[j] == kk;
                            if j < n { assert(old_self.key_seq()[j] == kk); }
                        }
                        if old_self.key_seq().contains(kk) {
                            let j = choose|j: int| 0 <= j < old_self.key_seq().len() && old_self.key_seq()[j] == kk;
                            assert(self.key_seq()[j] == kk);
                        }
                        if kk == k@ { assert(self.key_seq()[n as int] == kk); }
                    }
                    assert forall|kk: Seq<char>| #![auto] self@.contains_key(kk) implies
                        self@[kk] == old_self@.insert(k@, v)[kk] by {
                        let p = self.pos(kk);
                        self.lemma_pos(p);
                        if p < n {
                            old_self.lemma_pos(p);
                        }
                    }
                    assert(self@ =~= old_self@.insert(k@, v));
                }
                None
            },
        }
    }

    /// Removes `k`, returning its value. The other entries keep their order.
    pub fn remove(&mut self, k: &str) -> (old_v: Option<V>)
        requires
            old(self).wf(),
        ensures
            final(self).wf(),
            final(self)@ == old(self)@.remove(k@),
            old_v matches Some(o) ==> old(self)@.contains_key(k@) && o == old(self)@[k@],
            old_v is None ==> !old(self)@.contains_key(k@) && final(self).key_seq() == old(self).key_seq(),
            old_v is Some ==> exists|i: int| 0 <= i < old(self).key_seq().len()
                && final(self).key_seq() == old(self).key_seq().remove(i),
    {
        match self.index_of(k) {
            Some(i) => {
                proof { self.lemma_pos(i as int); }
                let ghost old_self = *self;
                let (_old_k, old_val) = self.entries.remove(i);
                proof {
                    assert(self.key_seq() =~= old_self.key_seq().remove(i as int));
                    assert(self.wf());
                    assert forall|kk: Seq<char>| #![auto] self@.contains_key(kk) implies
                        old_self@.remove(k@).contains_key(kk) && self@[kk] == old_self@.remove(k@)[kk] by {
                        let p = self.pos(kk);
                        self.lemma_pos(p);
                        if p < i {
                            old_self.lemma_pos(p);
                        } else {
                            old_self.lemma_pos(p + 1);
                        }
                    }
                    assert forall|kk: Seq<char>| #![auto] old_self@.remove(k@).contains_key(kk) implies
                        self@.contains_key(kk) by {
                        let p = old_self.pos(kk);
                        old_self.lemma_pos(p);
                        if p < i {
                            assert(self.entries@[p] == old_self.entries@[p]);
                            self.lemma_pos(p);
                        } else {
                            assert(p != i);
                            assert(self.entries@[p - 1] == old_self.entries@[p]);
                            self.lemma_pos(p - 1);
                        }
                    }
                    assert(self@ =~= old_self@.remove(k@));
                }
                Some(old_val)
            },
            None => {
                assert(self@ =~= self@.remove(k@));
                None
            },
        }
    }

    /// Adds every entry of `other`, its values replacing those under the same keys.
    pub fn extend(&mut self, other: StrMap<V>)
        requires
            old(self).wf(),
            other.wf(),
        ensures
            final(self).wf(),
            final(self)@ == old(self)@.union_prefer_right(other@),
    {
        let ghost base = self@;
        let ghost o = other@;
        let mut rest = other;
        while rest.entries.len() > 0
            invariant
                self.wf(),
                rest.wf(),
                rest@.dom().subset_of(o.dom()),
                forall|k: Seq<char>| #[trigger] rest@.contains_key(k) ==> rest@[k] == o[k],
                self@ == base.union_prefer_right(o.remove_keys(rest@.dom())),
            decreases rest.entries.len(),
        {
            let n = rest.entries.len();
            let k = rest.entry_at(n - 1).0.clone();
            let ghost before = rest@;
            proof { rest.lemma_dom(); }
            let removed = rest.remove(k.as_str());
            match removed {
                Some(v) => {
                    let ghost prev = self@;
                    self.insert(k, v);
                    proof {
                        assert(rest@.dom() =~= before.dom().remove(k@));
                        assert(self@ =~= base.union_prefer_right(o.remove_keys(rest@.dom())));
                    }
                },
                None => {},
            }
            proof {
                rest.lemma_dom();
            }
        }
        proof {
            assert(rest@.dom() =~= Set::<Seq<char>>::empty()) by {
                rest.lemma_dom();
            }
            assert(o.remove_keys(rest@.dom()) =~= o);
        }
    }

    /// Replaces the value under `k` by `f` applied to it, keeping the entry's position.
    pub fn modify<F: FnOnce(V) -> V>(&mut self, k: &str, f: F) -> (found: bool)
        requires
            old(self).wf(),
            old(self)@.contains_key(k@) ==> f.requires((old(self)@[k@],)),
        ensures
            final(self).wf(),
            found == old(self)@.contains_key(k@),
            final(self).key_seq() == old(self).key_seq(),
            found ==> f.ensures((old(self)@[k@],), final(self)@[k@]),
            found ==> final(self)@ == old(self)@.insert(k@, final(self)@[k@]),
            !found ==> final(self)@ == old(self)@,
    {
        match self.index_of(k) {
            Some(i) => {
                proof { self.lemma_pos(i as int); }
                let ghost old_self = *self;
                let (old_k, old_val) = self.entries.remove(i);
                let nv = f(old_val);
                self.entries.insert(i, (old_k, nv));
                proof {
                    assert(self.entries@ =~= old_self.entries@.update(i as int, (old_k, nv)));
                    assert(self.key_seq() =~= old_self.key_seq());
                    self.lemma_pos(i as int);
                    assert forall|kk: Seq<char>| #![auto] self@.contains_key(kk) implies
                        self@[kk] == old_self@.insert(k@, nv)[kk] by {
                        let p = self.pos(kk);
                        old_self.lemma_pos(p);
                        self.lemma_pos(p);
                    }
                    assert(self@ =~= old_self@.insert(k@, nv));
                }
                true
            },
            None => false,
        }
    }

    /// Removes every entry.
    pub fn clear(&mut self)
        ensures
            final(self).wf(),
            final(self)@ == Map::<Seq<char>, V>::empty(),
            final(self).key_seq().len() == 0,
    {
        self.entries.clear();
        assert(self@ =~= Map::<Seq<char>, V>::empty());
    }

    /// The keys, in entry order.
    pub fn keys(&self) -> (r: Vec<String>)
        requires
            self.wf(),
        ensures
            r@.map_values(|s: String| s@) == self.key_seq(),
    {
        let mut r: Vec<String> = Vec::new();
        let mut i: usize = 0;
        while i < self.entries.len()
            invariant
                self.wf(),
                i <= self.entries@.len(),
                r@.map_values(|s: String| s@) == self.key_seq().subrange(0, i as int),
            decreases self.entries@.len() - i,
        {
            let ghost old_r = r@;
            let k = self.entries[i].0.clone();
            assert(k@ == self.key_seq()[i as int]);
            r.push(k);
            assert(r@.map_values(|s: String| s@) =~= old_r.map_values(|s: String| s@).push(k@));
            i = i + 1;
            assert(r@.map_values(|s: String| s@) =~= self.key_seq().subrange(0, i as int));
        }
        assert(self.key_seq().subrange(0, i as int) =~= self.key_seq());
        r
    }
}

impl<V: Clone> StrMap<V> {
    /// A copy holding clones of every value, keys in the same order.
    pub fn clone_entries(&self) -> (r: Self)
        ensures
            r.wf() == self.wf(),
            r.key_seq() == self.key_seq(),
            r.value_seq().len() == self.value_seq().len(),
            forall|i: int| 0 <= i < self.value_seq().len() ==> cloned(#[trigger] self.value_seq()[i], r.value_seq()[i]),
    {
        let mut entries: Vec<(String, V)> = Vec::new();
        let mut i: usize = 0;
        while i < self.entries.len()
            invariant
                i <= self.entries@.len(),
                entries@.len() == i,
                forall|j: int| 0 <= j < i ==> #[trigger] entries@[j].0@ == self.entries@[j].0@
                    && cloned(self.entries@[j].1, entries@[j].1),
            decreases self.entries@.len() - i,
        {
            let k = self.entries[i].0.clone();
            let v = self.entries[i].1.clone();
            entries.push((k, v));
            i = i + 1;
        }
        let r = StrMap { entries };
        assert(r.key_seq() =~= self.key_seq());
        assert forall|j: int| 0 <= j < self.value_seq().len() implies cloned(#[trigger] self.value_seq()[j], r.value_seq()[j]) by {
            assert(entries@[j].0@ == self.entries@[j].0@);
        }
        r
    }
}

/// A map from 128-bit identifiers to values, its entries kept in insertion order.
#[derive(Debug, Clone)]
pub struct IdMap<V> {
    entries: Vec<(u128, V)>,
}

impl<V> IdMap<V> {
    /// The keys in entry order.
    pub closed spec fn key_seq(&self) -> Seq<u128> {
        self.entries@.map_values(|e: (u128, V)| e.0)
    }

    /// The values in entry order.
    pub closed spec fn value_seq(&self) -> Seq<V> {
        self.entries@.map_values(|e: (u128, V)| e.1)
    }

    /// Every key occurs once.
    pub closed spec fn wf(&self) -> bool {
        self.key_seq().no_duplicates()
    }

    /// The position of `k` in entry order (meaningful when `k` is a key).
    pub closed spec fn pos(&self, k: u128) -> int {
        choose|i: int| 0 <= i < self.entries@.len() && self.entries@[i].0 == k
    }

    /// The map that the entries hold.
    pub closed spec fn view(&self) -> Map<u128, V> {
        Map::new(|k: u128| self.key_seq().contains(k), |k: u128| self.entries@[self.pos(k)].1)
    }

    proof fn lemma_pos(&self, i: int)
        requires
            self.wf(),
            0 <= i < self.entries@.len(),
        ensures
            self.pos(self.entries@[i].0) == i,
            self.key_seq()[i] == self.entries@[i].0,
            self@.contains_key(self.entries@[i].0),
            self@[self.entries@[i].0] == self.entries@[i].1,
    {
        let k = self.entries@[i].0;
        assert(self.key_seq()[i] == k);
        assert(self.key_seq().contains(k));
        let p = self.pos(k);
        assert(self.key_seq()[p] == k);
    }

    /// Ties the view's domain to the key sequence.
    pub proof fn lemma_dom(&self)
        requires
            self.wf(),
        ensures
            self.key_seq().no_duplicates(),
            self@.dom() == self.key_seq().to_set(),
            self@.dom().finite(),
            self@.dom().len() == self.key_seq().len(),
            self.key_seq().len() == self.value_seq().len(),
            forall|i: int| 0 <= i < self.key_seq().len() ==> #[trigger] self@[self.key_seq()[i]] == self.value_seq()[i],
    {
        assert(self@.dom() =~= self.key_seq().to_set());
        self.key_seq().unique_seq_to_set();
        assert forall|i: int| 0 <= i < self.key_seq().len() implies #[trigger] self@[self.key_seq()[i]] == self.value_seq()[i] by {
            self.lemma_pos(i);
        }
    }

    /// An empty map.
    pub fn new() -> (m: Self)
        ensures
            m.wf(),
            m@ == Map::<u128, V>::empty(),
            m.key_seq().len() == 0,
    {
        let m = IdMap { entries: Vec::new() };
        assert(m@ =~= Map::<u128, V>::empty());
        m
    }

    /// Number of entries.
    pub fn len(&self) -> (n: usize)
        requires
            self.wf(),
        ensures
            n == self@.len(),
            n == self.key_seq().len(),
    {
        proof { self.lemma_dom(); }
        self.entries.len()
    }

    /// Position of `k` among the entries, if it is a key.
    pub fn index_of(&self, k: u128) -> (r: Option<usize>)
        requires
            self.wf(),
        ensures
            r is None <==> !self@.contains_key(k),
            r matches Some(i) ==> i < self.key_seq().len() && self.key_seq()[i as int] == k && self.pos(k) == i,
    {
        let mut i: usize = 0;
        while i < self.entries.len()
            invariant
                self.wf(),
                i <= self.entries@.len(),
                forall|j: int| 0 <= j < i ==> self.entries@[j].0 != k,
            decreases self.entries@.len() - i,
        {
            if self.entries[i].0 == k {
                proof { self.lemma_pos(i as int); }
                return Some(i);
            }
            i = i + 1;
        }
        proof {
            if self.key_seq().contains(k) {
                let j = choose|j: int| 0 <= j < self.key_seq().len() && self.key_seq()[j] == k;
                assert(self.entries@[j].0 == k);
            }
        }
        None
    }

    /// Whether `k` is a key.
    pub fn contains_key(&self, k: u128) -> (b: bool)
        requires
            self.wf(),
        ensures
            b == self@.contains_key(k),
    {
        self.index_of(k).is_some()
    }

    /// The value held under `k`.
    pub fn get(&self, k: u128) -> (r: Option<&V>)
        requires
            self.wf(),
        ensures
            r matches Some(v) ==> self@.contains_key(k) && *v == self@[k],
            r is None ==> !self@.contains_key(k),
    {
        match self.index_of(k) {
            Some(i) => {
                proof { self.lemma_pos(i as int); }
                Some(&self.entries[i].1)
            },
            None => None,
        }
    }

    /// The key and value at position `i` in entry order.
    pub fn entry_at(&self, i: usize) -> (r: &(u128, V))
        requires
            self.wf(),
            i < self.key_seq().len(),
        ensures
            r.0 == self.key_seq()[i as int],
            r.1 == self.value_seq()[i as int],
            self@.contains_key(r.0),
            self@[r.0] == r.1,
    {
        proof { self.lemma_pos(i as int); }
        &self.entries[i]
    }

    /// Sets the value under `k`, returning the one it replaces. A new key goes last.
    pub fn insert(&mut self, k: u128, v: V) -> (old_v: Option<V>)
        requires
            old(self).wf(),
        ensures
            final(self).wf(),
            final(self)@ == old(self)@.insert(k, v),
            old_v matches Some(o) ==> old(self)@.contains_key(k) && o == old(self)@[k],
            old_v is None ==> !old(self)@.contains_key(k),
            old(self)@.contains_key(k) ==> final(self).key_seq() == old(self).key_seq(),
            !old(self)@.contains_key(k) ==> final(self).key_seq() == old(self).key_seq().push(k),
    {
        match self.index_of(k) {
            Some(i) => {
                proof { self.lemma_pos(i as int); }
                let ghost old_self = *self;
                let (old_k, old_val) = self.entries.remove(i);
                self.entries.insert(i, (old_k, v));
                proof {
                    assert(self.entries@ =~= old_self.entries@.update(i as int, (old_k, v)));
                    assert(self.key_seq() =~= old_self.key_seq());
                    assert forall|kk: u128| #![auto] self@.contains_key(kk) implies
                        self@[kk] == old_self@.insert(k, v)[kk] by {
                        let p = self.pos(kk);
                        old_self.lemma_pos(p);
                        self.lemma_pos(p);
                    }
                    assert(self@ =~= old_self@.insert(k, v));
                }
                Some(old_val)
            },
            None => {
                let ghost old_self = *self;
                self.entries.push((k, v));
                proof {
                    let n = old_self.entries@.len();
                    assert(self.key_seq() =~= old_self.key_seq().push(k));
                    assert(!old_self.key_seq().contains(k));
                    assert(self.wf());
                    assert forall|kk: u128| #![auto] self.key_seq().contains(kk) <==> (old_self.key_seq().contains(kk) || kk == k) by {
                        if self.key_seq().contains(kk) {
                            let j = choose|j: int| 0 <= j < self.key_seq().len() && self.key_seq()[j] == kk;
                            if j < n { assert(old_self.key_seq()[j] == kk); }
                        }
                        if old_self.key_seq().contains(kk) {
                            let j = choose|j: int| 0 <= j < old_self.key_seq().len() && old_self.key_seq()[j] == kk;
                            assert(self.key_seq()[j] == kk);
                        }
                        if kk == k { assert(self.key_seq()[n as int] == kk); }
                    }
                    assert forall|kk: u128| #![auto] self@.contains_key(kk) implies
                        self@[kk] == old_self@.insert(k, v)[kk] by {
                        let p = self.pos(kk);
                        self.lemma_pos(p);
                        if p < n {
                            old_self.lemma_pos(p);
                        }
                    }
                    assert(self@ =~= old_self@.insert(k, v));
                }
                None
            },
        }
    }

    /// Removes `k`, returning its value. The other entries keep their order.
    pub fn remove(&mut self, k: u128) -> (old_v: Option<V>)
        requires
            old(self).wf(),
        ensures
            final(self).wf(),
            final(self)@ == old(self)@.remove(k),
            old_v matches Some(o) ==> old(self)@.contains_key(k) && o == old(self)@[k],
            old_v is None ==> !old(self)@.contains_key(k) && final(self).key_seq() == old(self).key_seq(),
            old_v is Some ==> exists|i: int| 0 <= i < old(self).key_seq().len()
                && final(self).key_seq() == old(self).key_seq().remove(i),
    {
        match self.index_of(k) {
            Some(i) => {
                proof { self.lemma_pos(i as int); }
                let ghost old_self = *self;
                let (_old_k, old_val) = self.entries.remove(i);
                proof {
                    assert(self.key_seq() =~= old_self.key_seq().remove(i as int));
                    assert(self.wf());
                    assert forall|kk: u128| #![auto] self@.contains_key(kk) implies
                        old_self@.remove(k).contains_key(kk) && self@[kk] == old_self@.remove(k)[kk] by {
                        let p = self.pos(kk);
                        self.lemma_pos(p);
                        if p < i {
                            old_self.lemma_pos(p);
                        } else {
                            old_self.lemma_pos(p + 1);
                        }
                    }
                    assert forall|kk: u128| #![auto] old_self@.remove(k).contains_key(kk) implies
                        self@.contains_key(kk) by {
                        let p = old_self.pos(kk);
                        old_self.lemma_pos(p);
                        if p < i {
                            assert(self.entries@[p] == old_self.entries@[p]);
                            self.lemma_pos(p);
                        } else {
                            assert(p != i);
                            assert(self.entries@[p - 1] == old_self.entries@[p]);
                            self.lemma_pos(p - 1);
                        }
                    }
                    assert(self@ =~= old_self@.remove(k));
                }
                Some(old_val)
            },
            None => {
                assert(self@ =~= self@.remove(k));
                None
            },
        }
    }

    /// Replaces the value under `k` by `f` applied to it, keeping the entry's position.
    pub fn modify<F: FnOnce(V) -> V>(&mut self, k: u128, f: F) -> (found: bool)
        requires
            old(self).wf(),
            old(self)@.contains_key(k) ==> f.requires((old(self)@[k],)),
        ensures
            final(self).wf(),
            found == old(self)@.contains_key(k),
            final(self).key_seq() == old(self).key_seq(),
            found ==> f.ensures((old(self)@[k],), final(self)@[k]),
            found ==> final(self)@ == old(self)@.insert(k, final(self)@[k]),
            !found ==> final(self)@ == old(self)@,
    {
        match self.index_of(k) {
            Some(i) => {
                proof { self.lemma_pos(i as int); }
                let ghost old_self = *self;
                let (old_k, old_val) = self.entries.remove(i);
                let nv = f(old_val);
                self.entries.insert(i, (old_k, nv));
                proof {
                    assert(self.entries@ =~= old_self.entries@.update(i as int, (old_k, nv)));
                    assert(self.key_seq() =~= old_self.key_seq());
                    self.lemma_pos(i as int);
                    assert forall|kk: u128| #![auto] self@.contains_key(kk) implies
                        self@[kk] == old_self@.insert(k, nv)[kk] by {
                        let p = self.pos(kk);
                        old_self.lemma_pos(p);
                        self.lemma_pos(p);
                    }
                    assert(self@ =~= old_self@.insert(k, nv));
                }
                true
            },
            None => false,
        }
    }

    /// Replaces the value under `k` by the first part of what `f` makes of it, keeping the
    /// entry's position, and returns the second part. `None`, with nothing changed, when `k`
    /// is not a key.
    pub fn update<R, F: FnOnce(V) -> (V, R)>(&mut self, k: u128, f: F) -> (r: Option<R>)
        requires
            old(self).wf(),
            old(self)@.contains_key(k) ==> f.requires((old(self)@[k],)),
        ensures
            final(self).wf(),
            r is Some == old(self)@.contains_key(k),
            final(self).key_seq() == old(self).key_seq(),
            r matches Some(x) ==> f.ensures((old(self)@[k],), (final(self)@[k], x)),
            r is Some ==> final(self)@ == old(self)@.insert(k, final(self)@[k]),
            r is None ==> final(self)@ == old(self)@,
    {
        match self.index_of(k) {
            Some(i) => {
                proof { self.lemma_pos(i as int); }
                let ghost old_self = *self;
                let (old_k, old_val) = self.entries.remove(i);
                let (nv, extra) = f(old_val);
                self.entries.insert(i, (old_k, nv));
                proof {
                    assert(self.entries@ =~= old_self.entries@.update(i as int, (old_k, nv)));
                    assert(self.key_seq() =~= old_self.key_seq());
                    self.lemma_pos(i as int);
                    assert forall|kk: u128| #![auto] self@.contains_key(kk) implies
                        self@[kk] == old_self@.insert(k, nv)[kk] by {
                        let p = self.pos(kk);
                        old_self.lemma_pos(p);
                        self.lemma_pos(p);
                    }
                    assert(self@ =~= old_self@.insert(k, nv));
                }
                Some(extra)
            },
            None => None,
        }
    }

    /// Removes every entry.
    pub fn clear(&mut self)
        ensures
            final(self).wf(),
            final(self)@ == Map::<u128, V>::empty(),
            final(self).key_seq().len() == 0,
    {
        self.entries.clear();
        assert(self@ =~= Map::<u128, V>::empty());
    }
}

} // verus!
