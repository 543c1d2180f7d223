//! Script state storage.
//!
//! Scripts persist small blobs of state under a namespace and a key. The in-memory
//! store keeps them in maps and supports named checkpoints that snapshot everything.

use vstd::prelude::*;
use vstd::slice::slice_to_vec;
use crate::maps::StrMap;
use crate::text::{owned, string_from_chars, chars_of};

verus! {

/// Errors that can occur during script state operations.
#[derive(Debug)]
pub enum PersistenceError {
    /// Failed to serialize state
    Serialization(String),
    /// Failed to deserialize state
    Deserialization(String),
    /// I/O error, with the system's message
    Io(String),
    /// Key not found
    NotFound(String),
    /// Invalid namespace
    InvalidNamespace(String),
}

/// Stored script state with metadata.
#[derive(Debug)]
pub struct ScriptState {
    /// The actual data (serialized script value).
    pub data: Vec<u8>,
    /// Namespace this state belongs to.
    pub namespace: String,
    /// Key within the namespace.
    pub key: String,
    /// When this state was created (seconds since the Unix epoch).
    pub created_at: u64,
    /// When this state was last updated (seconds since the Unix epoch).
    pub updated_at: u64,
    /// Version for conflict detection; 1 when created, one more on each update.
    pub version: u64,
}

/// The plain content of a stored entry.
pub struct ScriptStateView {
    pub data: Seq<u8>,
    pub namespace: Seq<char>,
    pub key: Seq<char>,
    pub created_at: u64,
    pub updated_at: u64,
    pub version: u64,
}

impl View for ScriptState {
    type V = ScriptStateView;

    open spec fn view(&self) -> ScriptStateView {
        ScriptStateView {
            data: self.data@,
            namespace: self.namespace@,
            key: self.key@,
            created_at: self.created_at,
            updated_at: self.updated_at,
            version: self.version,
        }
    }
}

impl Clone for ScriptState {
    fn clone(&self) -> (r: Self)
        ensures
            r@ == self@,
    {
        ScriptState {
            data: self.data.clone(),
            namespace: self.namespace.clone(),
            key: self.key.clone(),
            created_at: self.created_at,
            updated_at: self.updated_at,
            version: self.version,
        }
    }
}

/// Reads the system clock: `SystemTime::now()` measured from the Unix epoch, in whole
/// seconds, 0 when the clock reads earlier than the epoch. The value depends on the time
/// of the call; nothing is claimed about it.
#[verifier::external_body]
fn unix_now_secs() -> (r: u64) {
    std::time::SystemTime::now().duration_since(std::time::UNIX_EPOCH).map(|d| d.as_secs()).unwrap_or(0)
}

impl ScriptState {
    /// A new entry holding `data`, created and updated now, at version 1.
    pub fn new(namespace: &str, key: &str, data: Vec<u8>) -> (r: Self)
        ensures
            r.data@ == data@,
            r.namespace@ == namespace@,
            r.key@ == key@,
            r.created_at == r.updated_at,
            r.version == 1,
    {
        let now = unix_now_secs();
        ScriptState {
            data,
            namespace: owned(namespace),
            key: owned(key),
            created_at: now,
            updated_at: now,
            version: 1,
        }
    }

    /// Replace the data, stamp the update time and bump the version.
    pub fn update(&mut self, data: Vec<u8>)
        requires
            old(self).version < u64::MAX,
        ensures
            final(self).data@ == data@,
            final(self).namespace == old(self).namespace,
            final(self).key == old(self).key,
            final(self).created_at == old(self).created_at,
            final(self).version == old(self).version + 1,
    {
        self.data = data;
        self.updated_at = unix_now_secs();
        self.version = self.version + 1;
    }
}

/// What a store holds: namespace to key to entry.
pub type StoreView = Map<Seq<char>, Map<Seq<char>, ScriptStateView>>;

/// Storage backends for script state.
pub trait ScriptStateStore {
    /// The backend's internal invariant.
    spec fn inv(&self) -> bool;

    /// Whether saving under `namespace` and `key` can proceed (an existing entry's version
    /// can still be bumped).
    spec fn can_save(&self, namespace: Seq<char>, key: Seq<char>) -> bool;

    /// The data the backend holds under `namespace` and `key`, if any.
    spec fn stored(&self, namespace: Seq<char>, key: Seq<char>) -> Option<Seq<u8>>;

    /// Save state to storage.
    fn save(&mut self, namespace: &str, key: &str, data: &[u8]) -> (r: Result<(), PersistenceError>)
        requires
            old(self).inv(),
            old(self).can_save(namespace@, key@),
        ensures
            final(self).inv();

    /// Load state from storage.
    fn load(&self, namespace: &str, key: &str) -> (r: Result<Option<Vec<u8>>, PersistenceError>)
        requires
            self.inv(),
        ensures
            r matches Ok(v) ==> match self.stored(namespace@, key@) {
                Some(d) => v matches Some(b) && b@ == d,
                None => v is None,
            };

    /// Delete state from storage.
    fn delete(&mut self, namespace: &str, key: &str) -> (r: Result<bool, PersistenceError>)
        requires
            old(self).inv(),
        ensures
            final(self).inv();

    /// List all keys in a namespace.
    fn list_keys(&self, namespace: &str) -> (r: Result<Vec<String>, PersistenceError>)
        requires
            self.inv();

    /// Clear all state in a namespace, returning how many entries it held.
    fn clear_namespace(&mut self, namespace: &str) -> (r: Result<usize, PersistenceError>)
        requires
            old(self).inv(),
        ensures
            final(self).inv();

    /// Whether a key exists: loading it gives some data.
    fn key_exists(&self, namespace: &str, key: &str) -> (r: Result<bool, PersistenceError>)
        requires
            self.inv(),
        ensures
            r matches Ok(b) ==> b == (self.stored(namespace@, key@) is Some),
    {
        match self.load(namespace, key) {
            Ok(v) => Ok(v.is_some()),
            Err(e) => Err(e),
        }
    }

    /// Metadata about a state entry.
    fn get_metadata(&self, namespace: &str, key: &str) -> (r: Result<Option<ScriptState>, PersistenceError>)
        requires
            self.inv();

    /// Create a checkpoint (snapshot) of current state.
    fn checkpoint(&mut self, name: &str) -> (r: Result<(), PersistenceError>)
        requires
            old(self).inv(),
        ensures
            final(self).inv();

    /// Restore from a checkpoint; false when there is none by that name.
    fn restore_checkpoint(&mut self, name: &str) -> (r: Result<bool, PersistenceError>)
        requires
            old(self).inv(),
        ensures
            final(self).inv();

    /// List available checkpoints.
    fn list_checkpoints(&self) -> (r: Result<Vec<String>, PersistenceError>)
        requires
            self.inv();

    /// Delete a checkpoint; false when there is none by that name.
    fn delete_checkpoint(&mut self, name: &str) -> (r: Result<bool, PersistenceError>)
        requires
            old(self).inv(),
        ensures
            final(self).inv();
}

/// In-memory script state store: fast, but not persistent across restarts.
#[derive(Debug)]
pub struct InMemoryStore {
    /// Main state storage: namespace -> (key -> state)
    data: StrMap<StrMap<ScriptState>>,
    /// Checkpoints: checkpoint name -> snapshot of data
    checkpoints: StrMap<StrMap<StrMap<ScriptState>>>,
}

/// The maps of a store are well formed at every level.
pub open spec fn store_wf(m: StrMap<StrMap<ScriptState>>) -> bool {
    &&& m.wf()
    &&& forall|ns: Seq<char>| #[trigger] m@.contains_key(ns) ==> m@[ns].wf()
}

/// The entries of one namespace, by key.
pub open spec fn ns_view(m: StrMap<ScriptState>) -> Map<Seq<char>, ScriptStateView> {
    Map::new(|k: Seq<char>| m@.contains_key(k), |k: Seq<char>| m@[k]@)
}

/// The nested view of a store's maps.
pub open spec fn store_view(m: StrMap<StrMap<ScriptState>>) -> StoreView {
    Map::new(|ns: Seq<char>| m@.contains_key(ns), |ns: Seq<char>| ns_view(m@[ns]))
}

/// The data stored under `namespace` and `key`, if any.
pub open spec fn stored_data(v: StoreView, namespace: Seq<char>, key: Seq<char>) -> Option<Seq<u8>> {
    if v.contains_key(namespace) && v[namespace].contains_key(key) {
        Some(v[namespace][key].data)
    } else {
        None
    }
}

/// How a save of `data` under `ns` and `key` changes a store from `v` to `n`: the key is
/// added to its namespace (made if new) and holds `data`; an existing entry keeps its
/// creation time and gets the next version, a new one starts at version 1; nothing
/// else changes.
pub open spec fn after_save(v: StoreView, ns: Seq<char>, key: Seq<char>, data: Seq<u8>, n: StoreView) -> bool {
    &&& n.dom() == v.dom().insert(ns)
    &&& forall|other: Seq<char>| other != ns && #[trigger] v.contains_key(other) ==> n[other] == v[other]
    &&& n[ns].dom() == (if v.contains_key(ns) { v[ns].dom() } else { Set::empty() }).insert(key)
    &&& forall|k: Seq<char>| k != key && v.contains_key(ns) && #[trigger] v[ns].contains_key(k) ==> n[ns][k] == v[ns][k]
    &&& n[ns][key].data == data
    &&& stored_data(v, ns, key) is Some ==> {
        let o = v[ns][key];
        let e = n[ns][key];
        &&& e.version == o.version + 1
        &&& e.created_at == o.created_at
        &&& e.namespace == o.namespace
        &&& e.key == o.key
    }
    &&& stored_data(v, ns, key) is None ==> {
        let e = n[ns][key];
        &&& e.version == 1
        &&& e.namespace == ns
        &&& e.key == key
        &&& e.created_at == e.updated_at
    }
}

/// The store after removing the entry under `ns` and `key` (the namespace itself stays).
pub open spec fn after_delete(v: StoreView, ns: Seq<char>, key: Seq<char>) -> StoreView {
    if v.contains_key(ns) { v.insert(ns, v[ns].remove(key)) } else { v }
}

/// Total number of entries over a sequence of namespace maps.
pub open spec fn total_entries(nss: Seq<StrMap<ScriptState>>) -> nat
    decreases nss.len(),
{
    if nss.len() == 0 {
        0
    } else {
        total_entries(nss.drop_last()) + nss.last()@.len()
    }
}

/// A copy of a namespace map with the same view and key order.
fn copy_namespace(m: &StrMap<ScriptState>) -> (r: StrMap<ScriptState>)
    requires
        m.wf(),
    ensures
        r.wf(),
        ns_view(r) == ns_view(*m),
        r.key_seq() == m.key_seq(),
{
    let r = m.clone_entries();
    proof {
        m.lemma_dom();
        r.lemma_dom();
        assert forall|k: Seq<char>| #[trigger] r@.contains_key(k) implies r@[k]@ == m@[k]@ by {
            let i = choose|i: int| 0 <= i < r.key_seq().len() && r.key_seq()[i] == k;
            assert(cloned(m.value_seq()[i], r.value_seq()[i]));
            assert(r@[r.key_seq()[i]] == r.value_seq()[i]);
            assert(m@[m.key_seq()[i]] == m.value_seq()[i]);
        }
        assert(r@.dom() =~= m@.dom());
        assert(ns_view(r) =~= ns_view(*m));
    }
    r
}

/// A copy of a whole store with the same nested view.
fn copy_store(m: &StrMap<StrMap<ScriptState>>) -> (r: StrMap<StrMap<ScriptState>>)
    requires
        store_wf(*m),
    ensures
        store_wf(r),
        store_view(r) == store_view(*m),
{
    let n = m.len();
    let mut r: StrMap<StrMap<ScriptState>> = StrMap::new();
    let mut i: usize = 0;
    proof { m.lemma_dom(); }
    while i < n
        invariant
            store_wf(*m),
            n == m.key_seq().len(),
            i <= n,
            store_wf(r),
            r.key_seq() == m.key_seq().subrange(0, i as int),
            forall|k: Seq<char>| #[trigger] r@.contains_key(k) ==> m@.contains_key(k) && ns_view(r@[k]) == ns_view(m@[k]),
        decreases n - i,
    {
        let e = m.entry_at(i);
        let copy = copy_namespace(&e.1);
        let ghost before = r;
        proof {
            m.lemma_dom();
            assert(!before.key_seq().contains(e.0@)) by {
                if before.key_seq().contains(e.0@) {
                    let j = choose|j: int| 0 <= j < before.key_seq().len() && before.key_seq()[j] == e.0@;
                    assert(m.key_seq()[j] == m.key_seq()[i as int]);
                }
            }
            before.lemma_dom();
        }
        r.insert(e.0.clone(), copy);
        i = i + 1;
        proof {
            assert(r.key_seq() =~= m.key_seq().subrange(0, i as int));
        }
    }
    proof {
        assert(m.key_seq().subrange(0, n as int) =~= m.key_seq());
        r.lemma_dom();
        m.lemma_dom();
        assert(r@.dom() =~= m@.dom());
        assert(store_view(r) =~= store_view(*m));
    }
    r
}

impl InMemoryStore {
    /// What the store holds.
    pub closed spec fn view(&self) -> StoreView {
        store_view(self.data)
    }

    /// The snapshots, by checkpoint name.
    pub closed spec fn checkpoint_view(&self) -> Map<Seq<char>, StoreView> {
        Map::new(|c: Seq<char>| self.checkpoints@.contains_key(c), |c: Seq<char>| store_view(self.checkpoints@[c]))
    }

    /// Checkpoint names in the order they were first taken.
    pub closed spec fn checkpoint_names(&self) -> Seq<Seq<char>> {
        self.checkpoints.key_seq()
    }

    /// Keys of a namespace in the order they were first saved (empty for an unknown namespace).
    pub closed spec fn key_order(&self, namespace: Seq<char>) -> Seq<Seq<char>> {
        if self.data@.contains_key(namespace) { self.data@[namespace].key_seq() } else { Seq::empty() }
    }

    /// Total number of stored entries.
    pub closed spec fn entry_total(&self) -> nat {
        total_entries(self.data.value_seq())
    }

    /// All maps are well formed.
    pub closed spec fn wf(&self) -> bool {
        &&& store_wf(self.data)
        &&& self.checkpoints.wf()
        &&& forall|c: Seq<char>| #[trigger] self.checkpoints@.contains_key(c) ==> store_wf(self.checkpoints@[c])
    }

    /// An empty store with no checkpoints.
    pub fn new() -> (r: Self)
        ensures
            r.wf(),
            r@ == StoreView::empty(),
            r.checkpoint_view() == Map::<Seq<char>, StoreView>::empty(),
    {
        let r = InMemoryStore { data: StrMap::new(), checkpoints: StrMap::new() };
        assert(r@ =~= StoreView::empty());
        assert(r.checkpoint_view() =~= Map::<Seq<char>, StoreView>::empty());
        r
    }

    /// Number of stored entries over all namespaces.
    pub fn entry_count(&self) -> (r: usize)
        requires
            self.wf(),
            self.entry_total() <= usize::MAX,
        ensures
            r == self.entry_total(),
    {
        let n = self.data.len();
        let mut total: usize = 0;
        let mut i: usize = 0;
        proof { self.data.lemma_dom(); }
        while i < n
            invariant
                self.wf(),
                n == self.data.key_seq().len(),
                n == self.data.value_seq().len(),
                i <= n,
                total == total_entries(self.data.value_seq().subrange(0, i as int)),
                total_entries(self.data.value_seq()) <= usize::MAX,
            decreases n - i,
        {
            let e = self.data.entry_at(i);
            proof {
                assert(self.data.value_seq().subrange(0, i + 1).drop_last() =~= self.data.value_seq().subrange(0, i as int));
                lemma_total_prefix(self.data.value_seq(), i as int + 1);
                assert(self.data@.contains_key(e.0@));
            }
            let c = e.1.len();
            total = total + c;
            i = i + 1;
        }
        assert(self.data.value_seq().subrange(0, n as int) =~= self.data.value_seq());
        total
    }

    /// Number of namespaces.
    pub fn namespace_count(&self) -> (r: usize)
        requires
            self.wf(),
        ensures
            r == self@.len(),
    {
        proof { assert(self@.dom() =~= self.data@.dom()); }
        self.data.len()
    }
}

proof fn lemma_total_prefix(s: Seq<StrMap<ScriptState>>, i: int)
    requires
        0 <= i <= s.len(),
    ensures
        total_entries(s.subrange(0, i)) <= total_entries(s),
    decreases s.len() - i,
{
    if i < s.len() {
        lemma_total_prefix(s, i + 1);
        assert(s.subrange(0, i + 1).drop_last() =~= s.subrange(0, i));
    } else {
        assert(s.subrange(0, i) =~= s);
    }
}

impl Default for InMemoryStore {
    fn default() -> (r: Self)
        ensures
            r.wf(),
            r@ == StoreView::empty(),
    {
        InMemoryStore::new()
    }
}

impl ScriptStateStore for InMemoryStore {
    open spec fn inv(&self) -> bool {
        self.wf()
    }

    open spec fn can_save(&self, namespace: Seq<char>, key: Seq<char>) -> bool {
        self@.contains_key(namespace) && self@[namespace].contains_key(key) ==> self@[namespace][key].version < u64::MAX
    }

    open spec fn stored(&self, namespace: Seq<char>, key: Seq<char>) -> Option<Seq<u8>> {
        stored_data(self@, namespace, key)
    }

    /// Saves `data` under `namespace` and `key`: an existing entry is updated (its version
    /// bumped, its creation time kept), otherwise a new entry is made. Never fails.
    fn save(&mut self, namespace: &str, key: &str, data: &[u8]) -> (r: Result<(), PersistenceError>)
        ensures
            r is Ok,
            after_save(old(self)@, namespace@, key@, data@, final(self)@),
            final(self).checkpoint_view() == old(self).checkpoint_view(),
            final(self).checkpoint_names() == old(self).checkpoint_names(),
    {
        let bytes = slice_to_vec(data);
        let mut ns_map = match self.data.remove(namespace) {
            Some(m) => m,
            None => StrMap::new(),
        };
        let ghost old_ns = ns_map;
        let new_state = match ns_map.remove(key) {
            Some(mut st) => {
                st.update(bytes);
                st
            },
            None => ScriptState::new(namespace, key, bytes),
        };
        ns_map.insert(owned(key), new_state);
        self.data.insert(owned(namespace), ns_map);
        proof {
            assert forall|ns: Seq<char>| ns != namespace@ && #[trigger] old(self)@.contains_key(ns) implies final(self)@[ns] == old(self)@[ns] by {}
            assert(final(self)@[namespace@].dom() =~= (if old(self)@.contains_key(namespace@) { old(self)@[namespace@].dom() } else { Set::empty() }).insert(key@));
            assert(self@.dom() =~= old(self)@.dom().insert(namespace@));
            assert(self.checkpoint_view() =~= old(self).checkpoint_view());
        }
        Ok(())
    }

    /// The data stored under `namespace` and `key`. Never fails.
    fn load(&self, namespace: &str, key: &str) -> (r: Result<Option<Vec<u8>>, PersistenceError>)
        ensures
            r matches Ok(v) && match stored_data(self@, namespace@, key@) {
                Some(d) => v matches Some(b) && b@ == d,
                None => v is None,
            },
    {
        match self.data.get(namespace) {
            Some(ns) => match ns.get(key) {
                Some(st) => Ok(Some(st.data.clone())),
                None => Ok(None),
            },
            None => Ok(None),
        }
    }

    /// Removes the entry under `namespace` and `key`; true when there was one. The namespace
    /// itself stays. Never fails.
    fn delete(&mut self, namespace: &str, key: &str) -> (r: Result<bool, PersistenceError>)
        ensures
            r matches Ok(b) && b == (stored_data(old(self)@, namespace@, key@) is Some),
            final(self)@ == after_delete(old(self)@, namespace@, key@),
            final(self).checkpoint_view() == old(self).checkpoint_view(),
    {
        match self.data.remove(namespace) {
            Some(mut ns) => {
                let ghost old_ns = ns;
                let removed = ns.remove(key);
                let b = removed.is_some();
                assert(ns_view(ns) =~= ns_view(old_ns).remove(key@));
                self.data.insert(owned(namespace), ns);
                proof {
                    assert(self@ =~= old(self)@.insert(namespace@, old(self)@[namespace@].remove(key@)));
                    assert(self.checkpoint_view() =~= old(self).checkpoint_view());
                }
                Ok(b)
            },
            None => Ok(false),
        }
    }

    /// The keys of a namespace in the order they were first saved; empty for an unknown
    /// namespace. Never fails.
    fn list_keys(&self, namespace: &str) -> (r: Result<Vec<String>, PersistenceError>)
        ensures
            r matches Ok(ks) && ks@.map_values(|s: String| s@) == self.key_order(namespace@),
            r matches Ok(ks) && ks@.map_values(|s: String| s@).to_set() == (if self@.contains_key(namespace@) { self@[namespace@].dom() } else { Set::empty() }),
    {
        match self.data.get(namespace) {
            Some(ns) => {
                let ks = ns.keys();
                proof {
                    ns.lemma_dom();
                }
                Ok(ks)
            },
            None => {
                let ks: Vec<String> = Vec::new();
                assert(ks@.map_values(|s: String| s@).to_set() =~= Set::empty());
                Ok(ks)
            },
        }
    }

    /// Removes a whole namespace, returning how many entries it held. Never fails.
    fn clear_namespace(&mut self, namespace: &str) -> (r: Result<usize, PersistenceError>)
        ensures
            r matches Ok(n) && n == (if old(self)@.contains_key(namespace@) { old(self)@[namespace@].len() } else { 0 }),
            final(self)@ == old(self)@.remove(namespace@),
            final(self).checkpoint_view() == old(self).checkpoint_view(),
    {
        let r = match self.data.remove(namespace) {
            Some(ns) => {
                assert(ns_view(ns).dom() =~= ns@.dom());
                ns.len()
            },
            None => 0,
        };
        proof {
            assert(self@ =~= old(self)@.remove(namespace@));
            assert(self.checkpoint_view() =~= old(self).checkpoint_view());
        }
        Ok(r)
    }

    /// The full entry under `namespace` and `key`. Never fails.
    fn get_metadata(&self, namespace: &str, key: &str) -> (r: Result<Option<ScriptState>, PersistenceError>)
        ensures
            r matches Ok(v) && (if self@.contains_key(namespace@) && self@[namespace@].contains_key(key@) {
                v matches Some(st) && st@ == self@[namespace@][key@]
            } else {
                v is None
            }),
    {
        match self.data.get(namespace) {
            Some(ns) => match ns.get(key) {
                Some(st) => Ok(Some(st.clone())),
                None => Ok(None),
            },
            None => Ok(None),
        }
    }

    /// Snapshots everything under `name`, replacing an older snapshot of that name. Never fails.
    fn checkpoint(&mut self, name: &str) -> (r: Result<(), PersistenceError>)
        ensures
            r is Ok,
            final(self)@ == old(self)@,
            final(self).checkpoint_view() == old(self).checkpoint_view().insert(name@, old(self)@),
    {
        let snapshot = copy_store(&self.data);
        self.checkpoints.insert(owned(name), snapshot);
        proof {
            assert(self.checkpoint_view() =~= old(self).checkpoint_view().insert(name@, old(self)@));
        }
        Ok(())
    }

    /// Replaces everything with the snapshot called `name`; false, changing nothing, when
    /// there is none. Never fails.
    fn restore_checkpoint(&mut self, name: &str) -> (r: Result<bool, PersistenceError>)
        ensures
            r matches Ok(b) && b == old(self).checkpoint_view().contains_key(name@),
            old(self).checkpoint_view().contains_key(name@) ==> final(self)@ == old(self).checkpoint_view()[name@],
            !old(self).checkpoint_view().contains_key(name@) ==> final(self)@ == old(self)@,
            final(self).checkpoint_view() == old(self).checkpoint_view(),
    {
        match self.checkpoints.get(name) {
            Some(snapshot) => {
                let copy = copy_store(snapshot);
                self.data = copy;
                Ok(true)
            },
            None => Ok(false),
        }
    }

    /// Names of all snapshots, in the order first taken. Never fails.
    fn list_checkpoints(&self) -> (r: Result<Vec<String>, PersistenceError>)
        ensures
            r matches Ok(ns) && ns@.map_values(|s: String| s@) == self.checkpoint_names(),
            r matches Ok(ns) && ns@.map_values(|s: String| s@).to_set() == self.checkpoint_view().dom(),
    {
        let ks = self.checkpoints.keys();
        proof {
            self.checkpoints.lemma_dom();
            assert(self.checkpoint_view().dom() =~= self.checkpoints@.dom());
        }
        Ok(ks)
    }

    /// Removes the snapshot called `name`; true when there was one. Never fails.
    fn delete_checkpoint(&mut self, name: &str) -> (r: Result<bool, PersistenceError>)
        ensures
            r matches Ok(b) && b == old(self).checkpoint_view().contains_key(name@),
            final(self)@ == old(self)@,
            final(self).checkpoint_view() == old(self).checkpoint_view().remove(name@),
    {
        let removed = self.checkpoints.remove(name);
        proof {
            assert(self.checkpoint_view() =~= old(self).checkpoint_view().remove(name@));
        }
        Ok(removed.is_some())
    }
}

/// Whether a character cannot appear in a file name and is replaced.
pub open spec fn is_unsafe_filename_char(c: char) -> bool {
    c == '/' || c == '\\' || c == ':' || c == '*' || c == '?' || c == '"' || c == '<' || c == '>' || c == '|'
}

/// `name` with every character that cannot appear in a file name replaced by `_`.
pub open spec fn sanitized(name: Seq<char>) -> Seq<char> {
    name.map_values(|c: char| if is_unsafe_filename_char(c) { '_' } else { c })
}

/// Sanitize a string for use as a file name.
pub fn sanitize_filename(name: &str) -> (r: String)
    ensures
        r@ == sanitized(name@),
{
    let cs = chars_of(name);
    let mut out: Vec<char> = Vec::new();
    let mut i: usize = 0;
    while i < cs.len()
        invariant
            cs@ == name@,
            i <= cs@.len(),
            out@ == sanitized(name@.subrange(0, i as int)),
        decreases cs@.len() - i,
    {
        let c = cs[i];
        let mapped = if c == '/' || c == '\\' || c == ':' || c == '*' || c == '?' || c == '"' || c == '<'
            || c == '>' || c == '|' {
            '_'
        } else {
            c
        };
        out.push(mapped);
        i = i + 1;
        assert(out@ =~= sanitized(name@.subrange(0, i as int)));
    }
    assert(name@.subrange(0, i as int) =~= name@);
    string_from_chars(&out)
}

/// Reading back a write: right after saving `data` under a namespace and key, loading them
/// gives `data`.
pub proof fn law_load_after_save(v: StoreView, ns: Seq<char>, key: Seq<char>, data: Seq<u8>, n: StoreView)
    requires
        after_save(v, ns, key, data, n),
    ensures
        stored_data(n, ns, key) == Some(data),
{
    assert(n.contains_key(ns));
    assert(n[ns].contains_key(key));
}

/// A save touches nothing else: every other namespace and key loads as before.
pub proof fn law_save_keeps_others(v: StoreView, ns: Seq<char>, key: Seq<char>, data: Seq<u8>, n: StoreView,
    ns2: Seq<char>, key2: Seq<char>)
    requires
        after_save(v, ns, key, data, n),
        ns2 != ns || key2 != key,
    ensures
        stored_data(n, ns2, key2) == stored_data(v, ns2, key2),
{
    if ns2 != ns {
        if v.contains_key(ns2) {
            assert(n[ns2] == v[ns2]);
        }
    } else {
        if v.contains_key(ns) && v[ns].contains_key(key2) {
            assert(n[ns][key2] == v[ns][key2]);
        }
    }
}

/// Deleting a key makes it unreadable, and every other key loads as before.
pub proof fn law_delete_then_load(v: StoreView, ns: Seq<char>, key: Seq<char>, ns2: Seq<char>, key2: Seq<char>)
    ensures
        stored_data(after_delete(v, ns, key), ns, key) is None,
        (ns2 != ns || key2 != key) ==> stored_data(after_delete(v, ns, key), ns2, key2) == stored_data(v, ns2, key2),
{
}

/// Restoring a checkpoint brings back the state it captured: after `checkpoint(name)` on a
/// store holding `v`, the snapshot called `name` is `v`, and restoring it (before any other
/// checkpoint of that name) makes the store hold `v` again.
pub proof fn law_restore_after_checkpoint(v: StoreView, snapshots: Map<Seq<char>, StoreView>, name: Seq<char>)
    ensures
        snapshots.insert(name, v).contains_key(name),
        snapshots.insert(name, v)[name] == v,
{
}

} // verus!
