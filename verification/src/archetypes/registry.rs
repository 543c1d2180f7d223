//! The archetype registry: ship and weapon archetypes by identifier, and the outcome of
//! loading archetype catalogues. A ship is kept with the two flags it is selected by (a player
//! class, a hostile NPC); the archetypes themselves are of types `S` and `W` the registry only
//! holds.

use vstd::prelude::*;
use crate::maps::StrMap;

verus! {

/// Error type for archetype operations.
#[derive(Debug, Clone)]
pub enum ArchetypeError {
    /// Script file not found
    FileNotFound(String),
    /// Script compilation failed
    CompilationError(String),
    /// Script execution failed
    ExecutionError(String),
    /// Invalid archetype data
    InvalidArchetype(String),
    /// Archetype not found
    NotFound(String),
}

/// Result of loading archetypes.
#[derive(Debug, Default)]
pub struct LoadResult {
    pub ships_loaded: usize,
    pub weapons_loaded: usize,
    pub errors: Vec<String>,
}

impl LoadResult {
    /// Whether any error occurred.
    pub fn has_errors(&self) -> (r: bool)
        ensures
            r == (self.errors@.len() > 0),
    {
        !self.errors.is_empty()
    }

    /// Total archetypes loaded.
    pub fn total_loaded(&self) -> (r: usize)
        requires
            self.ships_loaded + self.weapons_loaded <= usize::MAX,
        ensures
            r == self.ships_loaded + self.weapons_loaded,
    {
        self.ships_loaded + self.weapons_loaded
    }
}

/// A ship archetype as the registry keeps it.
pub struct ShipEntry<S> {
    /// Whether players can fly this class.
    pub is_player_class: bool,
    /// Whether NPCs of this class are hostile.
    pub is_hostile: bool,
    /// The archetype.
    pub archetype: S,
}

/// The identifiers among `keys`, in order, whose ship has the flag `hostile` picks (hostile
/// when `hostile`, else a player class) set.
pub open spec fn flagged_ids<S>(keys: Seq<Seq<char>>, m: Map<Seq<char>, ShipEntry<S>>, hostile: bool) -> Seq<Seq<char>>
    decreases keys.len(),
{
    if keys.len() == 0 {
        Seq::empty()
    } else {
        let rest = flagged_ids(keys.drop_last(), m, hostile);
        let e = m[keys.last()];
        if (if hostile { e.is_hostile } else { e.is_player_class }) { rest.push(keys.last()) } else { rest }
    }
}

/// Ship and weapon archetypes by identifier.
pub struct ArchetypeRegistry<S, W> {
    ships: StrMap<ShipEntry<S>>,
    weapons: StrMap<W>,
}

impl<S, W> ArchetypeRegistry<S, W> {
    /// The ships by identifier.
    pub closed spec fn ships_view(&self) -> Map<Seq<char>, ShipEntry<S>> {
        self.ships@
    }

    /// The ship identifiers in registration order.
    pub closed spec fn ship_order(&self) -> Seq<Seq<char>> {
        self.ships.key_seq()
    }

    /// The weapons by identifier.
    pub closed spec fn weapons_view(&self) -> Map<Seq<char>, W> {
        self.weapons@
    }

    /// The weapon identifiers in registration order.
    pub closed spec fn weapon_order(&self) -> Seq<Seq<char>> {
        self.weapons.key_seq()
    }

    /// Each identifier is kept once.
    pub closed spec fn wf(&self) -> bool {
        self.ships.wf() && self.weapons.wf()
    }

    /// The registration orders list exactly the registered identifiers, once each.
    pub proof fn lemma_orders(&self)
        requires
            self.wf(),
        ensures
            self.ship_order().no_duplicates(),
            self.ships_view().dom() == self.ship_order().to_set(),
            self.ships_view().dom().len() == self.ship_order().len(),
            self.weapon_order().no_duplicates(),
            self.weapons_view().dom() == self.weapon_order().to_set(),
            self.weapons_view().dom().len() == self.weapon_order().len(),
    {
        self.ships.lemma_dom();
        self.weapons.lemma_dom();
    }

    /// An empty registry.
    pub fn new() -> (r: Self)
        ensures
            r.wf(),
            r.ships_view() == Map::<Seq<char>, ShipEntry<S>>::empty(),
            r.weapons_view() == Map::<Seq<char>, W>::empty(),
            r.ship_order().len() == 0,
            r.weapon_order().len() == 0,
    {
        ArchetypeRegistry { ships: StrMap::new(), weapons: StrMap::new() }
    }

    /// The ship archetype registered under `id`.
    pub fn get_ship(&self, id: &str) -> (r: Option<&S>)
        requires
            self.wf(),
        ensures
            r is Some <==> self.ships_view().contains_key(id@),
            r matches Some(a) ==> *a == self.ships_view()[id@].archetype,
    {
        match self.ships.get(id) {
            Some(e) => Some(&e.archetype),
            None => None,
        }
    }

    /// Every ship archetype, in registration order.
    pub fn all_ships(&self) -> (r: Vec<&S>)
        requires
            self.wf(),
        ensures
            r@.len() == self.ship_order().len(),
            forall|i: int| 0 <= i < r@.len() ==> *#[trigger] r@[i] == self.ships_view()[self.ship_order()[i]].archetype,
    {
        proof { self.ships.lemma_dom(); }
        let n = self.ships.len();
        let mut r: Vec<&S> = Vec::new();
        let mut i: usize = 0;
        while i < n
            invariant
                self.wf(),
                n == self.ship_order().len(),
                i <= n,
                r@.len() == i,
                forall|j: int| 0 <= j < i ==> *#[trigger] r@[j] == self.ships_view()[self.ship_order()[j]].archetype,
            decreases n - i,
        {
            let e = self.ships.entry_at(i);
            r.push(&e.1.archetype);
            i = i + 1;
        }
        r
    }

    /// The ship archetypes with the flag `hostile` picks set, in registration order.
    fn flagged_ships(&self, hostile: bool) -> (r: Vec<&S>)
        requires
            self.wf(),
        ensures
            r@.len() == flagged_ids(self.ship_order(), self.ships_view(), hostile).len(),
            forall|i: int| 0 <= i < r@.len() ==> *#[trigger] r@[i]
                == self.ships_view()[flagged_ids(self.ship_order(), self.ships_view(), hostile)[i]].archetype,
    {
        proof { self.ships.lemma_dom(); }
        let ghost keys = self.ship_order();
        let ghost m = self.ships_view();
        let n = self.ships.len();
        let mut r: Vec<&S> = Vec::new();
        let mut i: usize = 0;
        while i < n
            invariant
                self.wf(),
                keys == self.ship_order(),
                m == self.ships_view(),
                n == keys.len(),
                i <= n,
                r@.len() == flagged_ids(keys.take(i as int), m, hostile).len(),
                forall|j: int| 0 <= j < r@.len() ==> *#[trigger] r@[j] == m[flagged_ids(keys.take(i as int), m, hostile)[j]].archetype,
            decreases n - i,
        {
            let e = self.ships.entry_at(i);
            proof {
                assert(keys.take(i as int + 1).drop_last() =~= keys.take(i as int));
                assert(keys.take(i as int + 1).last() == keys[i as int]);
            }
            let picked = if hostile { e.1.is_hostile } else { e.1.is_player_class };
            if picked {
                r.push(&e.1.archetype);
            }
            i = i + 1;
        }
        proof { assert(keys.take(n as int) =~= keys); }
        r
    }

    /// The ship archetypes players can fly, in registration order.
    pub fn player_ships(&self) -> (r: Vec<&S>)
        requires
            self.wf(),
        ensures
            r@.len() == flagged_ids(self.ship_order(), self.ships_view(), false).len(),
            forall|i: int| 0 <= i < r@.len() ==> *#[trigger] r@[i]
                == self.ships_view()[flagged_ids(self.ship_order(), self.ships_view(), false)[i]].archetype,
    {
        self.flagged_ships(false)
    }

    /// The hostile NPC ship archetypes, in registration order.
    pub fn hostile_ships(&self) -> (r: Vec<&S>)
        requires
            self.wf(),
        ensures
            r@.len() == flagged_ids(self.ship_order(), self.ships_view(), true).len(),
            forall|i: int| 0 <= i < r@.len() ==> *#[trigger] r@[i]
                == self.ships_view()[flagged_ids(self.ship_order(), self.ships_view(), true)[i]].archetype,
    {
        self.flagged_ships(true)
    }

    /// Whether a ship archetype is registered under `id`.
    pub fn has_ship(&self, id: &str) -> (r: bool)
        requires
            self.wf(),
        ensures
            r == self.ships_view().contains_key(id@),
    {
        self.ships.contains_key(id)
    }

    /// Number of ship archetypes.
    pub fn ship_count(&self) -> (r: usize)
        requires
            self.wf(),
        ensures
            r == self.ships_view().len(),
    {
        self.ships.len()
    }

    /// The weapon archetype registered under `id`.
    pub fn get_weapon(&self, id: &str) -> (r: Option<&W>)
        requires
            self.wf(),
        ensures
            r is Some <==> self.weapons_view().contains_key(id@),
            r matches Some(a) ==> *a == self.weapons_view()[id@],
    {
        self.weapons.get(id)
    }

    /// Every weapon archetype, in registration order.
    pub fn all_weapons(&self) -> (r: Vec<&W>)
        requires
            self.wf(),
        ensures
            r@.len() == self.weapon_order().len(),
            forall|i: int| 0 <= i < r@.len() ==> *#[trigger] r@[i] == self.weapons_view()[self.weapon_order()[i]],
    {
        proof { self.weapons.lemma_dom(); }
        let n = self.weapons.len();
        let mut r: Vec<&W> = Vec::new();
        let mut i: usize = 0;
        while i < n
            invariant
                self.wf(),
                n == self.weapon_order().len(),
                i <= n,
                r@.len() == i,
                forall|j: int| 0 <= j < i ==> *#[trigger] r@[j] == self.weapons_view()[self.weapon_order()[j]],
            decreases n - i,
        {
            let e = self.weapons.entry_at(i);
            r.push(&e.1);
            i = i + 1;
        }
        r
    }

    /// Whether a weapon archetype is registered under `id`.
    pub fn has_weapon(&self, id: &str) -> (r: bool)
        requires
            self.wf(),
        ensures
            r == self.weapons_view().contains_key(id@),
    {
        self.weapons.contains_key(id)
    }

    /// Number of weapon archetypes.
    pub fn weapon_count(&self) -> (r: usize)
        requires
            self.wf(),
        ensures
            r == self.weapons_view().len(),
    {
        self.weapons.len()
    }

    /// Remove every archetype.
    pub fn clear(&mut self)
        ensures
            final(self).wf(),
            final(self).ships_view() == Map::<Seq<char>, ShipEntry<S>>::empty(),
            final(self).weapons_view() == Map::<Seq<char>, W>::empty(),
            final(self).ship_order().len() == 0,
            final(self).weapon_order().len() == 0,
    {
        self.ships.clear();
        self.weapons.clear();
    }

    /// Register a ship archetype under its identifier, replacing one registered there.
    pub fn register_ship(&mut self, id: String, is_player_class: bool, is_hostile: bool, archetype: S)
        requires
            old(self).wf(),
        ensures
            final(self).wf(),
            final(self).ships_view() == old(self).ships_view().insert(id@, ShipEntry { is_player_class, is_hostile, archetype }),
            final(self).weapons_view() == old(self).weapons_view(),
            final(self).weapon_order() == old(self).weapon_order(),
    {
        self.ships.insert(id, ShipEntry { is_player_class, is_hostile, archetype });
    }

    /// Register a weapon archetype under its identifier, replacing one registered there.
    pub fn register_weapon(&mut self, id: String, archetype: W)
        requires
            old(self).wf(),
        ensures
            final(self).wf(),
            final(self).weapons_view() == old(self).weapons_view().insert(id@, archetype),
            final(self).ships_view() == old(self).ships_view(),
            final(self).ship_order() == old(self).ship_order(),
    {
        self.weapons.insert(id, archetype);
    }
}

/// What a lookup finds after a registration: the archetype just registered.
pub proof fn law_registered_ship_found<S>(before: Map<Seq<char>, ShipEntry<S>>, id: Seq<char>, e: ShipEntry<S>)
    ensures
        before.insert(id, e).contains_key(id),
        before.insert(id, e)[id] == e,
{
}

} // verus!
