//! What scripts may do to the game state: access permissions, access errors, and the
//! player changes that scripts queue.

use vstd::prelude::*;

verus! {

/// Kinds of entity a script can be attached to or act on.
#[derive(Debug, Clone, Copy, PartialEq, Eq)]
pub enum EntityType {
    /// A ship
    Ship,
    /// A station
    Station,
}

impl EntityType {
    /// The entity type's name as scripts see it.
    pub fn as_str(&self) -> (r: &'static str)
        ensures
            *self == EntityType::Ship ==> r@ == "ship"@,
            *self == EntityType::Station ==> r@ == "station"@,
    {
        match self {
            EntityType::Ship => "ship",
            EntityType::Station => "station",
        }
    }
}

/// Error type for state access operations.
#[derive(Debug, Clone, PartialEq, Eq)]
pub enum AccessError {
    /// Operation not permitted
    PermissionDenied(String),
    /// Entity not found
    NotFound(String),
    /// Invalid operation
    InvalidOperation(String),
}

/// Access permissions for scripts.
#[derive(Debug, Clone)]
pub struct AccessPermissions {
    /// Can read ship data
    pub can_read_ships: bool,
    /// Can modify ship data
    pub can_write_ships: bool,
    /// Can read player data
    pub can_read_players: bool,
    /// Can modify player data
    pub can_write_players: bool,
    /// Can spawn new entities
    pub can_spawn_entities: bool,
    /// Can destroy entities
    pub can_destroy_entities: bool,
    /// Can emit events
    pub can_emit_events: bool,
    /// Restrict access to specific sectors (None = all sectors)
    pub allowed_sectors: Option<Vec<u128>>,
    /// The entity this script is attached to (for behavior scripts)
    pub owner_entity_id: Option<u128>,
}

/// The permissions of an untrusted script: it may read ships and players, nothing more.
pub open spec fn read_only_permissions(p: AccessPermissions) -> bool {
    &&& p.can_read_ships
    &&& !p.can_write_ships
    &&& p.can_read_players
    &&& !p.can_write_players
    &&& !p.can_spawn_entities
    &&& !p.can_destroy_entities
    &&& !p.can_emit_events
    &&& p.allowed_sectors is None
    &&& p.owner_entity_id is None
}

/// The permissions of a trusted script: everything but writing players, in every sector.
pub open spec fn trusted_permissions(p: AccessPermissions) -> bool {
    &&& p.can_read_ships
    &&& p.can_write_ships
    &&& p.can_read_players
    &&& !p.can_write_players
    &&& p.can_spawn_entities
    &&& p.can_destroy_entities
    &&& p.can_emit_events
    &&& p.allowed_sectors is None
    &&& p.owner_entity_id is None
}

/// The permissions of an NPC behavior script for `entity_id` in `sector_id`: read ships and
/// players, write ships and emit events, only in that sector.
pub open spec fn npc_permissions(p: AccessPermissions, entity_id: u128, sector_id: u128) -> bool {
    &&& p.can_read_ships
    &&& p.can_write_ships
    &&& p.can_read_players
    &&& !p.can_write_players
    &&& !p.can_spawn_entities
    &&& !p.can_destroy_entities
    &&& p.can_emit_events
    &&& p.allowed_sectors matches Some(s) && s@ == seq![sector_id]
    &&& p.owner_entity_id == Some(entity_id)
}

impl Default for AccessPermissions {
    /// Read-only permissions.
    fn default() -> (r: Self)
        ensures
            read_only_permissions(r),
    {
        AccessPermissions::read_only()
    }
}

impl AccessPermissions {
    /// Full permissions for trusted scripts (e.g., built-in AI behaviors).
    pub fn trusted() -> (r: Self)
        ensures
            trusted_permissions(r),
    {
        AccessPermissions {
            can_read_ships: true,
            can_write_ships: true,
            can_read_players: true,
            can_write_players: false,
            can_spawn_entities: true,
            can_destroy_entities: true,
            can_emit_events: true,
            allowed_sectors: None,
            owner_entity_id: None,
        }
    }

    /// Permissions for NPC behavior scripts.
    pub fn npc_behavior(entity_id: u128, sector_id: u128) -> (r: Self)
        ensures
            npc_permissions(r, entity_id, sector_id),
    {
        let mut sectors: Vec<u128> = Vec::new();
        sectors.push(sector_id);
        AccessPermissions {
            can_read_ships: true,
            can_write_ships: true,
            can_read_players: true,
            can_write_players: false,
            can_spawn_entities: false,
            can_destroy_entities: false,
            can_emit_events: true,
            allowed_sectors: Some(sectors),
            owner_entity_id: Some(entity_id),
        }
    }

    /// Read-only permissions for queries.
    pub fn read_only() -> (r: Self)
        ensures
            read_only_permissions(r),
    {
        AccessPermissions {
            can_read_ships: true,
            can_write_ships: false,
            can_read_players: true,
            can_write_players: false,
            can_spawn_entities: false,
            can_destroy_entities: false,
            can_emit_events: false,
            allowed_sectors: None,
            owner_entity_id: None,
        }
    }

    /// Whether the sector may be accessed: every sector when no list is set, else the listed ones.
    pub fn can_access_sector(&self, sector_id: u128) -> (r: bool)
        ensures
            r == match self.allowed_sectors {
                Some(s) => s@.contains(sector_id),
                None => true,
            },
    {
        match &self.allowed_sectors {
            Some(sectors) => {
                let mut i: usize = 0;
                while i < sectors.len()
                    invariant
                        self.allowed_sectors == Some(*sectors),
                        i <= sectors@.len(),
                        forall|j: int| 0 <= j < i ==> sectors@[j] != sector_id,
                    decreases sectors@.len() - i,
                {
                    if sectors[i] == sector_id {
                        assert(sectors@[i as int] == sector_id);
                        return true;
                    }
                    i = i + 1;
                }
                false
            },
            None => true,
        }
    }
}

/// Changes to a player that a script queues. Absolute values replace; deltas add up.
#[derive(Debug, Clone, Copy, PartialEq, Eq)]
pub struct PlayerChanges {
    pub reputation: Option<i32>,
    pub fame: Option<i32>,
    pub reputation_delta: Option<i32>,
    pub fame_delta: Option<i32>,
    pub credits: Option<i64>,
    pub credits_delta: Option<i64>,
}

/// An absolute field after a merge: the later value when there is one.
pub open spec fn later<T>(mine: Option<T>, other: Option<T>) -> Option<T> {
    match other {
        Some(v) => Some(v),
        None => mine,
    }
}

/// A delta after a merge: the sum, taking a missing delta as 0, when the other has one.
pub open spec fn summed(mine: Option<int>, other: Option<int>) -> Option<int> {
    match other {
        Some(d) => Some(match mine { Some(m) => m + d, None => d }),
        None => mine,
    }
}

/// An optional machine integer as an optional mathematical one.
pub open spec fn as_int_i32(o: Option<i32>) -> Option<int> {
    match o { Some(v) => Some(v as int), None => None }
}

/// An optional machine integer as an optional mathematical one.
pub open spec fn as_int_i64(o: Option<i64>) -> Option<int> {
    match o { Some(v) => Some(v as int), None => None }
}

/// Whether merging `other` into `mine` keeps every summed delta in range.
pub open spec fn merge_fits(mine: PlayerChanges, other: PlayerChanges) -> bool {
    &&& (summed(as_int_i32(mine.reputation_delta), as_int_i32(other.reputation_delta)) matches Some(v)
        ==> i32::MIN <= v <= i32::MAX)
    &&& (summed(as_int_i32(mine.fame_delta), as_int_i32(other.fame_delta)) matches Some(v)
        ==> i32::MIN <= v <= i32::MAX)
    &&& (summed(as_int_i64(mine.credits_delta), as_int_i64(other.credits_delta)) matches Some(v)
        ==> i64::MIN <= v <= i64::MAX)
}

/// The changes after merging `other` into `mine`.
pub open spec fn merged(mine: PlayerChanges, other: PlayerChanges, r: PlayerChanges) -> bool {
    &&& r.reputation == later(mine.reputation, other.reputation)
    &&& r.fame == later(mine.fame, other.fame)
    &&& r.credits == later(mine.credits, other.credits)
    &&& as_int_i32(r.reputation_delta) == summed(as_int_i32(mine.reputation_delta), as_int_i32(other.reputation_delta))
    &&& as_int_i32(r.fame_delta) == summed(as_int_i32(mine.fame_delta), as_int_i32(other.fame_delta))
    &&& as_int_i64(r.credits_delta) == summed(as_int_i64(mine.credits_delta), as_int_i64(other.credits_delta))
}

impl Default for PlayerChanges {
    /// No changes.
    fn default() -> (r: Self)
        ensures
            r.is_empty_spec(),
    {
        PlayerChanges {
            reputation: None,
            fame: None,
            reputation_delta: None,
            fame_delta: None,
            credits: None,
            credits_delta: None,
        }
    }
}

impl PlayerChanges {
    /// No field is set.
    pub open spec fn is_empty_spec(&self) -> bool {
        &&& self.reputation is None
        &&& self.fame is None
        &&& self.reputation_delta is None
        &&& self.fame_delta is None
        &&& self.credits is None
        &&& self.credits_delta is None
    }

    /// Whether no field is set.
    pub fn is_empty(&self) -> (r: bool)
        ensures
            r == self.is_empty_spec(),
    {
        self.reputation.is_none()
            && self.fame.is_none()
            && self.reputation_delta.is_none()
            && self.fame_delta.is_none()
            && self.credits.is_none()
            && self.credits_delta.is_none()
    }

    /// Merge another set of changes into this one: set absolute values replace, deltas
    /// accumulate.
    pub fn merge(&mut self, other: &PlayerChanges)
        requires
            merge_fits(*old(self), *other),
        ensures
            merged(*old(self), *other, *final(self)),
    {
        if other.reputation.is_some() {
            self.reputation = other.reputation;
        }
        if other.fame.is_some() {
            self.fame = other.fame;
        }
        if other.credits.is_some() {
            self.credits = other.credits;
        }
        if let Some(delta) = other.reputation_delta {
            let base: i32 = match self.reputation_delta { Some(d) => d, None => 0 };
            self.reputation_delta = Some(base + delta);
        }
        if let Some(delta) = other.fame_delta {
            let base: i32 = match self.fame_delta { Some(d) => d, None => 0 };
            self.fame_delta = Some(base + delta);
        }
        if let Some(delta) = other.credits_delta {
            let base: i64 = match self.credits_delta { Some(d) => d, None => 0 };
            self.credits_delta = Some(base + delta);
        }
    }
}

/// Merging two changes one after the other gives the same result as merging, into the
/// first, a single change that holds their combination: absolute values keep the latest,
/// deltas add up in any grouping.
pub proof fn law_merge_accumulates(a: PlayerChanges, b: PlayerChanges, c: PlayerChanges, ab: PlayerChanges, abc: PlayerChanges)
    requires
        merged(a, b, ab),
        merged(ab, c, abc),
    ensures
        abc.reputation == later(later(a.reputation, b.reputation), c.reputation),
        abc.credits == later(later(a.credits, b.credits), c.credits),
        as_int_i64(abc.credits_delta) == summed(as_int_i64(a.credits_delta), summed(as_int_i64(b.credits_delta), as_int_i64(c.credits_delta))),
        as_int_i32(abc.reputation_delta) == summed(as_int_i32(a.reputation_delta), summed(as_int_i32(b.reputation_delta), as_int_i32(c.reputation_delta))),
        as_int_i32(abc.fame_delta) == summed(as_int_i32(a.fame_delta), summed(as_int_i32(b.fame_delta), as_int_i32(c.fame_delta))),
{
}

/// Merging `other` into `mine`: every absolute value (reputation, fame, credits) that `other`
/// sets replaces `mine`'s, one it leaves unset keeps `mine`'s; a delta that `other` sets is
/// added to `mine`'s (a missing one counting as 0), one it leaves unset keeps `mine`'s.
pub proof fn law_merge_later_absolute_wins(mine: PlayerChanges, other: PlayerChanges, r: PlayerChanges)
    requires
        merged(mine, other, r),
    ensures
        other.reputation matches Some(v) ==> r.reputation == Some(v),
        other.reputation is None ==> r.reputation == mine.reputation,
        other.fame matches Some(v) ==> r.fame == Some(v),
        other.fame is None ==> r.fame == mine.fame,
        other.credits matches Some(v) ==> r.credits == Some(v),
        other.credits is None ==> r.credits == mine.credits,
        other.reputation_delta matches Some(d) ==> r.reputation_delta is Some
            && r.reputation_delta->0 == d + (match mine.reputation_delta { Some(m) => m as int, None => 0 }),
        other.reputation_delta is None ==> r.reputation_delta == mine.reputation_delta,
        other.fame_delta matches Some(d) ==> r.fame_delta is Some
            && r.fame_delta->0 == d + (match mine.fame_delta { Some(m) => m as int, None => 0 }),
        other.fame_delta is None ==> r.fame_delta == mine.fame_delta,
        other.credits_delta matches Some(d) ==> r.credits_delta is Some
            && r.credits_delta->0 == d + (match mine.credits_delta { Some(m) => m as int, None => 0 }),
        other.credits_delta is None ==> r.credits_delta == mine.credits_delta,
{
}

/// A merge leaves changes exactly when either side had some: the merged changes are empty
/// just when both were.
pub proof fn law_merge_empty(a: PlayerChanges, b: PlayerChanges, r: PlayerChanges)
    requires
        merged(a, b, r),
    ensures
        r.is_empty_spec() == (a.is_empty_spec() && b.is_empty_spec()),
{
}

/// A choice option for player dialogs.
#[derive(Debug, Clone)]
pub struct ChoiceOption {
    pub id: String,
    pub text: String,
    pub is_available: bool,
    pub requirement_text: Option<String>,
}

/// Upgrade installation request.
#[derive(Debug, Clone)]
pub struct UpgradeInstall {
    pub upgrade_id: String,
    pub slot: String,
}

/// Cargo change for add/remove operations.
#[derive(Debug, Clone)]
pub struct CargoChange {
    pub cargo_type: String,
    pub quantity: u32,
    pub purchase_price: i64,
}

impl UpgradeInstall {
    /// A field-for-field copy.
    pub fn copied(&self) -> (r: Self)
        ensures
            r == *self,
    {
        UpgradeInstall { upgrade_id: self.upgrade_id.clone(), slot: self.slot.clone() }
    }
}

impl CargoChange {
    /// A field-for-field copy.
    pub fn copied(&self) -> (r: Self)
        ensures
            r == *self,
    {
        CargoChange { cargo_type: self.cargo_type.clone(), quantity: self.quantity, purchase_price: self.purchase_price }
    }
}

/// Read-only snapshot of an installed upgrade.
#[derive(Debug, Clone)]
pub struct UpgradeSnapshot {
    pub upgrade_id: String,
    pub slot: String,
}

/// Read-only snapshot of a cargo item.
#[derive(Debug, Clone)]
pub struct CargoSnapshot {
    pub cargo_type: String,
    pub quantity: u32,
    pub purchase_price: i64,
}

} // verus!
