//! Read-your-own-writes for scripts: the changes a script has queued (not yet applied) are
//! kept per entity and merged into what the script reads, and entities it destroyed stop
//! being readable.

use vstd::prelude::*;
use crate::maps::IdMap;
use crate::state::{PlayerChanges, merge_fits, merged};
use crate::ships::{no_ship_changes, ShipChanges, ShipSnapshot, ship_merged, ship_applied, apply_ship_changes, status_text};

verus! {

/// Read-only snapshot of a player.
#[derive(Debug, Clone)]
pub struct PlayerSnapshot {
    pub id: u128,
    pub username: String,
    pub reputation: i32,
    pub fame: i32,
    pub credits: i64,
    pub game_mode: String,
    pub owned_ships: Vec<u128>,
    pub active_ship_id: u128,
    pub sector_id: u128,
    pub faction_id: u128,
    pub squadron_id: Option<u128>,
    pub is_online: bool,
    pub missions_completed: i32,
    pub missions_failed: i32,
    pub is_disgraced: bool,
}

/// A value after a change: the value set when there is one, then the delta added.
pub open spec fn set_then_add(v: int, set: Option<int>, delta: Option<int>) -> int {
    (match set { Some(s) => s, None => v }) + (match delta { Some(d) => d, None => 0 })
}

/// The reputation after `c`.
pub open spec fn reputation_after(p: PlayerSnapshot, c: PlayerChanges) -> int {
    set_then_add(p.reputation as int, match c.reputation { Some(x) => Some(x as int), None => None },
        match c.reputation_delta { Some(x) => Some(x as int), None => None })
}

/// The fame after `c`.
pub open spec fn fame_after(p: PlayerSnapshot, c: PlayerChanges) -> int {
    set_then_add(p.fame as int, match c.fame { Some(x) => Some(x as int), None => None },
        match c.fame_delta { Some(x) => Some(x as int), None => None })
}

/// The credits after `c`.
pub open spec fn credits_after(p: PlayerSnapshot, c: PlayerChanges) -> int {
    set_then_add(p.credits as int, match c.credits { Some(x) => Some(x as int), None => None },
        match c.credits_delta { Some(x) => Some(x as int), None => None })
}

/// Whether applying `c` to `p` keeps reputation, fame and credits in range.
pub open spec fn apply_fits(p: PlayerSnapshot, c: PlayerChanges) -> bool {
    &&& i32::MIN <= reputation_after(p, c) <= i32::MAX
    &&& i32::MIN <= fame_after(p, c) <= i32::MAX
    &&& i64::MIN <= credits_after(p, c) <= i64::MAX
}

/// `r` is `p` with `c` applied: absolute values replace, then deltas add.
pub open spec fn applied(p: PlayerSnapshot, c: PlayerChanges, r: PlayerSnapshot) -> bool {
    &&& r.reputation == reputation_after(p, c)
    &&& r.fame == fame_after(p, c)
    &&& r.credits == credits_after(p, c)
    &&& r == (PlayerSnapshot { reputation: r.reputation, fame: r.fame, credits: r.credits, ..p })
}

/// No changes at all.
pub open spec fn no_changes() -> PlayerChanges {
    PlayerChanges { reputation: None, fame: None, reputation_delta: None, fame_delta: None, credits: None, credits_delta: None }
}

/// The changes a script queued, per entity. `F` is the type of a ship's numeric values, `P`
/// that of its coordinates.
pub struct MutationOverlay<F, P> {
    ship_changes: IdMap<ShipChanges<F, P>>,
    player_changes: IdMap<PlayerChanges>,
    pending_destroys: IdMap<()>,
}

impl<F, P> MutationOverlay<F, P> {
    /// The accumulated changes of each ship.
    pub closed spec fn ship_view(&self) -> Map<u128, ShipChanges<F, P>> {
        self.ship_changes@
    }

    /// The accumulated changes of each player.
    pub closed spec fn player_view(&self) -> Map<u128, PlayerChanges> {
        self.player_changes@
    }

    /// The entities marked for destruction.
    pub closed spec fn destroyed(&self) -> Set<u128> {
        self.pending_destroys@.dom()
    }

    /// Each entity is kept once.
    pub closed spec fn wf(&self) -> bool {
        self.ship_changes.wf() && self.player_changes.wf() && self.pending_destroys.wf()
    }

    /// An overlay with nothing queued.
    pub fn new() -> (r: Self)
        ensures
            r.wf(),
            r.ship_view() == Map::<u128, ShipChanges<F, P>>::empty(),
            r.player_view() == Map::<u128, PlayerChanges>::empty(),
            r.destroyed() == Set::<u128>::empty(),
    {
        MutationOverlay { ship_changes: IdMap::new(), player_changes: IdMap::new(), pending_destroys: IdMap::new() }
    }

    /// Whether recording `changes` for a player keeps its accumulated deltas in range.
    pub fn player_change_fits(&self, player_id: u128, changes: &PlayerChanges) -> (r: bool)
        requires
            self.wf(),
        ensures
            r == (self.player_view().contains_key(player_id) ==> merge_fits(self.player_view()[player_id], *changes)),
    {
        match self.player_changes.get(player_id) {
            Some(c) => {
                let ok_rep = match (c.reputation_delta, changes.reputation_delta) {
                    (Some(a), Some(b)) => a.checked_add(b).is_some(),
                    _ => true,
                };
                let ok_fame = match (c.fame_delta, changes.fame_delta) {
                    (Some(a), Some(b)) => a.checked_add(b).is_some(),
                    _ => true,
                };
                let ok_credits = match (c.credits_delta, changes.credits_delta) {
                    (Some(a), Some(b)) => a.checked_add(b).is_some(),
                    _ => true,
                };
                ok_rep && ok_fame && ok_credits
            },
            None => true,
        }
    }

    /// Record changes to a player: merged into its earlier ones (absolute values replace,
    /// deltas add up).
    pub fn record_player_change(&mut self, player_id: u128, changes: &PlayerChanges)
        requires
            old(self).wf(),
            old(self).player_view().contains_key(player_id) ==> merge_fits(old(self).player_view()[player_id], *changes),
        ensures
            final(self).wf(),
            final(self).player_view().dom() == old(self).player_view().dom().insert(player_id),
            merged(
                if old(self).player_view().contains_key(player_id) { old(self).player_view()[player_id] } else { no_changes() },
                *changes,
                final(self).player_view()[player_id],
            ),
            forall|k: u128| k != player_id ==> #[trigger] final(self).player_view().contains_key(k) ==> final(self).player_view()[k] == old(self).player_view()[k],
            final(self).ship_view() == old(self).ship_view(),
            final(self).destroyed() == old(self).destroyed(),
    {
        let mut entry = match self.player_changes.get(player_id) {
            Some(c) => *c,
            None => PlayerChanges { reputation: None, fame: None, reputation_delta: None, fame_delta: None, credits: None, credits_delta: None },
        };
        entry.merge(changes);
        self.player_changes.insert(player_id, entry);
        assert(self.player_view().dom() =~= old(self).player_view().dom().insert(player_id));
    }

    /// Mark an entity as destroyed.
    pub fn record_destroy(&mut self, entity_id: u128)
        requires
            old(self).wf(),
        ensures
            final(self).wf(),
            final(self).destroyed() == old(self).destroyed().insert(entity_id),
            final(self).ship_view() == old(self).ship_view(),
            final(self).player_view() == old(self).player_view(),
    {
        self.pending_destroys.insert(entity_id, ());
        assert(self.destroyed() =~= old(self).destroyed().insert(entity_id));
    }

    /// Whether an entity is pending destruction.
    pub fn is_destroyed(&self, entity_id: u128) -> (r: bool)
        requires
            self.wf(),
        ensures
            r == self.destroyed().contains(entity_id),
    {
        self.pending_destroys.contains_key(entity_id)
    }

    /// Whether applying the player's queued changes to `snapshot` keeps its values in range.
    pub fn player_apply_fits(&self, snapshot: &PlayerSnapshot) -> (r: bool)
        requires
            self.wf(),
        ensures
            r == (self.player_view().contains_key(snapshot.id) ==> apply_fits(*snapshot, self.player_view()[snapshot.id])),
    {
        match self.player_changes.get(snapshot.id) {
            Some(c) => {
                let rep: i64 = match c.reputation { Some(x) => x as i64, None => snapshot.reputation as i64 }
                    + match c.reputation_delta { Some(d) => d as i64, None => 0 };
                let fame: i64 = match c.fame { Some(x) => x as i64, None => snapshot.fame as i64 }
                    + match c.fame_delta { Some(d) => d as i64, None => 0 };
                let base: i64 = match c.credits { Some(x) => x, None => snapshot.credits };
                let credits_ok = match c.credits_delta { Some(d) => base.checked_add(d).is_some(), None => true };
                i32::MIN as i64 <= rep && rep <= i32::MAX as i64 && i32::MIN as i64 <= fame && fame <= i32::MAX as i64 && credits_ok
            },
            None => true,
        }
    }

    /// The player as the script sees it: `None` when it is pending destruction, else the
    /// snapshot with its queued changes applied (absolute values replace, then deltas add).
    pub fn apply_to_player(&self, snapshot: PlayerSnapshot) -> (r: Option<PlayerSnapshot>)
        requires
            self.wf(),
            self.player_view().contains_key(snapshot.id) ==> apply_fits(snapshot, self.player_view()[snapshot.id]),
        ensures
            self.destroyed().contains(snapshot.id) ==> r is None,
            !self.destroyed().contains(snapshot.id) && !self.player_view().contains_key(snapshot.id) ==> r == Some(snapshot),
            !self.destroyed().contains(snapshot.id) && self.player_view().contains_key(snapshot.id) ==>
                (r matches Some(p) && applied(snapshot, self.player_view()[snapshot.id], p)),
    {
        if self.pending_destroys.contains_key(snapshot.id) {
            return None;
        }
        let c = match self.player_changes.get(snapshot.id) {
            Some(c) => *c,
            None => { return Some(snapshot); },
        };
        let mut p = snapshot;
        if let Some(r) = c.reputation {
            p.reputation = r;
        }
        if let Some(f) = c.fame {
            p.fame = f;
        }
        if let Some(cr) = c.credits {
            p.credits = cr;
        }
        if let Some(d) = c.reputation_delta {
            p.reputation = p.reputation + d;
        }
        if let Some(d) = c.fame_delta {
            p.fame = p.fame + d;
        }
        if let Some(d) = c.credits_delta {
            p.credits = p.credits + d;
        }
        Some(p)
    }

    /// Whether a ship has queued changes.
    pub fn has_ship_changes(&self, ship_id: u128) -> (r: bool)
        requires
            self.wf(),
        ensures
            r == self.ship_view().contains_key(ship_id),
    {
        self.ship_changes.contains_key(ship_id)
    }

    /// Whether a player has queued changes.
    pub fn has_player_changes(&self, player_id: u128) -> (r: bool)
        requires
            self.wf(),
        ensures
            r == self.player_view().contains_key(player_id),
    {
        self.player_changes.contains_key(player_id)
    }

    /// Drop everything queued.
    pub fn clear(&mut self)
        ensures
            final(self).wf(),
            final(self).ship_view() == Map::<u128, ShipChanges<F, P>>::empty(),
            final(self).player_view() == Map::<u128, PlayerChanges>::empty(),
            final(self).destroyed() == Set::<u128>::empty(),
    {
        self.ship_changes = IdMap::new();
        self.player_changes = IdMap::new();
        self.pending_destroys = IdMap::new();
    }

    /// How many entities the overlay tracks: ships and players with changes, and entities
    /// pending destruction.
    pub fn tracked_count(&self) -> (r: usize)
        requires
            self.wf(),
            self.ship_view().len() + self.player_view().len() + self.destroyed().len() <= usize::MAX,
        ensures
            r == self.ship_view().len() + self.player_view().len() + self.destroyed().len(),
    {
        let a = self.ship_changes.len();
        let b = self.player_changes.len();
        let c = self.pending_destroys.len();
        proof {
            self.pending_destroys.lemma_dom();
        }
        a + b + c
    }
}

impl<F: Copy, P: Copy> MutationOverlay<F, P> {
    /// Record a ship mutation: merged into the ship's earlier changes, later values
    /// overwriting earlier ones for the same field.
    pub fn record_ship_change(&mut self, ship_id: u128, changes: &ShipChanges<F, P>)
        requires
            old(self).wf(),
        ensures
            final(self).wf(),
            final(self).ship_view() == old(self).ship_view().insert(
                ship_id,
                ship_merged(
                    if old(self).ship_view().contains_key(ship_id) { old(self).ship_view()[ship_id] } else { no_ship_changes::<F, P>() },
                    *changes,
                ),
            ),
            final(self).player_view() == old(self).player_view(),
            final(self).destroyed() == old(self).destroyed(),
    {
        let mut entry = match self.ship_changes.remove(ship_id) {
            Some(c) => c,
            None => ShipChanges::default(),
        };
        entry.merge(changes);
        self.ship_changes.insert(ship_id, entry);
    }

    /// The ship as the script sees it: `None` when it is pending destruction, else the
    /// snapshot with its queued changes applied.
    pub fn apply_to_ship(&self, snapshot: ShipSnapshot<F, P>) -> (r: Option<ShipSnapshot<F, P>>)
        requires
            self.wf(),
        ensures
            self.destroyed().contains(snapshot.id) ==> r is None,
            !self.destroyed().contains(snapshot.id) && !self.ship_view().contains_key(snapshot.id) ==> r == Some(snapshot),
            !self.destroyed().contains(snapshot.id) && self.ship_view().contains_key(snapshot.id) ==>
                (r matches Some(s) && ship_applied(snapshot, self.ship_view()[snapshot.id], s)),
    {
        if self.pending_destroys.contains_key(snapshot.id) {
            return None;
        }
        match self.ship_changes.get(snapshot.id) {
            Some(c) => Some(apply_ship_changes(snapshot, c)),
            None => Some(snapshot),
        }
    }
}

/// A script reads its own writes: once a ship change is merged into what was queued before,
/// the ship as read shows every value that the change set, whatever was queued earlier.
pub proof fn law_ship_reads_own_write<F, P>(earlier: ShipChanges<F, P>, change: ShipChanges<F, P>, snapshot: ShipSnapshot<F, P>, read: ShipSnapshot<F, P>)
    requires
        ship_applied(snapshot, ship_merged(earlier, change), read),
    ensures
        change.hull matches Some(h) ==> read.hull == h,
        change.shields matches Some(v) ==> read.shields == v,
        change.ammunition matches Some(v) ==> read.ammunition == v,
        change.fuel matches Some(v) ==> read.fuel == v,
        change.morale matches Some(v) ==> read.morale == v,
        change.experience matches Some(v) ==> read.experience == v,
        change.position matches Some(v) ==> read.position == v,
        change.status matches Some(v) ==> read.status@ == status_text(v),
        change.combat_stance matches Some(v) ==> read.combat_stance == v,
        change.locked_target matches Some(v) ==> read.locked_target == v,
        read.id == snapshot.id,
        read.name == snapshot.name,
        read.cargo == snapshot.cargo,
        read.upgrades == snapshot.upgrades,
{
}

/// Player deltas queued one after the other add up in what the script reads: with no
/// absolute credits set, two queued credit deltas read as the snapshot's credits plus both.
pub proof fn law_player_deltas_accumulate(snapshot: PlayerSnapshot, first: PlayerChanges, second: PlayerChanges, after_first: PlayerChanges, after_second: PlayerChanges, read: PlayerSnapshot)
    requires
        merged(no_changes(), first, after_first),
        merged(after_first, second, after_second),
        applied(snapshot, after_second, read),
        first.credits is None,
        second.credits is None,
        first.credits_delta is Some,
        second.credits_delta is Some,
    ensures
        read.credits == snapshot.credits + first.credits_delta.unwrap() + second.credits_delta.unwrap(),
{
}

} // verus!
