//! Ship-side changes a script queues, and the ship as a script reads it. The numeric ship
//! values (hull, shields and the like) are of a type `F`, the coordinates of a type `P`; this
//! library only carries and copies them, never computes with them.

use vstd::prelude::*;
use crate::text::{lowered, to_lowercase, str_eq};
use crate::bindings::{parsed_id, parse_id};
use crate::state::{later, CargoChange, UpgradeInstall, CargoSnapshot, UpgradeSnapshot};

verus! {

/// Read-only snapshot of a position.
#[derive(Debug, Clone, Copy)]
pub struct PositionSnapshot<F> {
    pub x: F,
    pub y: F,
    pub z: F,
}

/// Ship status change request.
#[derive(Debug, Clone, Copy)]
pub enum ShipStatusChange<F> {
    Idle,
    InTransit { destination: PositionSnapshot<F>, target_id: Option<u128> },
    Disabled,
}

/// The status a name stands for, ignoring case: only idle and disabled can be named.
pub open spec fn status_named<F>(lower: Seq<char>) -> Option<ShipStatusChange<F>> {
    if lower == "idle"@ {
        Some(ShipStatusChange::Idle)
    } else if lower == "disabled"@ {
        Some(ShipStatusChange::Disabled)
    } else {
        None
    }
}

/// The status text a ship shows once the change is applied.
pub open spec fn status_text<F>(s: ShipStatusChange<F>) -> Seq<char> {
    match s {
        ShipStatusChange::Idle => "idle"@,
        ShipStatusChange::InTransit { .. } => "in_transit"@,
        ShipStatusChange::Disabled => "disabled"@,
    }
}

impl<F> ShipStatusChange<F> {
    /// Parse a status name, ignoring case.
    pub fn from_string(s: &str) -> (r: Option<Self>)
        ensures
            r == status_named::<F>(lowered(s@)),
    {
        let l = to_lowercase(s);
        let t = l.as_str();
        proof {
            reveal_strlit("idle");
            reveal_strlit("disabled");
        }
        if str_eq(t, "idle") {
            Some(ShipStatusChange::Idle)
        } else if str_eq(t, "disabled") {
            Some(ShipStatusChange::Disabled)
        } else {
            None
        }
    }

    /// The status text a ship shows once this change is applied.
    pub fn status_label(&self) -> (r: &'static str)
        ensures
            r@ == status_text(*self),
    {
        match self {
            ShipStatusChange::Idle => "idle",
            ShipStatusChange::InTransit { .. } => "in_transit",
            ShipStatusChange::Disabled => "disabled",
        }
    }
}

/// A copy of an optional text.
pub fn copy_text(o: &Option<String>) -> (r: Option<String>)
    ensures
        r == *o,
{
    match o {
        Some(s) => Some(s.clone()),
        None => None,
    }
}

/// A copy of an optional cargo change.
fn copy_cargo(o: &Option<CargoChange>) -> (r: Option<CargoChange>)
    ensures
        r == *o,
{
    match o {
        Some(c) => Some(c.copied()),
        None => None,
    }
}

/// A copy of an optional upgrade installation.
fn copy_install(o: &Option<UpgradeInstall>) -> (r: Option<UpgradeInstall>)
    ensures
        r == *o,
{
    match o {
        Some(u) => Some(u.copied()),
        None => None,
    }
}

/// Changes to apply to a ship. `locked_target` is `Some(None)` to clear the target and
/// `Some(Some(id))` to set it.
#[derive(Debug, Clone)]
pub struct ShipChanges<F, P> {
    pub hull: Option<F>,
    pub shields: Option<F>,
    pub ammunition: Option<F>,
    pub fuel: Option<F>,
    pub morale: Option<F>,
    pub experience: Option<i32>,
    pub position: Option<PositionSnapshot<P>>,
    pub status: Option<ShipStatusChange<P>>,
    pub combat_stance: Option<String>,
    pub locked_target: Option<Option<u128>>,
    pub add_cargo: Option<CargoChange>,
    pub remove_cargo: Option<CargoChange>,
    pub install_upgrade: Option<UpgradeInstall>,
    pub remove_upgrade_slot: Option<String>,
}

/// No ship changes at all.
pub open spec fn no_ship_changes<F, P>() -> ShipChanges<F, P> {
    ShipChanges {
        hull: None,
        shields: None,
        ammunition: None,
        fuel: None,
        morale: None,
        experience: None,
        position: None,
        status: None,
        combat_stance: None,
        locked_target: None,
        add_cargo: None,
        remove_cargo: None,
        install_upgrade: None,
        remove_upgrade_slot: None,
    }
}

/// The ship changes after merging `other` into `mine`: every field that `other` sets
/// replaces the earlier one.
pub open spec fn ship_merged<F, P>(mine: ShipChanges<F, P>, other: ShipChanges<F, P>) -> ShipChanges<F, P> {
    ShipChanges {
        hull: later(mine.hull, other.hull),
        shields: later(mine.shields, other.shields),
        ammunition: later(mine.ammunition, other.ammunition),
        fuel: later(mine.fuel, other.fuel),
        morale: later(mine.morale, other.morale),
        experience: later(mine.experience, other.experience),
        position: later(mine.position, other.position),
        status: later(mine.status, other.status),
        combat_stance: later(mine.combat_stance, other.combat_stance),
        locked_target: later(mine.locked_target, other.locked_target),
        add_cargo: later(mine.add_cargo, other.add_cargo),
        remove_cargo: later(mine.remove_cargo, other.remove_cargo),
        install_upgrade: later(mine.install_upgrade, other.install_upgrade),
        remove_upgrade_slot: later(mine.remove_upgrade_slot, other.remove_upgrade_slot),
    }
}

impl<F, P> ShipChanges<F, P> {
    /// No field is set.
    pub open spec fn is_empty_spec(&self) -> bool {
        &&& self.hull is None
        &&& self.shields is None
        &&& self.ammunition is None
        &&& self.fuel is None
        &&& self.morale is None
        &&& self.experience is None
        &&& self.position is None
        &&& self.status is None
        &&& self.combat_stance is None
        &&& self.locked_target is None
        &&& self.add_cargo is None
        &&& self.remove_cargo is None
        &&& self.install_upgrade is None
        &&& self.remove_upgrade_slot is None
    }

    /// Whether no field is set.
    pub fn is_empty(&self) -> (r: bool)
        ensures
            r == self.is_empty_spec(),
    {
        self.hull.is_none()
            && self.shields.is_none()
            && self.ammunition.is_none()
            && self.fuel.is_none()
            && self.morale.is_none()
            && self.experience.is_none()
            && self.position.is_none()
            && self.status.is_none()
            && self.combat_stance.is_none()
            && self.locked_target.is_none()
            && self.add_cargo.is_none()
            && self.remove_cargo.is_none()
            && self.install_upgrade.is_none()
            && self.remove_upgrade_slot.is_none()
    }
}

impl<F, P> Default for ShipChanges<F, P> {
    /// No changes.
    fn default() -> (r: Self)
        ensures
            r.is_empty_spec(),
            r == no_ship_changes::<F, P>(),
    {
        ShipChanges {
            hull: None,
            shields: None,
            ammunition: None,
            fuel: None,
            morale: None,
            experience: None,
            position: None,
            status: None,
            combat_stance: None,
            locked_target: None,
            add_cargo: None,
            remove_cargo: None,
            install_upgrade: None,
            remove_upgrade_slot: None,
        }
    }
}

impl<F: Copy, P: Copy> ShipChanges<F, P> {
    /// Merge another set of changes into this one: later values overwrite earlier ones for
    /// the same field.
    pub fn merge(&mut self, other: &ShipChanges<F, P>)
        ensures
            *final(self) == ship_merged(*old(self), *other),
    {
        if other.hull.is_some() {
            self.hull = other.hull;
        }
        if other.shields.is_some() {
            self.shields = other.shields;
        }
        if other.ammunition.is_some() {
            self.ammunition = other.ammunition;
        }
        if other.fuel.is_some() {
            self.fuel = other.fuel;
        }
        if other.morale.is_some() {
            self.morale = other.morale;
        }
        if other.experience.is_some() {
            self.experience = other.experience;
        }
        if other.position.is_some() {
            self.position = other.position;
        }
        if other.status.is_some() {
            self.status = other.status;
        }
        if other.combat_stance.is_some() {
            self.combat_stance = copy_text(&other.combat_stance);
        }
        if other.locked_target.is_some() {
            self.locked_target = other.locked_target;
        }
        if other.add_cargo.is_some() {
            self.add_cargo = copy_cargo(&other.add_cargo);
        }
        if other.remove_cargo.is_some() {
            self.remove_cargo = copy_cargo(&other.remove_cargo);
        }
        if other.install_upgrade.is_some() {
            self.install_upgrade = copy_install(&other.install_upgrade);
        }
        if other.remove_upgrade_slot.is_some() {
            self.remove_upgrade_slot = copy_text(&other.remove_upgrade_slot);
        }
    }
}

/// Merging changes one after the other keeps, for each field, the value of the last change
/// that set it: merging `b` then `c` into `a` equals merging into `a` the merge of `c` into
/// `b`.
pub proof fn law_ship_merge_associative<F, P>(a: ShipChanges<F, P>, b: ShipChanges<F, P>, c: ShipChanges<F, P>)
    ensures
        ship_merged(ship_merged(a, b), c) == ship_merged(a, ship_merged(b, c)),
{
}

/// Read-only snapshot of a ship's state.
#[derive(Debug, Clone)]
pub struct ShipSnapshot<F, P> {
    pub id: u128,
    pub name: String,
    pub owner_id: Option<u128>,
    pub ship_class: String,
    pub sector_id: u128,
    pub position: PositionSnapshot<P>,
    pub hull: F,
    pub shields: F,
    pub ammunition: F,
    pub fuel: F,
    pub morale: F,
    pub experience: i32,
    pub status: String,
    pub is_player_ship: bool,
    pub faction_id: Option<u128>,
    pub can_attack: bool,
    pub can_move: bool,
    pub attack: F,
    pub defense: F,
    pub speed: F,
    pub sensor_range: F,
    pub combat_stance: String,
    pub locked_target: Option<u128>,
    pub cargo: Vec<CargoSnapshot>,
    pub cargo_capacity: u32,
    pub cargo_used: u32,
    pub upgrades: Vec<UpgradeSnapshot>,
}

/// A value after an optional replacement.
pub open spec fn replaced<T>(v: T, o: Option<T>) -> T {
    match o {
        Some(x) => x,
        None => v,
    }
}

/// `r` is the ship `s` with the changes `c` applied: the fields that `c` sets are replaced
/// (the status by its text, the locked target when `c` sets or clears it), the rest are
/// kept.
pub open spec fn ship_applied<F, P>(s: ShipSnapshot<F, P>, c: ShipChanges<F, P>, r: ShipSnapshot<F, P>) -> bool {
    &&& r.hull == replaced(s.hull, c.hull)
    &&& r.shields == replaced(s.shields, c.shields)
    &&& r.ammunition == replaced(s.ammunition, c.ammunition)
    &&& r.fuel == replaced(s.fuel, c.fuel)
    &&& r.morale == replaced(s.morale, c.morale)
    &&& r.experience == replaced(s.experience, c.experience)
    &&& r.position == replaced(s.position, c.position)
    &&& r.status@ == (match c.status { Some(st) => status_text(st), None => s.status@ })
    &&& r.combat_stance == replaced(s.combat_stance, c.combat_stance)
    &&& r.locked_target == replaced(s.locked_target, c.locked_target)
    &&& r == (ShipSnapshot {
        hull: r.hull,
        shields: r.shields,
        ammunition: r.ammunition,
        fuel: r.fuel,
        morale: r.morale,
        experience: r.experience,
        position: r.position,
        status: r.status,
        combat_stance: r.combat_stance,
        locked_target: r.locked_target,
        ..s
    })
}

/// The ship with the changes `c` applied.
pub fn apply_ship_changes<F: Copy, P: Copy>(snapshot: ShipSnapshot<F, P>, c: &ShipChanges<F, P>) -> (r: ShipSnapshot<F, P>)
    ensures
        ship_applied(snapshot, *c, r),
{
    let mut s = snapshot;
    if let Some(hull) = c.hull {
        s.hull = hull;
    }
    if let Some(shields) = c.shields {
        s.shields = shields;
    }
    if let Some(ammunition) = c.ammunition {
        s.ammunition = ammunition;
    }
    if let Some(fuel) = c.fuel {
        s.fuel = fuel;
    }
    if let Some(morale) = c.morale {
        s.morale = morale;
    }
    if let Some(experience) = c.experience {
        s.experience = experience;
    }
    if let Some(position) = c.position {
        s.position = PositionSnapshot { x: position.x, y: position.y, z: position.z };
    }
    if let Some(status) = &c.status {
        s.status = crate::text::owned(status.status_label());
    }
    if let Some(stance) = &c.combat_stance {
        s.combat_stance = stance.clone();
    }
    if let Some(locked_target) = c.locked_target {
        s.locked_target = locked_target;
    }
    s
}

/// A cargo change read from a script: none unless the cargo type is named and the quantity,
/// taken as a `u32` (its low 32 bits), is positive.
pub fn cargo_change_from_values(cargo_type: String, quantity: i64, purchase_price: i64) -> (r: Option<CargoChange>)
    ensures
        r is Some <==> (cargo_type@.len() > 0 && (quantity as u32) > 0),
        r matches Some(c) ==> c.cargo_type == cargo_type && c.quantity == quantity as u32 && c.purchase_price == purchase_price,
{
    let q: u32 = quantity as u32;
    if cargo_type.as_str().unicode_len() > 0 && q > 0 {
        Some(CargoChange { cargo_type, quantity: q, purchase_price })
    } else {
        None
    }
}

/// The locked-target change a script's text asks for: empty text clears the target, an id
/// sets it, and anything else asks for no change.
pub fn locked_target_from_text(text: &str) -> (r: Option<Option<u128>>)
    ensures
        text@.len() == 0 ==> r == Some(None::<u128>),
        text@.len() > 0 ==> r == (match parsed_id(text@) {
            Some(id) => Some(Some(id)),
            None => None,
        }),
{
    if text.unicode_len() == 0 {
        Some(None)
    } else {
        match parse_id(text) {
            Some(id) => Some(Some(id)),
            None => None,
        }
    }
}

} // verus!
