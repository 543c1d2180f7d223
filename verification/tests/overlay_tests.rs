use bw_scripting::overlay::{MutationOverlay, PlayerSnapshot};
use bw_scripting::ships::{cargo_change_from_values, PositionSnapshot, ShipChanges, ShipSnapshot, ShipStatusChange};
use bw_scripting::state::{CargoChange, PlayerChanges};

fn make_ship_snapshot(id: u128) -> ShipSnapshot<f32, f64> {
    ShipSnapshot {
        id,
        name: "Test Ship".to_string(),
        owner_id: None,
        ship_class: "Corvette".to_string(),
        sector_id: 77,
        position: PositionSnapshot { x: 0.0, y: 0.0, z: 0.0 },
        hull: 100.0,
        shields: 100.0,
        ammunition: 100.0,
        fuel: 100.0,
        morale: 100.0,
        experience: 0,
        status: "idle".to_string(),
        is_player_ship: false,
        faction_id: None,
        can_attack: true,
        can_move: true,
        attack: 10.0,
        defense: 10.0,
        speed: 50.0,
        sensor_range: 100.0,
        combat_stance: "balanced".to_string(),
        locked_target: None,
        cargo: vec![],
        cargo_capacity: 100,
        cargo_used: 0,
        upgrades: vec![],
    }
}

fn make_player_snapshot(id: u128) -> PlayerSnapshot {
    PlayerSnapshot {
        id,
        username: "pilot".to_string(),
        reputation: 10,
        fame: 5,
        credits: 1000,
        game_mode: "standard".to_string(),
        owned_ships: vec![],
        active_ship_id: 2,
        sector_id: 3,
        faction_id: 4,
        squadron_id: None,
        is_online: true,
        missions_completed: 0,
        missions_failed: 0,
        is_disgraced: false,
    }
}

#[test]
fn test_overlay_apply_ship_changes() {
    let mut overlay: MutationOverlay<f32, f64> = MutationOverlay::new();
    let ship_id: u128 = 1;

    overlay.record_ship_change(ship_id, &ShipChanges {
        hull: Some(50.0),
        shields: Some(25.0),
        ..Default::default()
    });

    let snapshot = make_ship_snapshot(ship_id);
    let result = overlay.apply_to_ship(snapshot).unwrap();

    assert_eq!(result.hull, 50.0);
    assert_eq!(result.shields, 25.0);
    assert_eq!(result.fuel, 100.0);
}

#[test]
fn test_overlay_merge_multiple_changes() {
    let mut overlay: MutationOverlay<f32, f64> = MutationOverlay::new();
    let ship_id: u128 = 1;

    overlay.record_ship_change(ship_id, &ShipChanges {
        hull: Some(50.0),
        ..Default::default()
    });

    overlay.record_ship_change(ship_id, &ShipChanges {
        hull: Some(30.0),
        shields: Some(20.0),
        ..Default::default()
    });

    let snapshot = make_ship_snapshot(ship_id);
    let result = overlay.apply_to_ship(snapshot).unwrap();

    assert_eq!(result.hull, 30.0);
    assert_eq!(result.shields, 20.0);
}

#[test]
fn test_overlay_destroyed_entity() {
    let mut overlay: MutationOverlay<f32, f64> = MutationOverlay::new();
    let ship_id: u128 = 1;

    overlay.record_destroy(ship_id);

    let snapshot = make_ship_snapshot(ship_id);
    let result = overlay.apply_to_ship(snapshot);

    assert!(result.is_none());
    assert!(overlay.is_destroyed(ship_id));
}

#[test]
fn overlay_other_ship_reads_unchanged() {
    let mut overlay: MutationOverlay<f32, f64> = MutationOverlay::new();
    overlay.record_ship_change(1, &ShipChanges { hull: Some(5.0), ..Default::default() });
    let result = overlay.apply_to_ship(make_ship_snapshot(2)).unwrap();
    assert_eq!(result.hull, 100.0);
    assert!(overlay.has_ship_changes(1));
    assert!(!overlay.has_ship_changes(2));
}

#[test]
fn overlay_status_stance_target_and_position() {
    let mut overlay: MutationOverlay<f32, f64> = MutationOverlay::new();
    overlay.record_ship_change(1, &ShipChanges {
        status: Some(ShipStatusChange::InTransit {
            destination: PositionSnapshot { x: 1.0, y: 2.0, z: 3.0 },
            target_id: None,
        }),
        combat_stance: Some("aggressive".to_string()),
        locked_target: Some(Some(9)),
        position: Some(PositionSnapshot { x: 4.0, y: 5.0, z: 6.0 }),
        experience: Some(12),
        ..Default::default()
    });
    let result = overlay.apply_to_ship(make_ship_snapshot(1)).unwrap();
    assert_eq!(result.status, "in_transit");
    assert_eq!(result.combat_stance, "aggressive");
    assert_eq!(result.locked_target, Some(9));
    assert_eq!(result.position.x, 4.0);
    assert_eq!(result.position.z, 6.0);
    assert_eq!(result.experience, 12);

    overlay.record_ship_change(1, &ShipChanges {
        status: Some(ShipStatusChange::Disabled),
        locked_target: Some(None),
        ..Default::default()
    });
    let result = overlay.apply_to_ship(make_ship_snapshot(1)).unwrap();
    assert_eq!(result.status, "disabled");
    assert_eq!(result.locked_target, None);
    assert_eq!(result.combat_stance, "aggressive");
}

#[test]
fn ship_changes_merge_keeps_latest() {
    let mut a: ShipChanges<f32, f64> = ShipChanges {
        fuel: Some(1.0),
        add_cargo: Some(CargoChange { cargo_type: "ore".to_string(), quantity: 3, purchase_price: 7 }),
        ..Default::default()
    };
    assert!(!a.is_empty());
    a.merge(&ShipChanges {
        fuel: Some(2.0),
        remove_upgrade_slot: Some("bow".to_string()),
        ..Default::default()
    });
    assert_eq!(a.fuel, Some(2.0));
    assert_eq!(a.add_cargo.as_ref().unwrap().quantity, 3);
    assert_eq!(a.remove_upgrade_slot.as_deref(), Some("bow"));
    let empty: ShipChanges<f32, f64> = ShipChanges::default();
    assert!(empty.is_empty());
}

#[test]
fn ship_status_from_string() {
    assert!(matches!(ShipStatusChange::<f64>::from_string("IDLE"), Some(ShipStatusChange::Idle)));
    assert!(matches!(ShipStatusChange::<f64>::from_string("Disabled"), Some(ShipStatusChange::Disabled)));
    assert!(ShipStatusChange::<f64>::from_string("in_transit").is_none());
    assert_eq!(ShipStatusChange::<f64>::Idle.status_label(), "idle");
}

#[test]
fn overlay_player_changes_accumulate() {
    let mut overlay: MutationOverlay<f32, f64> = MutationOverlay::new();
    let first = PlayerChanges { credits_delta: Some(100), reputation: Some(50), ..Default::default() };
    let second = PlayerChanges { credits_delta: Some(50), fame_delta: Some(-2), ..Default::default() };
    assert!(overlay.player_change_fits(7, &first));
    overlay.record_player_change(7, &first);
    assert!(overlay.player_change_fits(7, &second));
    overlay.record_player_change(7, &second);
    let snapshot = make_player_snapshot(7);
    assert!(overlay.player_apply_fits(&snapshot));
    let read = overlay.apply_to_player(snapshot).unwrap();
    assert_eq!(read.credits, 1150);
    assert_eq!(read.reputation, 50);
    assert_eq!(read.fame, 3);
    assert!(overlay.has_player_changes(7));
    assert_eq!(overlay.tracked_count(), 1);
}

#[test]
fn overlay_player_fits_rejects_overflow() {
    let mut overlay: MutationOverlay<f32, f64> = MutationOverlay::new();
    overlay.record_player_change(7, &PlayerChanges { credits_delta: Some(i64::MAX), ..Default::default() });
    assert!(!overlay.player_change_fits(7, &PlayerChanges { credits_delta: Some(1), ..Default::default() }));
    let snapshot = make_player_snapshot(7);
    assert!(!overlay.player_apply_fits(&snapshot));
}

#[test]
fn overlay_destroy_hides_player_and_clear_resets() {
    let mut overlay: MutationOverlay<f32, f64> = MutationOverlay::new();
    overlay.record_player_change(7, &PlayerChanges { fame: Some(1), ..Default::default() });
    overlay.record_destroy(7);
    assert!(overlay.apply_to_player(make_player_snapshot(7)).is_none());
    assert_eq!(overlay.tracked_count(), 2);
    overlay.clear();
    assert_eq!(overlay.tracked_count(), 0);
    assert!(!overlay.is_destroyed(7));
    assert_eq!(overlay.apply_to_player(make_player_snapshot(7)).unwrap().fame, 5);
}

#[test]
fn cargo_change_needs_type_and_positive_quantity() {
    let c = cargo_change_from_values("ore".to_string(), 5, 12).unwrap();
    assert_eq!(c.cargo_type, "ore");
    assert_eq!(c.quantity, 5);
    assert_eq!(c.purchase_price, 12);
    assert!(cargo_change_from_values(String::new(), 5, 12).is_none());
    assert!(cargo_change_from_values("ore".to_string(), 0, 12).is_none());
    assert!(cargo_change_from_values("ore".to_string(), 1i64 << 32, 12).is_none());
    assert_eq!(cargo_change_from_values("ore".to_string(), (1i64 << 32) + 3, 0).unwrap().quantity, 3);
}
