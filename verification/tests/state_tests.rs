use bw_scripting::state::{AccessPermissions, EntityType, PlayerChanges};

#[test]
fn test_entity_type() {
    assert_eq!(EntityType::Ship.as_str(), "ship");
    assert_eq!(EntityType::Station.as_str(), "station");
}

#[test]
fn test_player_delta_accumulation() {
    let mut changes = PlayerChanges {
        credits_delta: Some(100),
        ..Default::default()
    };

    changes.merge(&PlayerChanges {
        credits_delta: Some(50),
        ..Default::default()
    });

    assert_eq!(changes.credits_delta, Some(150));
}

#[test]
fn test_permissions_default() {
    let perms = AccessPermissions::default();
    assert!(perms.can_read_ships);
    assert!(!perms.can_write_ships);
}

#[test]
fn merge_replaces_absolute_values_and_adds_deltas() {
    let mut a = PlayerChanges { reputation: Some(5), fame_delta: Some(-3), ..Default::default() };
    a.merge(&PlayerChanges { reputation: Some(9), fame_delta: Some(10), reputation_delta: Some(2), ..Default::default() });
    assert_eq!(a.reputation, Some(9));
    assert_eq!(a.fame_delta, Some(7));
    assert_eq!(a.reputation_delta, Some(2));
    assert_eq!(a.credits, None);
    // merging nothing changes nothing
    let before = a;
    a.merge(&PlayerChanges::default());
    assert_eq!(a, before);
}

#[test]
fn player_changes_emptiness() {
    assert!(PlayerChanges::default().is_empty());
    assert!(!PlayerChanges { credits: Some(1), ..Default::default() }.is_empty());
}

#[test]
fn permission_profiles() {
    let t = AccessPermissions::trusted();
    assert!(t.can_write_ships && t.can_spawn_entities && t.can_destroy_entities && t.can_emit_events);
    assert!(!t.can_write_players);
    assert!(t.can_access_sector(42));

    let npc = AccessPermissions::npc_behavior(7, 9);
    assert_eq!(npc.owner_entity_id, Some(7));
    assert!(npc.can_access_sector(9));
    assert!(!npc.can_access_sector(10));
    assert!(!npc.can_spawn_entities);

    let ro = AccessPermissions::read_only();
    assert!(ro.can_read_players && !ro.can_emit_events);
}
