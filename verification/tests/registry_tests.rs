use clock_roles::registry::{is_selected, RegistryError, RoleRegistry, Selector};
use clock_roles::Role;

fn role(id: i64, guild_id: i64, timezone: &str) -> Role {
    Role { id, guild_id, timezone: timezone.to_string() }
}

fn sample() -> RoleRegistry {
    let mut registry = RoleRegistry::new();
    registry.add(role(10, 1, "UTC")).unwrap();
    registry.add(role(11, 1, "Asia/Tokyo")).unwrap();
    registry.add(role(20, 2, "UTC")).unwrap();
    registry.add(role(12, 1, "UTC")).unwrap();
    registry.add(role(21, 2, "Europe/Paris")).unwrap();
    registry
}

#[test]
fn new_registry_is_empty() {
    let registry = RoleRegistry::new();
    assert_eq!(registry.len(), 0);
    assert!(registry.list(1).is_empty());
    assert!(registry.list_all().is_empty());
}

#[test]
fn add_then_list_contains_the_zone() {
    let mut registry = RoleRegistry::new();
    assert_eq!(registry.add(role(5, 1, "America/New_York")), Ok(()));
    assert_eq!(registry.list(1), vec!["America/New_York".to_string()]);
    assert_eq!(registry.len(), 1);
}

#[test]
fn add_rejects_a_role_id_already_present() {
    let mut registry = sample();
    assert_eq!(registry.add(role(10, 3, "Europe/Rome")), Err(RegistryError::StorageError));
    assert_eq!(registry.len(), 5);
    assert!(registry.list(3).is_empty());
    assert_eq!(registry.list_all(), sample().list_all());
}

#[test]
fn add_allows_the_same_zone_twice_in_a_community() {
    let registry = sample();
    assert_eq!(
        registry.list(1),
        vec!["UTC".to_string(), "Asia/Tokyo".to_string(), "UTC".to_string()]
    );
}

#[test]
fn contains_id_finds_only_present_ids() {
    let registry = sample();
    assert!(registry.contains_id(10));
    assert!(registry.contains_id(21));
    assert!(!registry.contains_id(1));
    assert!(!RoleRegistry::new().contains_id(10));
}

#[test]
fn list_keeps_communities_apart() {
    let registry = sample();
    assert_eq!(registry.list(2), vec!["UTC".to_string(), "Europe/Paris".to_string()]);
    assert!(registry.list(3).is_empty());
}

#[test]
fn list_all_is_a_snapshot_in_insertion_order() {
    let mut registry = sample();
    let snapshot = registry.list_all();
    assert_eq!(
        snapshot,
        vec![
            role(10, 1, "UTC"),
            role(11, 1, "Asia/Tokyo"),
            role(20, 2, "UTC"),
            role(12, 1, "UTC"),
            role(21, 2, "Europe/Paris"),
        ]
    );
    registry.remove(1, &Selector::All);
    assert_eq!(snapshot.len(), 5);
    assert_eq!(registry.len(), 2);
}

#[test]
fn remove_all_empties_the_community() {
    let mut registry = sample();
    let before = registry.list(1).len();
    let removed = registry.remove(1, &Selector::All);
    assert_eq!(removed, vec![10, 11, 12]);
    assert_eq!(removed.len(), before);
    assert!(registry.list(1).is_empty());
}

#[test]
fn remove_all_leaves_other_communities() {
    let mut registry = sample();
    registry.remove(1, &Selector::All);
    assert_eq!(registry.list(2), vec!["UTC".to_string(), "Europe/Paris".to_string()]);
    assert_eq!(registry.list_all(), vec![role(20, 2, "UTC"), role(21, 2, "Europe/Paris")]);
}

#[test]
fn remove_specific_takes_only_that_zone() {
    let mut registry = sample();
    let removed = registry.remove(1, &Selector::Specific("UTC".to_string()));
    assert_eq!(removed, vec![10, 12]);
    assert_eq!(registry.list(1), vec!["Asia/Tokyo".to_string()]);
    assert_eq!(registry.list(2), vec!["UTC".to_string(), "Europe/Paris".to_string()]);
}

#[test]
fn remove_specific_of_an_untracked_zone_changes_nothing() {
    let mut registry = sample();
    let removed = registry.remove(1, &Selector::Specific("Europe/Paris".to_string()));
    assert!(removed.is_empty());
    assert_eq!(registry.list_all(), sample().list_all());
}

#[test]
fn remove_from_an_unknown_community_changes_nothing() {
    let mut registry = sample();
    assert!(registry.remove(9, &Selector::All).is_empty());
    assert_eq!(registry.len(), 5);
}

#[test]
fn removed_role_ids_can_be_added_again() {
    let mut registry = sample();
    registry.remove(1, &Selector::All);
    assert_eq!(registry.add(role(10, 1, "UTC")), Ok(()));
    assert_eq!(registry.list(1), vec!["UTC".to_string()]);
}

#[test]
fn is_selected_looks_at_community_and_zone() {
    let entry = role(1, 7, "UTC");
    assert!(is_selected(&entry, 7, &Selector::All));
    assert!(!is_selected(&entry, 8, &Selector::All));
    assert!(is_selected(&entry, 7, &Selector::Specific("UTC".to_string())));
    assert!(!is_selected(&entry, 7, &Selector::Specific("Etc/UTC".to_string())));
    assert!(!is_selected(&entry, 8, &Selector::Specific("UTC".to_string())));
}

#[test]
fn duplicate_copies_every_field() {
    let entry = role(3, 4, "Asia/Seoul");
    assert_eq!(entry.duplicate(), entry);
}
