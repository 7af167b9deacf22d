use conlang_bot::channel::{check_channel_count, ConChannel, Relationship, MAX_CHANNELS};
use conlang_bot::registry::{ImportSummary, Registry, RegistryError};

fn record(id: u64, owner: u64, category: Option<u64>) -> ConChannel {
    ConChannel { id, owner, category }
}

#[test]
fn insert_then_get() {
    let mut registry = Registry::new();
    assert_eq!(registry.len(), 0);
    assert_eq!(registry.insert(record(10, 1, Some(100))), Ok(()));
    assert_eq!(registry.len(), 1);
    assert_eq!(registry.get_by_id(10), Ok(record(10, 1, Some(100))));
}

#[test]
fn insert_twice_is_a_conflict() {
    let mut registry = Registry::new();
    assert_eq!(registry.insert(record(10, 1, Some(100))), Ok(()));
    assert_eq!(registry.insert(record(10, 2, None)), Err(RegistryError::Conflict));
    assert_eq!(registry.len(), 1);
    assert_eq!(registry.get_by_id(10), Ok(record(10, 1, Some(100))));
}

#[test]
fn get_of_an_unknown_channel_is_not_found() {
    let registry = Registry::new();
    assert_eq!(registry.get_by_id(10), Err(RegistryError::NotFound));
}

#[test]
fn update_replaces_the_record() {
    let mut registry = Registry::new();
    assert_eq!(registry.insert(record(10, 1, None)), Ok(()));
    assert_eq!(registry.insert(record(11, 1, None)), Ok(()));
    assert_eq!(registry.update(record(10, 1, Some(200))), Ok(()));
    assert_eq!(registry.get_by_id(10), Ok(record(10, 1, Some(200))));
    assert_eq!(registry.get_by_id(11), Ok(record(11, 1, None)));
    assert_eq!(registry.len(), 2);
}

#[test]
fn update_of_an_unknown_channel_is_not_found() {
    let mut registry = Registry::new();
    assert_eq!(registry.update(record(10, 1, Some(200))), Err(RegistryError::NotFound));
    assert_eq!(registry.len(), 0);
}

#[test]
fn delete_returns_the_record() {
    let mut registry = Registry::new();
    assert_eq!(registry.insert(record(10, 1, Some(100))), Ok(()));
    assert_eq!(registry.insert(record(11, 2, None)), Ok(()));
    assert_eq!(registry.delete_by_id(10), Ok(record(10, 1, Some(100))));
    assert_eq!(registry.get_by_id(10), Err(RegistryError::NotFound));
    assert_eq!(registry.get_by_id(11), Ok(record(11, 2, None)));
    assert_eq!(registry.delete_by_id(10), Err(RegistryError::NotFound));
    assert_eq!(registry.len(), 1);
}

#[test]
fn list_by_owner_gives_the_owners_records() {
    let mut registry = Registry::new();
    assert_eq!(registry.insert(record(10, 1, Some(100))), Ok(()));
    assert_eq!(registry.insert(record(11, 2, None)), Ok(()));
    assert_eq!(registry.insert(record(12, 1, None)), Ok(()));
    assert_eq!(registry.list_by_owner(1), vec![record(10, 1, Some(100)), record(12, 1, None)]);
    assert_eq!(registry.list_by_owner(2), vec![record(11, 2, None)]);
    assert_eq!(registry.list_by_owner(3), vec![]);
}

#[test]
fn quota_is_two_whatever_the_categories() {
    assert_eq!(MAX_CHANNELS, 2);
    let mut registry = Registry::new();
    assert!(registry.can_create(1));
    assert_eq!(registry.insert(record(10, 1, Some(100))), Ok(()));
    assert!(registry.can_create(1));
    assert_eq!(registry.insert(record(11, 1, None)), Ok(()));
    assert!(!registry.can_create(1));
    assert_eq!(registry.list_by_owner(1).len(), 2);
    assert!(registry.can_create(2));
    assert_eq!(registry.update(record(11, 1, Some(300))), Ok(()));
    assert!(!registry.can_create(1));
    assert_eq!(registry.insert(record(12, 1, Some(100))), Ok(()));
    assert!(!registry.can_create(1));
    assert_eq!(registry.delete_by_id(10), Ok(record(10, 1, Some(100))));
    assert_eq!(registry.delete_by_id(11), Ok(record(11, 1, Some(300))));
    assert!(registry.can_create(1));
}

#[test]
fn channel_count_check() {
    assert!(check_channel_count(&vec![]));
    assert!(check_channel_count(&vec![record(1, 1, None)]));
    assert!(!check_channel_count(&vec![record(1, 1, None), record(2, 1, Some(5))]));
    assert!(!check_channel_count(&vec![
        record(1, 1, None),
        record(2, 1, None),
        record(3, 1, None)
    ]));
}

#[test]
fn bulk_insert_goes_on_past_refusals() {
    let mut registry = Registry::new();
    assert_eq!(registry.insert(record(11, 9, None)), Ok(()));
    let batch = vec![
        record(10, 1, Some(100)),
        record(11, 1, Some(100)),
        record(12, 2, Some(200)),
        record(10, 3, Some(300)),
    ];
    let summary = registry.insert_all(&batch);
    assert_eq!(summary, ImportSummary { inserted: 2, refused: 2 });
    assert_eq!(registry.len(), 3);
    assert_eq!(registry.get_by_id(10), Ok(record(10, 1, Some(100))));
    assert_eq!(registry.get_by_id(11), Ok(record(11, 9, None)));
    assert_eq!(registry.get_by_id(12), Ok(record(12, 2, Some(200))));
}

#[test]
fn owner_manager_other() {
    let channel = record(10, 1, Some(100));
    assert_eq!(channel.category(), Some(100));
    assert_eq!(channel.relationship(1, None), Relationship::Owner);
    assert_eq!(channel.relationship(1, Some(0)), Relationship::Owner);
    assert_eq!(channel.relationship(2, Some(1 << 4)), Relationship::Manager);
    assert_eq!(channel.relationship(2, Some((1 << 4) | (1 << 10))), Relationship::Manager);
    assert_eq!(channel.relationship(2, Some(1 << 10)), Relationship::Other);
    assert_eq!(channel.relationship(2, None), Relationship::Other);
    assert!(channel.check_permission(1, None));
    assert!(channel.check_permission(2, Some(1 << 4)));
    assert!(!channel.check_permission(2, Some(1 << 5)));
    assert!(!channel.check_permission(2, None));
    assert!(channel.check_permission_unboxed(1, None));
    assert!(channel.check_permission_unboxed(2, Some(u64::MAX)));
    assert!(!channel.check_permission_unboxed(2, Some(0)));
}
