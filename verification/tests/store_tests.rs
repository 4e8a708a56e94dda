use domain_service::models::{PeerId, User};
use domain_service::store::{StoreError, UserStore};

fn peer(b: &[u8]) -> PeerId {
    PeerId::new(b.to_vec())
}

fn record(name: &str, owner: &[u8], bio: &str, avatar: &[u8]) -> User {
    User::new(
        String::from(name),
        peer(owner),
        String::from(bio),
        avatar.to_vec(),
        1700000000,
    )
}

#[test]
fn insert_assigns_monotonic_ids() {
    let mut store = UserStore::new();
    let a = store.insert(record("alice", &[1], "hi", &[])).unwrap();
    let b = store.insert(record("bob", &[2], "yo", &[7, 8])).unwrap();
    assert_eq!(a, 1);
    assert_eq!(b, 2);
    assert_eq!(store.count(), 2);
}

#[test]
fn insert_rejects_duplicate_living_name() {
    let mut store = UserStore::new();
    store.insert(record("alice", &[1], "hi", &[])).unwrap();
    let second = store.insert(record("alice", &[2], "other", &[9]));
    assert_eq!(second, Err(StoreError::DuplicateName));
    // The original record is untouched.
    let found = store.get_by_name(&String::from("alice")).unwrap();
    assert_eq!(found.bio.as_str(), "hi");
    assert_eq!(found.pid.bytes, vec![1u8]);
}

#[test]
fn deleted_name_may_be_registered_again_with_fresh_id() {
    let mut store = UserStore::new();
    let first = store.insert(record("alice", &[1], "hi", &[])).unwrap();
    store.delete(first);
    let second = store.insert(record("alice", &[2], "new owner", &[])).unwrap();
    assert_eq!(second, 2, "a deleted record's id is never reassigned");
    let found = store.get_by_name(&String::from("alice")).unwrap();
    assert_eq!(found.pid.bytes, vec![2u8]);
}

#[test]
fn search_sees_only_active_records() {
    let mut store = UserStore::new();
    let id = store.insert(record("alice", &[1], "hi", &[3])).unwrap();
    assert!(store.search(&String::from("alice")).is_some());
    store.active(id, false);
    assert!(store.search(&String::from("alice")).is_none());
    // Suspended records are still reachable for their owner's mutations.
    assert!(store.get_by_name(&String::from("alice")).is_some());
    store.active(id, true);
    assert!(store.search(&String::from("alice")).is_some());
}

#[test]
fn delete_hides_record_and_clears_avatar() {
    let mut store = UserStore::new();
    let id = store.insert(record("alice", &[1], "hi", &[1, 2, 3])).unwrap();
    store.delete(id);
    assert!(store.search(&String::from("alice")).is_none());
    assert!(store.get_by_name(&String::from("alice")).is_none());
    assert!(store.get_by_id(id).is_none());
    // The row is retained: the id still counts.
    assert_eq!(store.count(), 1);
}

#[test]
fn get_by_id_finds_non_deleted_rows() {
    let mut store = UserStore::new();
    let id = store.insert(record("alice", &[1], "hi", &[])).unwrap();
    let found = store.get_by_id(id).unwrap();
    assert_eq!(found.name.as_str(), "alice");
    assert!(store.get_by_id(0).is_none());
    assert!(store.get_by_id(2).is_none());
}

#[test]
fn update_replaces_bio_and_avatar_in_place() {
    let mut store = UserStore::new();
    let id = store.insert(record("alice", &[1], "hi", &[1])).unwrap();
    store.update(id, &String::from("hello"), &vec![4, 5]);
    let found = store.get_by_name(&String::from("alice")).unwrap();
    assert_eq!(found.bio.as_str(), "hello");
    assert_eq!(found.avatar, vec![4, 5]);
    assert_eq!(found.id, id);
    // Updating an absent id changes nothing.
    store.update(99, &String::from("x"), &vec![]);
    assert_eq!(store.count(), 1);
}

#[test]
fn list_returns_non_deleted_in_id_order() {
    let mut store = UserStore::new();
    store.insert(record("alice", &[1], "a", &[])).unwrap();
    let b = store.insert(record("bob", &[2], "b", &[])).unwrap();
    store.insert(record("carol", &[3], "c", &[])).unwrap();
    store.delete(b);
    let rows = store.list();
    assert_eq!(rows.len(), 2);
    assert_eq!(rows[0].name.as_str(), "alice");
    assert_eq!(rows[0].id, 1);
    assert_eq!(rows[1].name.as_str(), "carol");
    assert_eq!(rows[1].id, 3);
}

#[test]
fn empty_avatar_is_stored_as_such() {
    let mut store = UserStore::new();
    store.insert(record("alice", &[1], "hi", &[])).unwrap();
    let found = store.search(&String::from("alice")).unwrap();
    assert_eq!(found.avatar, Vec::<u8>::new());
}
