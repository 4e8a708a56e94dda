use domain_service::events::{Outgoing, PeerEvent, ServerEvent};
use domain_service::layer::Layer;
use domain_service::models::PeerId;
use domain_service::store::UserStore;

const NOW: i64 = 1700000000;

fn peer(b: &[u8]) -> PeerId {
    PeerId::new(b.to_vec())
}

fn service() -> Layer {
    Layer::with_proof_policy(String::from("domain.esse"), peer(&[9, 9]), true, false)
}

fn dispatch(layer: &Layer, store: &mut UserStore, addr: &[u8], event: PeerEvent) -> Vec<Outgoing> {
    let addr = peer(addr);
    layer.handle(store, &addr, event, true, NOW)
}

fn register(name: &str, bio: &str, avatar: &[u8]) -> PeerEvent {
    PeerEvent::Register(String::from(name), String::from(bio), avatar.to_vec())
}

fn expect_register_result(out: &[Outgoing], name: &str, ok: bool) {
    assert_eq!(out.len(), 1);
    match &out[0].event {
        ServerEvent::RegisterResult(n, flag) => {
            assert_eq!(n.as_str(), name);
            assert_eq!(*flag, ok);
        },
        _ => panic!("expected a RegisterResult response"),
    }
}

fn expect_info(out: &[Outgoing], owner: &[u8], name: &str, bio: &str, avatar: &[u8]) {
    assert_eq!(out.len(), 1);
    match &out[0].event {
        ServerEvent::Info(pid, n, b, a) => {
            assert_eq!(pid.bytes, owner.to_vec());
            assert_eq!(n.as_str(), name);
            assert_eq!(b.as_str(), bio);
            assert_eq!(a, &avatar.to_vec());
        },
        _ => panic!("expected an Info response"),
    }
}

fn expect_not_found(out: &[Outgoing], name: &str) {
    assert_eq!(out.len(), 1);
    match &out[0].event {
        ServerEvent::NotFound(n) => assert_eq!(n.as_str(), name),
        _ => panic!("expected a NotFound response"),
    }
}

fn expect_deleted(out: &[Outgoing], name: &str) {
    assert_eq!(out.len(), 1);
    match &out[0].event {
        ServerEvent::Deleted(n) => assert_eq!(n.as_str(), name),
        _ => panic!("expected a Deleted response"),
    }
}

#[test]
fn check_reports_service_status() {
    let layer = service();
    let mut store = UserStore::new();
    let out = dispatch(&layer, &mut store, &[1], PeerEvent::Check);
    assert_eq!(out.len(), 1);
    assert_eq!(out[0].dest.bytes, vec![1u8]);
    match &out[0].event {
        ServerEvent::Status(name, proxy) => {
            assert_eq!(name.as_str(), "domain.esse");
            assert!(*proxy);
        },
        _ => panic!("expected a Status response"),
    }
}

#[test]
fn scenario_register_search_update_delete() {
    let layer = service();
    let mut store = UserStore::new();

    // Register("alice", "hi", []) by the first peer succeeds.
    let out = dispatch(&layer, &mut store, &[1], register("alice", "hi", &[]));
    expect_register_result(&out, "alice", true);

    // Search("alice") finds the submitted profile.
    let out = dispatch(&layer, &mut store, &[2], PeerEvent::Search(String::from("alice")));
    expect_info(&out, &[1], "alice", "hi", &[]);

    // Update by another peer: no response, record unchanged.
    let out = dispatch(
        &layer,
        &mut store,
        &[2],
        PeerEvent::Update(String::from("alice"), String::from("hello"), vec![1, 2]),
    );
    assert!(out.is_empty());
    let out = dispatch(&layer, &mut store, &[2], PeerEvent::Search(String::from("alice")));
    expect_info(&out, &[1], "alice", "hi", &[]);

    // Update by the owner replaces the bio.
    let out = dispatch(
        &layer,
        &mut store,
        &[1],
        PeerEvent::Update(String::from("alice"), String::from("hello"), vec![1, 2]),
    );
    assert!(out.is_empty());
    let out = dispatch(&layer, &mut store, &[2], PeerEvent::Search(String::from("alice")));
    expect_info(&out, &[1], "alice", "hello", &[1, 2]);

    // Delete by the owner is acknowledged; the name resolves no more.
    let out = dispatch(&layer, &mut store, &[1], PeerEvent::Delete(String::from("alice")));
    expect_deleted(&out, "alice");
    let out = dispatch(&layer, &mut store, &[2], PeerEvent::Search(String::from("alice")));
    expect_not_found(&out, "alice");
}

#[test]
fn second_register_of_living_name_fails_and_changes_nothing() {
    let layer = service();
    let mut store = UserStore::new();
    let out = dispatch(&layer, &mut store, &[1], register("alice", "hi", &[5]));
    expect_register_result(&out, "alice", true);
    let out = dispatch(&layer, &mut store, &[2], register("alice", "mine now", &[6]));
    expect_register_result(&out, "alice", false);
    let out = dispatch(&layer, &mut store, &[3], PeerEvent::Search(String::from("alice")));
    expect_info(&out, &[1], "alice", "hi", &[5]);
}

#[test]
fn non_owner_mutations_leave_record_untouched() {
    let layer = service();
    let mut store = UserStore::new();
    dispatch(&layer, &mut store, &[1], register("alice", "hi", &[5]));

    let out = dispatch(
        &layer,
        &mut store,
        &[2],
        PeerEvent::Update(String::from("alice"), String::from("x"), vec![9]),
    );
    assert!(out.is_empty());
    let out = dispatch(&layer, &mut store, &[2], PeerEvent::Suspend(String::from("alice")));
    assert!(out.is_empty());
    let out = dispatch(&layer, &mut store, &[2], PeerEvent::Active(String::from("alice")));
    assert!(out.is_empty());
    let out = dispatch(&layer, &mut store, &[2], PeerEvent::Delete(String::from("alice")));
    expect_deleted(&out, "alice");

    // Byte for byte as registered.
    let out = dispatch(&layer, &mut store, &[3], PeerEvent::Search(String::from("alice")));
    expect_info(&out, &[1], "alice", "hi", &[5]);
}

#[test]
fn suspend_and_activate_toggle_search_visibility() {
    let layer = service();
    let mut store = UserStore::new();
    dispatch(&layer, &mut store, &[1], register("alice", "hi", &[]));

    let out = dispatch(&layer, &mut store, &[1], PeerEvent::Suspend(String::from("alice")));
    assert_eq!(out.len(), 1);
    match &out[0].event {
        ServerEvent::Actived(n, actived) => {
            assert_eq!(n.as_str(), "alice");
            assert!(!*actived);
        },
        _ => panic!("expected an Actived response"),
    }
    let out = dispatch(&layer, &mut store, &[2], PeerEvent::Search(String::from("alice")));
    expect_not_found(&out, "alice");

    let out = dispatch(&layer, &mut store, &[1], PeerEvent::Active(String::from("alice")));
    assert_eq!(out.len(), 1);
    match &out[0].event {
        ServerEvent::Actived(n, actived) => {
            assert_eq!(n.as_str(), "alice");
            assert!(*actived);
        },
        _ => panic!("expected an Actived response"),
    }
    let out = dispatch(&layer, &mut store, &[2], PeerEvent::Search(String::from("alice")));
    expect_info(&out, &[1], "alice", "hi", &[]);
}

#[test]
fn delete_is_idempotent() {
    let layer = service();
    let mut store = UserStore::new();
    dispatch(&layer, &mut store, &[1], register("alice", "hi", &[1]));

    let first = dispatch(&layer, &mut store, &[1], PeerEvent::Delete(String::from("alice")));
    expect_deleted(&first, "alice");
    let second = dispatch(&layer, &mut store, &[1], PeerEvent::Delete(String::from("alice")));
    expect_deleted(&second, "alice");
    // Deleting a name that never existed is acknowledged too.
    let third = dispatch(&layer, &mut store, &[1], PeerEvent::Delete(String::from("bob")));
    expect_deleted(&third, "bob");
}

#[test]
fn avatar_bytes_round_trip_through_register_update_search() {
    let layer = service();
    let mut store = UserStore::new();
    let avatar: Vec<u8> = vec![0, 255, 128, 7];
    dispatch(&layer, &mut store, &[1], register("alice", "hi", &avatar));
    let out = dispatch(&layer, &mut store, &[2], PeerEvent::Search(String::from("alice")));
    expect_info(&out, &[1], "alice", "hi", &avatar);

    // The empty avatar is a legal, distinct state and comes back empty.
    let out = dispatch(
        &layer,
        &mut store,
        &[1],
        PeerEvent::Update(String::from("alice"), String::from("hi"), vec![]),
    );
    assert!(out.is_empty());
    let out = dispatch(&layer, &mut store, &[2], PeerEvent::Search(String::from("alice")));
    expect_info(&out, &[1], "alice", "hi", &[]);
}

#[test]
fn request_events_are_ignored() {
    let layer = service();
    let mut store = UserStore::new();
    let out = dispatch(
        &layer,
        &mut store,
        &[1],
        PeerEvent::Request(String::from("a"), String::from("b"), String::from("hello")),
    );
    assert!(out.is_empty());
    assert_eq!(store.count(), 0);
}

#[test]
fn unverified_events_are_dropped_when_proofs_are_required() {
    let strict = Layer::new(String::from("domain.esse"), peer(&[9]), true);
    let mut store = UserStore::new();
    let addr = peer(&[1]);
    let out = strict.handle(&mut store, &addr, register("alice", "hi", &[]), false, NOW);
    assert!(out.is_empty());
    assert_eq!(store.count(), 0);
    // With a positive verdict the same event is dispatched.
    let out = strict.handle(&mut store, &addr, register("alice", "hi", &[]), true, NOW);
    expect_register_result(&out, "alice", true);
}
