use domain_service::layer::Layer;
use domain_service::models::{PeerId, User};
use domain_service::rpc::{list_users, status};
use domain_service::store::UserStore;

#[test]
fn peer_id_renders_as_lower_case_hex() {
    let pid = PeerId::new(vec![0x00, 0x0F, 0xA0, 0xFF]);
    assert_eq!(pid.to_hex().as_str(), "000fa0ff");
    assert_eq!(PeerId::new(vec![]).to_hex().as_str(), "");
}

#[test]
fn peer_id_equality_is_byte_for_byte() {
    let a = PeerId::new(vec![1, 2]);
    let b = PeerId::new(vec![1, 2]);
    let c = PeerId::new(vec![1, 2, 3]);
    let d = PeerId::new(vec![1, 3]);
    assert!(a.equals(&b));
    assert!(!a.equals(&c));
    assert!(!a.equals(&d));
}

#[test]
fn status_reports_name_address_and_proxy_flag() {
    let layer = Layer::new(String::from("domain.esse"), PeerId::new(vec![0xAB, 0x01]), true);
    let info = status(&layer);
    assert_eq!(info.name.as_str(), "domain.esse");
    assert_eq!(info.peer_id_hex.as_str(), "ab01");
    assert!(info.proxy);
}

#[test]
fn list_users_rows_carry_id_name_hex_owner_and_flags() {
    let mut store = UserStore::new();
    store
        .insert(User::new(
            String::from("alice"),
            PeerId::new(vec![0x01, 0x2C]),
            String::from("hi"),
            vec![5],
            1700000001,
        ))
        .unwrap();
    let bob = store
        .insert(User::new(
            String::from("bob"),
            PeerId::new(vec![0xFF]),
            String::from("yo"),
            vec![],
            1700000002,
        ))
        .unwrap();
    store.active(bob, false);
    let rows = list_users(&store);
    assert_eq!(rows.len(), 2);
    assert_eq!(rows[0].id, 1);
    assert_eq!(rows[0].name.as_str(), "alice");
    assert_eq!(rows[0].pid_hex.as_str(), "012c");
    assert!(rows[0].is_actived);
    assert_eq!(rows[0].datetime, 1700000001);
    // Suspended records are listed, deleted ones are not.
    assert_eq!(rows[1].name.as_str(), "bob");
    assert!(!rows[1].is_actived);
    store.delete(bob);
    let rows = list_users(&store);
    assert_eq!(rows.len(), 1);
}

#[test]
fn user_to_rpc_row_mirrors_the_record() {
    let user = User::new(
        String::from("alice"),
        PeerId::new(vec![0xAA]),
        String::from("hi"),
        vec![1],
        42,
    );
    let row = user.to_rpc();
    assert_eq!(row.id, 0, "a fresh record has no store id yet");
    assert_eq!(row.name.as_str(), "alice");
    assert_eq!(row.pid_hex.as_str(), "aa");
    assert!(row.is_actived);
    assert_eq!(row.datetime, 42);
}
