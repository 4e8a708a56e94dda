use domain_service::codec::{
    decode_peer_message, decode_server_event, encode_peer_message, encode_server_event,
    DecodeError,
};
use domain_service::events::{PeerEvent, ServerEvent};
use domain_service::models::PeerId;

fn peer_round_trip(event: PeerEvent, identity_proof: Option<Vec<u8>>) -> (PeerEvent, Option<Vec<u8>>) {
    let wire = encode_peer_message(&event, &identity_proof);
    decode_peer_message(&wire).expect("an encoded message must decode")
}

fn server_round_trip(event: ServerEvent) -> ServerEvent {
    let wire = encode_server_event(&event);
    decode_server_event(&wire).expect("an encoded event must decode")
}

#[test]
fn peer_check_round_trips() {
    let (event, pr) = peer_round_trip(PeerEvent::Check, None);
    assert!(matches!(event, PeerEvent::Check));
    assert!(pr.is_none());
}

#[test]
fn peer_search_round_trips_with_proof() {
    let (event, pr) = peer_round_trip(
        PeerEvent::Search(String::from("alice")),
        Some(vec![1, 2, 3]),
    );
    match event {
        PeerEvent::Search(name) => assert_eq!(name.as_str(), "alice"),
        _ => panic!("wrong variant decoded"),
    }
    assert_eq!(pr, Some(vec![1, 2, 3]));
}

#[test]
fn peer_register_round_trips() {
    let (event, pr) = peer_round_trip(
        PeerEvent::Register(String::from("alice"), String::from("hi"), vec![0, 255, 7]),
        None,
    );
    match event {
        PeerEvent::Register(name, bio, avatar) => {
            assert_eq!(name.as_str(), "alice");
            assert_eq!(bio.as_str(), "hi");
            assert_eq!(avatar, vec![0, 255, 7]);
        },
        _ => panic!("wrong variant decoded"),
    }
    assert!(pr.is_none());
}

#[test]
fn peer_update_round_trips_with_empty_fields() {
    let (event, _) = peer_round_trip(
        PeerEvent::Update(String::from("alice"), String::from(""), vec![]),
        Some(vec![]),
    );
    match event {
        PeerEvent::Update(name, bio, avatar) => {
            assert_eq!(name.as_str(), "alice");
            assert_eq!(bio.as_str(), "");
            assert!(avatar.is_empty());
        },
        _ => panic!("wrong variant decoded"),
    }
}

#[test]
fn peer_lifecycle_events_round_trip() {
    let makers: [fn(String) -> PeerEvent; 3] =
        [PeerEvent::Suspend, PeerEvent::Active, PeerEvent::Delete];
    for make in makers {
        let (event, _) = peer_round_trip(make(String::from("alice")), None);
        match event {
            PeerEvent::Suspend(n) | PeerEvent::Active(n) | PeerEvent::Delete(n) => {
                assert_eq!(n.as_str(), "alice")
            },
            _ => panic!("wrong variant decoded"),
        }
    }
}

#[test]
fn peer_request_round_trips() {
    let (event, _) = peer_round_trip(
        PeerEvent::Request(String::from("a"), String::from("b"), String::from("mark")),
        None,
    );
    match event {
        PeerEvent::Request(a, b, remark) => {
            assert_eq!(a.as_str(), "a");
            assert_eq!(b.as_str(), "b");
            assert_eq!(remark.as_str(), "mark");
        },
        _ => panic!("wrong variant decoded"),
    }
}

#[test]
fn non_ascii_text_round_trips_exactly() {
    let name = String::from("\u{3059}\u{305A}\u{304D}-\u{03A9}-\u{1F600}");
    let (event, _) = peer_round_trip(PeerEvent::Search(name.clone()), None);
    match event {
        PeerEvent::Search(n) => assert_eq!(n, name),
        _ => panic!("wrong variant decoded"),
    }
}

#[test]
fn server_events_round_trip() {
    match server_round_trip(ServerEvent::Status(String::from("domain.esse"), true)) {
        ServerEvent::Status(name, proxy) => {
            assert_eq!(name.as_str(), "domain.esse");
            assert!(proxy);
        },
        _ => panic!("wrong variant decoded"),
    }
    match server_round_trip(ServerEvent::Info(
        PeerId::new(vec![1, 2]),
        String::from("alice"),
        String::from("hi"),
        vec![9],
    )) {
        ServerEvent::Info(pid, name, bio, avatar) => {
            assert_eq!(pid.bytes, vec![1, 2]);
            assert_eq!(name.as_str(), "alice");
            assert_eq!(bio.as_str(), "hi");
            assert_eq!(avatar, vec![9]);
        },
        _ => panic!("wrong variant decoded"),
    }
    match server_round_trip(ServerEvent::NotFound(String::from("alice"))) {
        ServerEvent::NotFound(name) => assert_eq!(name.as_str(), "alice"),
        _ => panic!("wrong variant decoded"),
    }
    match server_round_trip(ServerEvent::RegisterResult(String::from("alice"), false)) {
        ServerEvent::RegisterResult(name, ok) => {
            assert_eq!(name.as_str(), "alice");
            assert!(!ok);
        },
        _ => panic!("wrong variant decoded"),
    }
    match server_round_trip(ServerEvent::Actived(String::from("alice"), true)) {
        ServerEvent::Actived(name, actived) => {
            assert_eq!(name.as_str(), "alice");
            assert!(actived);
        },
        _ => panic!("wrong variant decoded"),
    }
    match server_round_trip(ServerEvent::Deleted(String::from("alice"))) {
        ServerEvent::Deleted(name) => assert_eq!(name.as_str(), "alice"),
        _ => panic!("wrong variant decoded"),
    }
}

#[test]
fn empty_buffer_is_rejected() {
    assert!(matches!(decode_peer_message(&vec![]), Err(DecodeError::Malformed)));
    assert!(matches!(decode_server_event(&vec![]), Err(DecodeError::Malformed)));
}

#[test]
fn unknown_tag_is_rejected() {
    assert!(decode_peer_message(&vec![99]).is_err());
    assert!(decode_server_event(&vec![99]).is_err());
}

#[test]
fn truncated_message_is_rejected() {
    let wire = encode_peer_message(&PeerEvent::Search(String::from("alice")), &None);
    let cut = wire[..wire.len() - 1].to_vec();
    assert!(decode_peer_message(&cut).is_err());
    // A length prefix pointing past the end is rejected too.
    assert!(decode_peer_message(&vec![1, 255, 0, 0, 0, 0, 0, 0, 0]).is_err());
}

#[test]
fn trailing_bytes_are_rejected() {
    let mut wire = encode_peer_message(&PeerEvent::Check, &None);
    wire.push(0);
    assert!(decode_peer_message(&wire).is_err());
    let mut wire = encode_server_event(&ServerEvent::Deleted(String::from("a")));
    wire.push(0);
    assert!(decode_server_event(&wire).is_err());
}

#[test]
fn invalid_utf8_in_text_field_is_rejected() {
    // Search tag, a one-byte text whose byte is not valid UTF-8.
    let wire: Vec<u8> = vec![1, 1, 0, 0, 0, 0, 0, 0, 0, 0xFF, 0];
    assert!(matches!(decode_peer_message(&wire), Err(DecodeError::Malformed)));
}

#[test]
fn bad_marker_bytes_are_rejected() {
    // Check event followed by proof marker 2.
    assert!(decode_peer_message(&vec![0, 2]).is_err());
    // Status with a boolean byte of 2: tag, empty text, then 2.
    let wire: Vec<u8> = vec![0, 0, 0, 0, 0, 0, 0, 0, 0, 2];
    assert!(decode_server_event(&wire).is_err());
}
