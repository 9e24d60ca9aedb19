use aurora_kvm::client::{event_of_packet, event_packet, make_handshake};
use aurora_kvm::connected::{ConnectedClient, Roster};
use aurora_kvm::event::KvmEvent;
use aurora_kvm::net::{Packet, ScreenInfo, PROTOCOL_VERSION};
use aurora_kvm::server::{validate_handshake, HandshakeError};

fn info(name: &str) -> ScreenInfo {
    ScreenInfo { width: 1920, height: 1080, x: 0, y: 0, name: name.to_string() }
}

fn handshake(version: u32, secret: Option<&str>) -> Packet {
    Packet::Handshake {
        version,
        secret: secret.map(|s| s.to_string()),
        screen_info: Some(info("laptop")),
    }
}

#[test]
fn server_with_secret_accepts_matching_secret_only() {
    let expected = Some("hunter".to_string());
    assert!(validate_handshake(&expected, &handshake(1, Some("hunter"))).is_ok());
    assert_eq!(
        validate_handshake(&expected, &handshake(1, Some("other"))),
        Err(HandshakeError::SecretMismatch)
    );
    assert_eq!(
        validate_handshake(&expected, &handshake(1, None)),
        Err(HandshakeError::SecretMismatch)
    );
}

#[test]
fn server_without_secret_accepts_any() {
    assert!(validate_handshake(&None, &handshake(1, None)).is_ok());
    assert!(validate_handshake(&None, &handshake(1, Some("whatever"))).is_ok());
}

#[test]
fn version_mismatch_closes_and_leaves_roster_alone() {
    let mut roster = Roster::new();
    roster.insert(ConnectedClient { addr: "192.168.1.9:4000".to_string(), screen_info: info("a") });
    let before = roster.len();
    // A client speaking version zero is refused; nothing is registered.
    let p = handshake(0, None);
    let r = validate_handshake(&None, &p);
    assert_eq!(r, Err(HandshakeError::VersionMismatch));
    assert_eq!(roster.len(), before);
}

#[test]
fn version_check_precedes_secret_check() {
    let expected = Some("hunter".to_string());
    assert_eq!(
        validate_handshake(&expected, &handshake(0, Some("wrong"))),
        Err(HandshakeError::VersionMismatch)
    );
}

#[test]
fn non_handshake_first_packet_is_refused() {
    assert_eq!(
        validate_handshake(&None, &Packet::Heartbeat),
        Err(HandshakeError::NotHandshake)
    );
    assert_eq!(
        validate_handshake(&None, &Packet::Event(KvmEvent::Wheel { dx: 0, dy: 0 })),
        Err(HandshakeError::NotHandshake)
    );
}

#[test]
fn accepted_handshake_hands_back_screen_info() {
    let p = handshake(PROTOCOL_VERSION, None);
    match validate_handshake(&None, &p) {
        Ok(Some(si)) => assert_eq!(si.name, "laptop"),
        other => panic!("expected the advertised screen, got {:?}", other),
    }
    let bare = Packet::Handshake { version: PROTOCOL_VERSION, secret: None, screen_info: None };
    assert_eq!(validate_handshake(&None, &bare), Ok(None));
}

#[test]
fn client_handshake_carries_version_and_screen() {
    let p = make_handshake(Some("hunter".to_string()), Some(info("desk")));
    match p {
        Packet::Handshake { version, secret, screen_info } => {
            assert_eq!(version, PROTOCOL_VERSION);
            assert_eq!(secret.as_deref(), Some("hunter"));
            assert_eq!(screen_info.unwrap().name, "desk");
        }
        other => panic!("expected a handshake, got {:?}", other),
    }
}

#[test]
fn client_injects_events_and_ignores_the_rest() {
    let e = KvmEvent::PointerMove { x: 5_000, y: 6_000 };
    assert_eq!(event_of_packet(&Packet::Event(e)), Some(e));
    assert_eq!(event_of_packet(&Packet::Heartbeat), None);
    assert_eq!(
        event_of_packet(&Packet::Handshake { version: 1, secret: None, screen_info: None }),
        None
    );
    assert_eq!(event_packet(e), Packet::Event(e));
}

#[test]
fn roster_insert_replace_remove() {
    let mut roster = Roster::new();
    assert_eq!(roster.len(), 0);
    let a = "192.168.1.9:4000".to_string();
    let b = "192.168.1.10:4000".to_string();
    roster.insert(ConnectedClient { addr: a.clone(), screen_info: info("one") });
    roster.insert(ConnectedClient { addr: b.clone(), screen_info: info("two") });
    assert_eq!(roster.len(), 2);
    // Re-registering the same address replaces its entry.
    roster.insert(ConnectedClient { addr: a.clone(), screen_info: info("three") });
    assert_eq!(roster.len(), 2);
    assert_eq!(roster.get(&a).unwrap().screen_info.name, "three");
    assert_eq!(roster.get(&b).unwrap().screen_info.name, "two");
    roster.remove(&a);
    assert_eq!(roster.len(), 1);
    assert!(roster.get(&a).is_none());
    // Removing an absent address is harmless.
    roster.remove(&a);
    assert_eq!(roster.len(), 1);
}
