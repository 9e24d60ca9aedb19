use aurora_kvm::discovery::{decode_announcement, encode_announcement, ServerAnnouncement};
use aurora_kvm::event::{KeyCode, KvmEvent, MouseButton};
use aurora_kvm::net::{
    decode_packet, encode_frame, encode_packet, parse_frame_len, CodecError, Packet, ScreenInfo,
    MAX_FRAME_SIZE, PROTOCOL_VERSION,
};

fn sample_screen_info() -> ScreenInfo {
    ScreenInfo {
        width: 2560,
        height: 1440,
        x: -100,
        y: 25,
        name: "atelier-étoile".to_string(),
    }
}

fn round_trip(p: Packet) {
    let bytes = encode_packet(&p);
    let back = decode_packet(&bytes);
    assert_eq!(back, Ok(p));
}

#[test]
fn heartbeat_round_trip_and_exact_bytes() {
    assert_eq!(encode_packet(&Packet::Heartbeat), vec![2u8]);
    round_trip(Packet::Heartbeat);
}

#[test]
fn pointer_move_round_trip() {
    round_trip(Packet::Event(KvmEvent::PointerMove { x: 1_919_900, y: -540_000 }));
    round_trip(Packet::Event(KvmEvent::PointerMove { x: i64::MIN, y: i64::MAX }));
}

#[test]
fn wheel_exact_bytes() {
    // Tag for an event packet, tag for a wheel event, then the two
    // deltas as big-endian two's complement.
    let bytes = encode_packet(&Packet::Event(KvmEvent::Wheel { dx: 1, dy: -1 }));
    assert_eq!(bytes, vec![1u8, 3, 0, 0, 0, 1, 255, 255, 255, 255]);
    round_trip(Packet::Event(KvmEvent::Wheel { dx: i32::MIN, dy: i32::MAX }));
}

#[test]
fn button_round_trips() {
    for button in [
        MouseButton::Left,
        MouseButton::Right,
        MouseButton::Middle,
        MouseButton::Other(7),
    ] {
        round_trip(Packet::Event(KvmEvent::Button { button, pressed: true }));
        round_trip(Packet::Event(KvmEvent::Button { button, pressed: false }));
    }
}

#[test]
fn key_round_trips() {
    for key in [
        KeyCode::Alt,
        KeyCode::Escape,
        KeyCode::KeyA,
        KeyCode::Kp9,
        KeyCode::Function,
        KeyCode::Unknown(0),
        KeyCode::Unknown(12345),
    ] {
        round_trip(Packet::Event(KvmEvent::Key { key, pressed: true }));
    }
}

#[test]
fn unknown_key_keeps_raw_code_distinct_from_named_keys() {
    // A raw platform code equal to a named key's wire index must not
    // decode to the named key.
    let p = Packet::Event(KvmEvent::Key { key: KeyCode::Unknown(0), pressed: false });
    let bytes = encode_packet(&p);
    assert_eq!(decode_packet(&bytes), Ok(p));
}

#[test]
fn handshake_round_trips() {
    round_trip(Packet::Handshake {
        version: PROTOCOL_VERSION,
        secret: Some("opensesame".to_string()),
        screen_info: Some(sample_screen_info()),
    });
    round_trip(Packet::Handshake { version: 0, secret: None, screen_info: None });
    round_trip(Packet::Handshake {
        version: u32::MAX,
        secret: Some(String::new()),
        screen_info: Some(ScreenInfo { width: 0, height: 0, x: 0, y: 0, name: String::new() }),
    });
}

#[test]
fn handshake_exact_bytes() {
    let p = Packet::Handshake { version: 1, secret: Some("ab".to_string()), screen_info: None };
    let bytes = encode_packet(&p);
    assert_eq!(
        bytes,
        vec![
            0u8, // handshake tag
            0, 0, 0, 1, // version
            1, // secret present
            0, 0, 0, 0, 0, 0, 0, 2, // secret byte length
            b'a', b'b', // secret
            0, // no screen info
        ]
    );
}

#[test]
fn decode_rejects_trailing_bytes() {
    let mut bytes = encode_packet(&Packet::Heartbeat);
    bytes.push(0);
    assert_eq!(decode_packet(&bytes), Err(CodecError::Malformed));
}

#[test]
fn decode_rejects_unknown_tag_and_truncation() {
    assert_eq!(decode_packet(&[]), Err(CodecError::Malformed));
    assert_eq!(decode_packet(&[9]), Err(CodecError::Malformed));
    // An event packet cut short.
    let bytes = encode_packet(&Packet::Event(KvmEvent::PointerMove { x: 1, y: 2 }));
    assert_eq!(decode_packet(&bytes[..bytes.len() - 1]), Err(CodecError::Malformed));
    // A boolean byte that is neither zero nor one.
    assert_eq!(decode_packet(&[1, 1, 0, 2]), Err(CodecError::Malformed));
}

#[test]
fn decode_rejects_invalid_utf8_name() {
    // Handshake, version 1, secret present with two bytes of invalid UTF-8.
    let bytes = vec![0u8, 0, 0, 0, 1, 1, 0, 0, 0, 0, 0, 0, 0, 2, 0xff, 0xfe, 0];
    assert_eq!(decode_packet(&bytes), Err(CodecError::Malformed));
}

#[test]
fn frame_len_exact_boundary() {
    // 1 048 576 is accepted...
    assert_eq!(parse_frame_len(&[0x00, 0x10, 0x00, 0x00]), Ok(1_048_576));
    // ...one more byte is not, and the payload is never read.
    assert_eq!(
        parse_frame_len(&[0x00, 0x10, 0x00, 0x01]),
        Err(CodecError::FrameTooLarge)
    );
    assert_eq!(
        parse_frame_len(&[0xff, 0xff, 0xff, 0xff]),
        Err(CodecError::FrameTooLarge)
    );
    assert_eq!(parse_frame_len(&[0, 0, 0, 0]), Ok(0));
    assert_eq!(MAX_FRAME_SIZE, 1_048_576);
}

#[test]
fn frame_carries_length_prefix() {
    let frame = encode_frame(&Packet::Heartbeat).unwrap();
    assert_eq!(frame, vec![0u8, 0, 0, 1, 2]);
    let payload = encode_packet(&Packet::Heartbeat);
    assert_eq!(frame[4..].to_vec(), payload);
    let len = parse_frame_len(&frame[..4]).unwrap();
    assert_eq!(len as usize, payload.len());
}

#[test]
fn announcement_round_trip_and_exact_bytes() {
    let a = ServerAnnouncement { name: "AuroraKVM Server".to_string(), port: 8080, version: 1 };
    let bytes = encode_announcement(&a);
    assert_eq!(decode_announcement(&bytes), Some(a.clone()));
    let mut expected = vec![0u8, 0, 0, 0, 0, 0, 0, 16];
    expected.extend_from_slice(b"AuroraKVM Server");
    expected.extend_from_slice(&[0x1f, 0x90]); // port 8080
    expected.extend_from_slice(&[0, 0, 0, 1]); // version
    assert_eq!(bytes, expected);
    // Trailing bytes make the datagram malformed.
    let mut long = bytes.clone();
    long.push(0);
    assert_eq!(decode_announcement(&long), None);
}
