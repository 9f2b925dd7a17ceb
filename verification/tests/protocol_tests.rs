use yeelight_miio::crypto::{md5_bytes, miio_encrypt_payload, miio_key_iv};
use yeelight_miio::protocol::{
    build_miio_packet, make_hello_packet, parse_hello_response, split_host_port, HandshakeAction,
    HelloHandshake,
};
use yeelight_miio::types::{default_port, MiioError, DEFAULT_MIIO_PORT};

#[test]
fn default_port_is_miio_port() {
    assert_eq!(default_port(), 54321);
    assert_eq!(DEFAULT_MIIO_PORT, 54321);
}

#[test]
fn hello_packet_layout() {
    let p = make_hello_packet();
    assert_eq!(p.len(), 32);
    assert_eq!(&p[0..4], &[0x21, 0x31, 0x00, 0x20]);
    assert!(p[4..].iter().all(|&b| b == 0xff));
}

#[test]
fn hello_packet_parses_as_broadcast_ids() {
    let h = parse_hello_response(&make_hello_packet()).unwrap();
    assert_eq!(h.device_id, [0xff; 4]);
    assert_eq!(h.stamp, 0xffff_ffff);
}

#[test]
fn hello_reply_too_short() {
    match parse_hello_response(&[0x21, 0x31, 0, 0x20]) {
        Err(MiioError::Protocol(m)) => assert_eq!(m, "hello response too short"),
        other => panic!("unexpected {:?}", other),
    }
}

#[test]
fn hello_reply_bad_magic() {
    let mut data = [0u8; 32];
    data[0] = 0x12;
    data[1] = 0x31;
    match parse_hello_response(&data) {
        Err(MiioError::Protocol(m)) => assert_eq!(m, "invalid magic in hello response"),
        other => panic!("unexpected {:?}", other),
    }
}

#[test]
fn hello_reply_fields() {
    let mut data = vec![0u8; 40];
    data[0] = 0x21;
    data[1] = 0x31;
    data[8..12].copy_from_slice(&[0x04, 0x5a, 0x1b, 0x2c]);
    data[12..16].copy_from_slice(&[0x00, 0x01, 0x02, 0x03]);
    let h = parse_hello_response(&data).unwrap();
    assert_eq!(h.device_id, [0x04, 0x5a, 0x1b, 0x2c]);
    assert_eq!(h.stamp, 0x0001_0203);
}

#[test]
fn packet_header_and_checksum() {
    let token: Vec<u8> = (0u8..16).collect();
    let payload = [0xaau8; 32];
    let packet = build_miio_packet([1, 2, 3, 4], 0x0102_0304, &token, &payload).unwrap();
    assert_eq!(packet.len(), 64);
    assert_eq!(&packet[0..16], &[0x21, 0x31, 0x00, 0x40, 0, 0, 0, 0, 1, 2, 3, 4, 1, 2, 3, 4]);
    let mut digest_input = packet[0..16].to_vec();
    digest_input.extend_from_slice(&token);
    digest_input.extend_from_slice(&payload);
    assert_eq!(&packet[16..32], &md5::compute(&digest_input).0[..]);
    assert_eq!(&packet[32..], &payload[..]);
}

#[test]
fn packet_length_field_wraps() {
    let payload = vec![0u8; 65536 - 32 + 5];
    let packet = build_miio_packet([0; 4], 0, &[0u8; 16], &payload).unwrap();
    assert_eq!(&packet[2..4], &[0x00, 0x05]);
}

#[test]
fn built_header_reads_back() {
    let packet = build_miio_packet([9, 8, 7, 6], 0xdead_beef, &[3u8; 16], b"xyz").unwrap();
    let h = parse_hello_response(&packet).unwrap();
    assert_eq!(h.device_id, [9, 8, 7, 6]);
    assert_eq!(h.stamp, 0xdead_beef);
}

#[test]
fn token_only_changes_checksum() {
    let a = build_miio_packet([1, 2, 3, 4], 10, &[0u8; 16], b"payload").unwrap();
    let b = build_miio_packet([1, 2, 3, 4], 10, &[9u8; 16], b"payload").unwrap();
    assert_eq!(a.len(), b.len());
    assert_eq!(&a[..16], &b[..16]);
    assert_eq!(&a[32..], &b[32..]);
    assert_ne!(&a[16..32], &b[16..32]);
}

#[test]
fn sealed_packet_opens_with_token() {
    let token: Vec<u8> = (100u8..116).collect();
    let (key, iv) = miio_key_iv(&token).unwrap();
    let sealed = miio_encrypt_payload(b"{\"result\":[\"ok\"]}\0\0", &key, &iv).unwrap();
    let packet = build_miio_packet([1, 1, 1, 1], 7, &token, &sealed).unwrap();
    let plain = yeelight_miio::crypto::decrypt_miio_packet(&packet, &token).unwrap();
    assert_eq!(plain, b"{\"result\":[\"ok\"]}".to_vec());
}

#[test]
fn md5_known_answers() {
    assert_eq!(
        md5_bytes(b""),
        vec![0xd4, 0x1d, 0x8c, 0xd9, 0x8f, 0x00, 0xb2, 0x04, 0xe9, 0x80, 0x09, 0x98, 0xec, 0xf8, 0x42, 0x7e]
    );
    assert_eq!(
        md5_bytes(b"abc"),
        vec![0x90, 0x01, 0x50, 0x98, 0x3c, 0xd2, 0x4f, 0xb0, 0xd6, 0x96, 0x3f, 0x7d, 0x28, 0xe1, 0x7f, 0x72]
    );
}

#[test]
fn split_host_port_cases() {
    assert_eq!(split_host_port("192.168.1.20:54321").unwrap(), ("192.168.1.20".to_string(), 54321));
    assert_eq!(split_host_port("a:b:80").unwrap(), ("a:b".to_string(), 80));
    assert_eq!(split_host_port("host:+80").unwrap(), ("host".to_string(), 80));
    assert_eq!(split_host_port(":0").unwrap(), ("".to_string(), 0));
    match split_host_port("no-port") {
        Err(MiioError::Protocol(m)) => assert_eq!(m, "invalid target address"),
        other => panic!("unexpected {:?}", other),
    }
    match split_host_port("h:65536") {
        Err(MiioError::Protocol(m)) => {
            assert_eq!(m, "invalid miIO port: number too large to fit in target type")
        }
        other => panic!("unexpected {:?}", other),
    }
    match split_host_port("h:") {
        Err(MiioError::Protocol(m)) => assert_eq!(m, "invalid miIO port: cannot parse integer from empty string"),
        other => panic!("unexpected {:?}", other),
    }
    assert!(matches!(split_host_port("h:-1"), Err(MiioError::Protocol(_))));
}

#[test]
fn address_made_from_ip_and_port_splits_back() {
    for (ip, port) in [("10.0.0.7", 54321u16), ("fe80::1", 0), ("h", 65535)] {
        let addr = format!("{ip}:{port}");
        assert_eq!(split_host_port(&addr).unwrap(), (ip.to_string(), port));
    }
}

fn reply_with(stamp: u32) -> Vec<u8> {
    let mut data = vec![0u8; 32];
    data[0] = 0x21;
    data[1] = 0x31;
    data[8..12].copy_from_slice(&[0, 0, 0, 42]);
    data[12..16].copy_from_slice(&stamp.to_be_bytes());
    data
}

#[test]
fn handshake_bad_address() {
    assert!(matches!(HelloHandshake::start("nocolon"), Err(MiioError::Protocol(_))));
}

#[test]
fn handshake_unicast_reply_ends() {
    let mut hs = HelloHandshake::start("10.0.0.5:54321").unwrap();
    assert!(matches!(hs.next_action(), HandshakeAction::SendUnicast));
    let got = hs.on_reply(&"10.9.9.9".to_string(), &reply_with(77)).unwrap().unwrap();
    assert_eq!(got.stamp, 77);
    assert_eq!(got.device_id, [0, 0, 0, 42]);
}

#[test]
fn handshake_unicast_bad_reply_is_error() {
    let mut hs = HelloHandshake::start("10.0.0.5:54321").unwrap();
    let got = hs.on_reply(&"10.0.0.5".to_string(), &[1, 2, 3]).unwrap();
    assert!(matches!(got, Err(MiioError::Protocol(_))));
}

#[test]
fn handshake_falls_back_to_broadcast_then_gives_up() {
    let mut hs = HelloHandshake::start("10.0.0.5:4321").unwrap();
    for _ in 0..3 {
        assert!(matches!(hs.next_action(), HandshakeAction::SendUnicast));
        hs.on_timeout();
    }
    assert!(matches!(hs.next_action(), HandshakeAction::SendBroadcast(4321)));
    // a reply from another device uses up the exchange
    assert!(hs.on_reply(&"10.0.0.6".to_string(), &reply_with(1)).is_none());
    assert!(matches!(hs.next_action(), HandshakeAction::SendBroadcast(4321)));
    hs.on_timeout();
    assert!(matches!(hs.next_action(), HandshakeAction::SendBroadcast(4321)));
    hs.on_timeout();
    match hs.next_action() {
        HandshakeAction::GiveUp(MiioError::Protocol(m)) => assert_eq!(
            m,
            "no miIO hello response from target device (unicast+broadcast failed). Device may block local miIO on current firmware/network mode"
        ),
        _ => panic!("expected give-up"),
    }
}

#[test]
fn handshake_broadcast_reply_from_target() {
    let mut hs = HelloHandshake::start("10.0.0.5:54321").unwrap();
    for _ in 0..3 {
        hs.on_timeout();
    }
    let got = hs.on_reply(&"10.0.0.5".to_string(), &reply_with(9)).unwrap().unwrap();
    assert_eq!(got.stamp, 9);
}
