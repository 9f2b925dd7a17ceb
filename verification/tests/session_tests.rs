use serde_json::Value;
use yeelight_miio::commands::{build_command_payload, command_id, MiioSession};
use yeelight_miio::crypto::{decrypt_miio_packet, miio_encrypt_payload};
use yeelight_miio::network::{diagnostics_target, udp_hello_probe_result, BroadcastScan};
use yeelight_miio::protocol::{build_miio_packet, parse_hello_response};
use yeelight_miio::types::{DiagnosticsRequest, HelloResponse, MiioError};

const TOKEN: &str = "0f1e2d3c4b5a69788796a5b4c3d2e1f0";

fn serde_payload(id: u32, method: &str, params: Value) -> Vec<u8> {
    let mut obj = serde_json::Map::new();
    obj.insert("id".to_string(), Value::from(id));
    obj.insert("method".to_string(), Value::from(method));
    obj.insert("params".to_string(), params);
    let mut v = serde_json::to_vec(&Value::Object(obj)).unwrap();
    v.push(0);
    v
}

#[test]
fn payload_matches_serde_json() {
    let params = Value::Array(vec![Value::from("power"), Value::from("bright")]);
    let text = serde_json::to_string(&params).unwrap();
    let built = build_command_payload(42, "get_prop", &text).unwrap();
    assert_eq!(built, b"{\"id\":42,\"method\":\"get_prop\",\"params\":[\"power\",\"bright\"]}\0".to_vec());
    assert_eq!(built, serde_payload(42, "get_prop", params));
}

#[test]
fn payload_escapes_method() {
    let method = "a\"b\\c\nd\u{1}e\u{7f}é";
    let built = build_command_payload(9998, method, "[]").unwrap();
    assert_eq!(built, serde_payload(9998, method, Value::Array(vec![])));
    assert_eq!(
        built,
        "{\"id\":9998,\"method\":\"a\\\"b\\\\c\\nd\\u0001e\u{7f}é\",\"params\":[]}\0".as_bytes().to_vec()
    );
}

#[test]
fn command_ids() {
    assert_eq!(command_id(0), 1);
    assert_eq!(command_id(9997), 9998);
    assert_eq!(command_id(9998), 1);
    assert_eq!(command_id(u64::MAX), (u64::MAX % 9998 + 1) as u32);
}

#[test]
fn session_rejects_bad_tokens() {
    assert!(matches!(MiioSession::open("abc"), Err(MiioError::InvalidToken)));
    assert!(matches!(MiioSession::open("gg1e2d3c4b5a69788796a5b4c3d2e1f0"), Err(MiioError::InvalidTokenHex(_))));
    assert!(matches!(MiioSession::open("+f1e2d3c4b5a69788796a5b4c3d2e1f0"), Err(MiioError::InvalidTokenHex(_))));
}

#[test]
fn command_packet_carries_payload() {
    let session = MiioSession::open(TOKEN).unwrap();
    let hello = HelloResponse { device_id: [0, 1, 2, 3], stamp: 1000 };
    let packet = session.command_packet("set_power", "[\"on\"]", &hello, 5).unwrap();
    let header = parse_hello_response(&packet).unwrap();
    assert_eq!(header.device_id, [0, 1, 2, 3]);
    assert_eq!(header.stamp, 1001);
    let plain = decrypt_miio_packet(&packet, session.token()).unwrap();
    assert_eq!(plain, b"{\"id\":6,\"method\":\"set_power\",\"params\":[\"on\"]}".to_vec());
}

#[test]
fn command_packet_stamp_wraps() {
    let session = MiioSession::open(TOKEN).unwrap();
    let hello = HelloResponse { device_id: [9; 4], stamp: u32::MAX };
    let packet = session.command_packet("x", "[]", &hello, 0).unwrap();
    assert_eq!(parse_hello_response(&packet).unwrap().stamp, 0);
}

fn device_answer(session: &MiioSession, body: &[u8]) -> Vec<u8> {
    let sealed = miio_encrypt_payload(body, session.key(), session.iv()).unwrap();
    build_miio_packet([1, 2, 3, 4], 55, session.token(), &sealed).unwrap()
}

#[test]
fn response_with_json() {
    let session = MiioSession::open(TOKEN).unwrap();
    let answer = device_answer(&session, b"{\"id\":6,\"result\":[\"ok\"]}\0");
    let response = session.read_response(&answer).unwrap();
    assert_eq!(response.raw, "{\"id\":6,\"result\":[\"ok\"]}");
    let json = response.json.unwrap();
    assert_eq!(json["result"][0], Value::from("ok"));
}

#[test]
fn response_not_json() {
    let session = MiioSession::open(TOKEN).unwrap();
    let answer = device_answer(&session, b"ok\xff");
    let response = session.read_response(&answer).unwrap();
    assert_eq!(response.raw, "ok\u{fffd}");
    assert!(response.json.is_none());
}

#[test]
fn response_errors() {
    let session = MiioSession::open(TOKEN).unwrap();
    match session.read_response(&[0u8; 10]) {
        Err(MiioError::Protocol(m)) => assert_eq!(m, "response too short"),
        other => panic!("unexpected {:?}", other),
    }
    match session.read_response(&[0u8; 48]) {
        Err(MiioError::Crypto(m)) => assert_eq!(m, "failed to decrypt response: Unpad Error"),
        other => panic!("unexpected {:?}", other),
    }
    assert!(matches!(session.read_response(&[0u8; 50]), Err(MiioError::Crypto(_))));
    let empty = session.read_response(&[0u8; 32]).unwrap();
    assert_eq!(empty.raw, "");
    assert!(empty.json.is_none());
}

#[test]
fn diagnostics_target_trims() {
    let req = DiagnosticsRequest { ip: "  192.168.0.9\t".to_string(), port: 54321 };
    assert_eq!(diagnostics_target(&req).unwrap(), "192.168.0.9");
    let empty = DiagnosticsRequest { ip: " \n ".to_string(), port: 54321 };
    match diagnostics_target(&empty) {
        Err(MiioError::Protocol(m)) => assert_eq!(m, "missing ip"),
        other => panic!("unexpected {:?}", other),
    }
}

fn hello_reply(did: u32, stamp: u32) -> Vec<u8> {
    let mut data = vec![0u8; 32];
    data[0] = 0x21;
    data[1] = 0x31;
    data[8..12].copy_from_slice(&did.to_be_bytes());
    data[12..16].copy_from_slice(&stamp.to_be_bytes());
    data
}

#[test]
fn unicast_probe_results() {
    let ok = udp_hello_probe_result(&hello_reply(0x0102_0304, 99));
    assert!(ok.ok);
    assert_eq!(ok.did, Some(0x0102_0304));
    assert_eq!(ok.stamp, Some(99));
    assert!(ok.error.is_none());
    let bad = udp_hello_probe_result(&[1, 2]);
    assert!(!bad.ok);
    assert_eq!(bad.error.as_deref(), Some("protocol error: hello response too short"));
    assert!(bad.did.is_none() && bad.stamp.is_none());
}

#[test]
fn broadcast_scan_lists_each_device_once() {
    let mut scan = BroadcastScan::new("10.0.0.2".to_string());
    scan.record_reply(&"10.0.0.3".to_string(), &hello_reply(7, 1));
    scan.record_reply(&"10.0.0.3".to_string(), &hello_reply(7, 2));
    scan.record_reply(&"10.0.0.4".to_string(), &hello_reply(7, 3));
    scan.record_reply(&"10.0.0.3".to_string(), &hello_reply(8, 4));
    scan.record_reply(&"10.0.0.2".to_string(), b"garbage");
    assert!(!scan.target_seen());
    let result = scan.finish();
    assert!(result.ok);
    assert!(result.error.is_none());
    let seen: Vec<(String, u32, u32)> = result.devices_seen.iter().map(|d| (d.ip.clone(), d.did, d.stamp)).collect();
    assert_eq!(
        seen,
        vec![("10.0.0.3".to_string(), 7, 1), ("10.0.0.4".to_string(), 7, 3), ("10.0.0.3".to_string(), 8, 4)]
    );
}

#[test]
fn broadcast_scan_target_and_empty() {
    let mut scan = BroadcastScan::new("10.0.0.2".to_string());
    scan.record_reply(&"10.0.0.2".to_string(), &hello_reply(1, 1));
    assert!(scan.target_seen());
    let empty = BroadcastScan::new("10.0.0.2".to_string()).finish();
    assert!(!empty.ok);
    assert!(!empty.target_seen);
    assert_eq!(
        empty.error.as_deref(),
        Some("no miIO hello replies observed on LAN broadcast during scan window")
    );
}

#[test]
fn error_messages() {
    assert_eq!(MiioError::InvalidToken.message(), "invalid token: expected 32 hex characters");
    assert_eq!(MiioError::Protocol("x".to_string()).message(), "protocol error: x");
    assert_eq!(MiioError::Crypto("y".to_string()).message(), "crypto error: y");
    let json_err = serde_json::from_str::<Value>("{").unwrap_err();
    assert!(MiioError::Json(json_err).message().starts_with("json error: "));
}

#[test]
fn clock_reads_after_epoch() {
    assert!(yeelight_miio::network::current_unix_ts() > 1_600_000_000);
}
