use yeelight_miio::crypto::{
    decrypt_miio_packet, md5_bytes, miio_encrypt_payload, miio_key_iv, parse_token_hex,
};
use yeelight_miio::types::MiioError;

fn hex(s: &str) -> Vec<u8> {
    (0..s.len()).step_by(2).map(|i| u8::from_str_radix(&s[i..i + 2], 16).unwrap()).collect()
}

#[test]
fn token_parses() {
    assert_eq!(parse_token_hex("00112233445566778899aabbccddeeff").unwrap(), hex("00112233445566778899aabbccddeeff"));
    assert_eq!(parse_token_hex("  00112233445566778899AABBCCDDEEFF\n").unwrap(), hex("00112233445566778899aabbccddeeff"));
}

#[test]
fn token_sign_is_not_hex() {
    assert!(matches!(parse_token_hex("+f112233445566778899aabbccddeeff"), Err(MiioError::InvalidTokenHex(_))));
    assert!(matches!(parse_token_hex("0+112233445566778899aabbccddeeff"), Err(MiioError::InvalidTokenHex(_))));
}

#[test]
fn token_counts_characters() {
    // 31 characters, 32 bytes: not a 32-character token
    let short = format!("0\u{e9}{}", "0".repeat(29));
    assert_eq!(short.len(), 32);
    assert!(matches!(parse_token_hex(&short), Err(MiioError::InvalidToken)));
    // 32 characters, more bytes: the right length, but not hex
    let wide = format!("\u{e9}{}", "0".repeat(31));
    assert!(matches!(parse_token_hex(&wide), Err(MiioError::InvalidTokenHex(_))));
    let odd = format!("0{}\u{1f600}", "0".repeat(30));
    assert!(matches!(parse_token_hex(&odd), Err(MiioError::InvalidTokenHex(_))));
}

#[test]
fn token_wrong_length() {
    assert!(matches!(parse_token_hex("0011"), Err(MiioError::InvalidToken)));
    assert!(matches!(parse_token_hex("00112233445566778899aabbccddeeff00"), Err(MiioError::InvalidToken)));
}

#[test]
fn token_bad_hex() {
    assert!(matches!(parse_token_hex("zz112233445566778899aabbccddeeff"), Err(MiioError::InvalidTokenHex(_))));
    assert!(matches!(parse_token_hex("-1112233445566778899aabbccddeeff"), Err(MiioError::InvalidTokenHex(_))));
    assert!(matches!(parse_token_hex("0011223344556677 899aabbccddeeff"), Err(MiioError::InvalidTokenHex(_))));
}

#[test]
fn token_hex_round_trip() {
    let bytes: Vec<u8> = (0u8..16).map(|i| i.wrapping_mul(37).wrapping_add(5)).collect();
    let text: String = bytes.iter().map(|b| format!("{b:02x}")).collect();
    assert_eq!(parse_token_hex(&text).unwrap(), bytes);
}

#[test]
fn key_iv_derivation() {
    let token = hex("00112233445566778899aabbccddeeff");
    let (key, iv) = miio_key_iv(&token).unwrap();
    assert_eq!(key, md5::compute(&token).0.to_vec());
    let mut material = key.clone();
    material.extend_from_slice(&token);
    assert_eq!(iv, md5_bytes(&material));
    assert_ne!(key, token);
}

#[test]
fn key_iv_needs_16_bytes() {
    match miio_key_iv(&[0u8; 15]) {
        Err(MiioError::Protocol(m)) => assert_eq!(m, "token must be 16 bytes"),
        other => panic!("unexpected {:?}", other),
    }
}

#[test]
fn aes_cbc_known_answer() {
    let key = hex("2b7e151628aed2a6abf7158809cf4f3c");
    let iv = hex("000102030405060708090a0b0c0d0e0f");
    let plain = hex("6bc1bee22e409f96e93d7e117393172a");
    let c = miio_encrypt_payload(&plain, &key, &iv).unwrap();
    assert_eq!(c.len(), 32);
    assert_eq!(&c[..16], &hex("7649abac8119b246cee98e9b12e9197d")[..]);
}

#[test]
fn encrypt_length_is_padded() {
    let key = [7u8; 16];
    let iv = [9u8; 16];
    for n in [0usize, 1, 15, 16, 17, 40] {
        let c = miio_encrypt_payload(&vec![1u8; n], &key, &iv).unwrap();
        assert_eq!(c.len(), (n / 16 + 1) * 16);
    }
}

#[test]
fn encrypt_rejects_bad_key() {
    match miio_encrypt_payload(b"x", &[0u8; 15], &[0u8; 16]) {
        Err(MiioError::Crypto(m)) => assert_eq!(m, "invalid key/iv: Invalid Length"),
        other => panic!("unexpected {:?}", other),
    }
    assert!(matches!(miio_encrypt_payload(b"x", &[0u8; 16], &[0u8; 17]), Err(MiioError::Crypto(_))));
}

#[test]
fn decrypt_short_packet() {
    match decrypt_miio_packet(&[0u8; 31], &[0u8; 16]) {
        Err(MiioError::Protocol(m)) => assert_eq!(m, "response too short"),
        other => panic!("unexpected {:?}", other),
    }
}

#[test]
fn decrypt_header_only_is_empty() {
    assert_eq!(decrypt_miio_packet(&[0u8; 32], &[0u8; 3]).unwrap(), Vec::<u8>::new());
}

#[test]
fn decrypt_needs_token() {
    match decrypt_miio_packet(&[0u8; 48], &[0u8; 3]) {
        Err(MiioError::Protocol(m)) => assert_eq!(m, "token must be 16 bytes"),
        other => panic!("unexpected {:?}", other),
    }
}

#[test]
fn decrypt_ignores_header_bytes() {
    let token = [2u8; 16];
    let mut a = vec![0u8; 48];
    let mut b = vec![0xffu8; 48];
    a[32..].copy_from_slice(&[7u8; 16]);
    b[32..].copy_from_slice(&[7u8; 16]);
    let ra = decrypt_miio_packet(&a, &token);
    let rb = decrypt_miio_packet(&b, &token);
    assert_eq!(format!("{:?}", ra), format!("{:?}", rb));
}

#[test]
fn decrypt_bad_ciphertext() {
    match decrypt_miio_packet(&[0u8; 40], &[0u8; 16]) {
        Err(MiioError::Crypto(m)) => assert_eq!(m, "failed to decrypt response: Unpad Error"),
        other => panic!("unexpected {:?}", other),
    }
}

#[test]
fn decrypt_strips_trailing_zeros() {
    let token = [5u8; 16];
    let (key, iv) = miio_key_iv(&token).unwrap();
    let sealed = miio_encrypt_payload(b"ab\0c\0\0\0", &key, &iv).unwrap();
    let mut packet = vec![0u8; 32];
    packet.extend_from_slice(&sealed);
    assert_eq!(decrypt_miio_packet(&packet, &token).unwrap(), b"ab\0c".to_vec());
}

#[test]
fn decrypt_all_zero_payload_is_empty() {
    let token = [1u8; 16];
    let (key, iv) = miio_key_iv(&token).unwrap();
    let sealed = miio_encrypt_payload(&[0u8; 5], &key, &iv).unwrap();
    let mut packet = vec![0u8; 32];
    packet.extend_from_slice(&sealed);
    assert_eq!(decrypt_miio_packet(&packet, &token).unwrap(), Vec::<u8>::new());
}

#[test]
fn decrypt_rejects_partial_block() {
    for len in [33usize, 47, 49] {
        match decrypt_miio_packet(&vec![0u8; len], &[4u8; 16]) {
            Err(MiioError::Crypto(m)) => assert_eq!(m, "failed to decrypt response: Unpad Error"),
            other => panic!("unexpected {:?}", other),
        }
    }
}
