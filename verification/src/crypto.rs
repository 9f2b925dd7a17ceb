//! Cryptographic operations for the miIO protocol: token parsing, key
//! derivation, and AES-128-CBC payload encryption and decryption.
use vstd::prelude::*;
use crate::types::{crypto_error, protocol_error, MiioError};
use crate::text::{
    hex_char_value, is_hex_char, is_unicode_whitespace, lower_hex_digit, parse_hex_text, trim_end,
    trim_start, trim_str, trimmed,
};
use aes::Aes128;
use cbc::cipher::block_padding::{Pkcs7, UnpadError};
use cbc::cipher::{BlockDecryptMut, BlockEncryptMut, InvalidLength, KeyIvInit};

verus! {

/// The error of a key or IV of the wrong length, from the `cipher` crate.
#[verifier::external_type_specification]
#[verifier::external_body]
pub struct ExInvalidLength(cbc::cipher::InvalidLength);

/// The error of malformed padding or ciphertext length, from `block-padding`.
#[verifier::external_type_specification]
#[verifier::external_body]
pub struct ExUnpadError(cbc::cipher::block_padding::UnpadError);

/// The MD5 digest of a byte string, as computed by the `md5` crate.
pub uninterp spec fn md5_digest(input: Seq<u8>) -> Seq<u8>;

/// AES-128 in CBC mode with PKCS#7 padding, encrypting `plain` under `key`
/// and `iv`, as computed by the `aes` and `cbc` crates.
pub uninterp spec fn aes128_cbc_pkcs7_encrypt(plain: Seq<u8>, key: Seq<u8>, iv: Seq<u8>) -> Seq<u8>;

/// AES-128-CBC decryption of `cipher` under `key` and `iv` followed by
/// PKCS#7 unpadding, as computed by the `aes` and `cbc` crates; `None` where
/// the length or the padding is rejected.
pub uninterp spec fn aes128_cbc_pkcs7_decrypt(cipher: Seq<u8>, key: Seq<u8>, iv: Seq<u8>) -> Option<Seq<u8>>;

/// The AES key of a device token: the MD5 digest of the token.
pub open spec fn token_key(token: Seq<u8>) -> Seq<u8> {
    md5_digest(token)
}

/// The AES IV of a device token: the MD5 digest of the key followed by the token.
pub open spec fn token_iv(token: Seq<u8>) -> Seq<u8> {
    md5_digest(token_key(token) + token)
}

/// What holds of `sealed` when it is the encryption of `plain` under `key`
/// and `iv`: the cipher's output, whole blocks with room for the padding,
/// and decryption under the same key and IV gives `plain` back.
pub open spec fn sealed_by(sealed: Seq<u8>, plain: Seq<u8>, key: Seq<u8>, iv: Seq<u8>) -> bool {
    &&& sealed == aes128_cbc_pkcs7_encrypt(plain, key, iv)
    &&& sealed.len() == (plain.len() / 16 + 1) * 16
    &&& aes128_cbc_pkcs7_decrypt(sealed, key, iv) == Some(plain)
}

/// Computes the MD5 hash of the input bytes with `md5::compute`.
/// Trusted: the digest is `md5_digest(input)` and is 16 bytes long.
#[verifier::external_body]
pub fn md5_bytes(input: &[u8]) -> (digest: Vec<u8>)
    ensures
        digest@ == md5_digest(input@),
        digest@.len() == 16,
{
    md5::compute(input).0.to_vec()
}

/// Builds a `cbc::Encryptor<Aes128>` with `KeyIvInit::new_from_slices` and
/// encrypts `payload` with `encrypt_padded_vec_mut::<Pkcs7>`.
/// Trusted: construction fails exactly when the key or the IV is not 16
/// bytes long (the crate checks both lengths); otherwise the output is
/// `aes128_cbc_pkcs7_encrypt`, one padded block longer than the whole blocks
/// of the payload, and decrypting it with the same key and IV gives the
/// payload back (CBC decryption inverts encryption, PKCS#7 unpadding
/// inverts padding).
#[verifier::external_body]
fn aes128_cbc_encrypt(payload: &[u8], key: &[u8], iv: &[u8]) -> (sealed: Result<Vec<u8>, InvalidLength>)
    ensures
        sealed is Ok <==> (key@.len() == 16 && iv@.len() == 16),
        sealed matches Ok(c) ==> c@ == aes128_cbc_pkcs7_encrypt(payload@, key@, iv@),
        sealed matches Ok(c) ==> sealed_by(c@, payload@, key@, iv@),
{
    match cbc::Encryptor::<Aes128>::new_from_slices(key, iv) {
        Ok(cipher) => Ok(cipher.encrypt_padded_vec_mut::<Pkcs7>(payload)),
        Err(e) => Err(e),
    }
}

/// Why a CBC decryption failed.
pub enum CbcFailure {
    /// The key or IV has the wrong length.
    KeyIv(InvalidLength),
    /// The ciphertext length or its padding is malformed.
    Padding(UnpadError),
}

/// Builds a `cbc::Decryptor<Aes128>` with `KeyIvInit::new_from_slices` and
/// decrypts `ciphertext` with `decrypt_padded_vec_mut::<Pkcs7>`.
/// Trusted: construction fails exactly when the key or the IV is not 16
/// bytes long; otherwise the result is `aes128_cbc_pkcs7_decrypt`, which
/// rejects an empty ciphertext or one that is not whole 16-byte blocks and
/// strips between 1 and 16 bytes of padding.
#[verifier::external_body]
fn aes128_cbc_decrypt(ciphertext: &[u8], key: &[u8], iv: &[u8]) -> (plain: Result<Vec<u8>, CbcFailure>)
    ensures
        plain matches Err(CbcFailure::KeyIv(_)) <==> !(key@.len() == 16 && iv@.len() == 16),
        (key@.len() == 16 && iv@.len() == 16) ==> match plain {
            Ok(p) => aes128_cbc_pkcs7_decrypt(ciphertext@, key@, iv@) == Some(p@),
            Err(_) => aes128_cbc_pkcs7_decrypt(ciphertext@, key@, iv@) is None,
        },
        (ciphertext@.len() == 0 || ciphertext@.len() % 16 != 0) ==> plain is Err,
        plain matches Ok(p) ==> ciphertext@.len() - 16 <= p@.len() < ciphertext@.len(),
{
    match cbc::Decryptor::<Aes128>::new_from_slices(key, iv) {
        Ok(cipher) => match cipher.decrypt_padded_vec_mut::<Pkcs7>(ciphertext) {
            Ok(p) => Ok(p),
            Err(e) => Err(CbcFailure::Padding(e)),
        },
        Err(e) => Err(CbcFailure::KeyIv(e)),
    }
}

/// A token text once surrounding whitespace is trimmed.
pub open spec fn token_chars(token: Seq<char>) -> Seq<char> {
    trimmed(token)
}

/// Whether a token text is exactly 32 hex digits once trimmed.
pub open spec fn token_is_hex(token: Seq<char>) -> bool {
    let t = token_chars(token);
    &&& t.len() == 32
    &&& forall|i: int| 0 <= i < 32 ==> #[trigger] is_hex_char(t[i])
}

/// The byte written by the `k`-th pair of hex digits of a trimmed token.
pub open spec fn token_byte(t: Seq<char>, k: int) -> u8 {
    (hex_char_value(t[2 * k]).unwrap() * 16 + hex_char_value(t[2 * k + 1]).unwrap()) as u8
}

/// The 16 bytes written by a token text of 32 hex digits.
pub open spec fn decoded_token(token: Seq<char>) -> Seq<u8> {
    Seq::new(16, |k: int| token_byte(token_chars(token), k))
}

/// Parses a token string (32 hex characters, surrounding whitespace
/// ignored) into 16 bytes. Any text is accepted without panicking: it is
/// `InvalidToken` unless 32 characters remain after trimming, and
/// `InvalidTokenHex` when one of them is not a hex digit.
pub fn parse_token_hex(token: &str) -> (r: Result<Vec<u8>, MiioError>)
    ensures
        r matches Err(MiioError::InvalidToken) <==> token_chars(token@).len() != 32,
        r matches Err(MiioError::InvalidTokenHex(_)) <==> (token_chars(token@).len() == 32
            && !token_is_hex(token@)),
        r is Ok <==> token_is_hex(token@),
        r matches Ok(bytes) ==> bytes@ == decoded_token(token@),
{
    let normalized = trim_str(token);
    let ghost t = normalized@;
    if normalized.unicode_len() != 32 {
        return Err(MiioError::InvalidToken);
    }
    let mut out: Vec<u8> = Vec::with_capacity(16);
    let mut idx: usize = 0;
    while idx < 32
        invariant
            idx % 2 == 0,
            idx <= 32,
            t == token_chars(token@),
            t == normalized@,
            t.len() == 32,
            out@ == Seq::new((idx / 2) as nat, |k: int| token_byte(t, k)),
            forall|i: int| 0 <= i < idx ==> #[trigger] is_hex_char(t[i]),
        decreases 32 - idx,
    {
        let high = normalized.get_char(idx);
        let low = normalized.get_char(idx + 1);
        let bad_at = if !is_hex_digit(high) {
            Some(idx)
        } else if !is_hex_digit(low) {
            Some(idx + 1)
        } else {
            None
        };
        match bad_at {
            Some(at) => {
                let bad = normalized.substring_char(at, at + 1);
                match parse_hex_text(bad) {
                    Err(e) => return Err(MiioError::InvalidTokenHex(e)),
                    Ok(_) => {
                        assert(false);
                        return Err(MiioError::InvalidToken);
                    },
                }
            },
            None => {
                let pair = normalized.substring_char(idx, idx + 2);
                match parse_hex_text(pair) {
                    Ok(v) => out.push(v),
                    Err(e) => {
                        assert(false);
                        return Err(MiioError::InvalidTokenHex(e));
                    },
                }
            },
        }
        idx = idx + 2;
        assert(out@ =~= Seq::new((idx / 2) as nat, |k: int| token_byte(t, k)));
    }
    assert(out@ =~= decoded_token(token@));
    Ok(out)
}

/// Whether a character is a hex digit.
fn is_hex_digit(c: char) -> (r: bool)
    ensures
        r == is_hex_char(c),
{
    ('0' <= c && c <= '9') || ('a' <= c && c <= 'f') || ('A' <= c && c <= 'F')
}

/// The token text that writes `bytes` in lower-case hex, two characters a byte.
pub open spec fn hex_token_text(bytes: Seq<u8>) -> Seq<char> {
    Seq::new(
        2 * bytes.len(),
        |i: int|
            if i % 2 == 0 {
                lower_hex_digit((bytes[i / 2] / 16) as u32)
            } else {
                lower_hex_digit((bytes[i / 2] % 16) as u32)
            },
    )
}

/// A lower-case hex digit reads back as its value.
proof fn lemma_hex_digit_round_trip(n: u32)
    requires
        n < 16,
    ensures
        hex_char_value(lower_hex_digit(n)) == Some(n as u8),
        !is_unicode_whitespace(lower_hex_digit(n)),
{
}

/// Law: the hex text of a 16-byte token parses back to those bytes: for
/// any 16 bytes, `parse_token_hex` of their lower-case hex text returns the
/// bytes themselves.
pub proof fn law_token_hex_round_trip(bytes: Seq<u8>)
    requires
        bytes.len() == 16,
    ensures
        token_is_hex(hex_token_text(bytes)),
        decoded_token(hex_token_text(bytes)) == bytes,
{
    let t = hex_token_text(bytes);
    assert forall|i: int| 0 <= i < t.len() implies !is_unicode_whitespace(t[i]) && is_hex_char(t[i]) by {
        if i % 2 == 0 {
            lemma_hex_digit_round_trip((bytes[i / 2] / 16) as u32);
        } else {
            lemma_hex_digit_round_trip((bytes[i / 2] % 16) as u32);
        }
    }
    assert(trim_start(t) == t);
    assert(trim_end(t) == t);
    assert(token_chars(t) == t);
    assert forall|k: int| 0 <= k < 16 implies #[trigger] token_byte(t, k) == bytes[k] by {
        let hi = (bytes[k] / 16) as u32;
        let lo = (bytes[k] % 16) as u32;
        lemma_hex_digit_round_trip(hi);
        lemma_hex_digit_round_trip(lo);
        assert(t[2 * k] == lower_hex_digit(hi));
        assert(t[2 * k + 1] == lower_hex_digit(lo));
    }
    assert(decoded_token(t) =~= bytes);
}

/// Law: a token text is read pair by pair, high digit first: byte `k` of
/// the token is `16 * v(t[2k]) + v(t[2k+1])` where `t` is the trimmed text
/// and `v` gives `0-9` for `'0'..'9'` and `10-15` for `'a'..'f'` and for
/// `'A'..'F'` alike.
pub proof fn law_token_digits(token: Seq<char>)
    requires
        token_is_hex(token),
    ensures
        forall|k: int|
            0 <= k < 16 ==> {
                let hi = token_chars(token)[2 * k] as u32;
                let lo = token_chars(token)[2 * k + 1] as u32;
                let b = #[trigger] decoded_token(token)[k];
                &&& (0x30 <= hi <= 0x39 ==> b / 16 == hi - 0x30)
                &&& (0x61 <= hi <= 0x66 ==> b / 16 == hi - 0x61 + 10)
                &&& (0x41 <= hi <= 0x46 ==> b / 16 == hi - 0x41 + 10)
                &&& (0x30 <= lo <= 0x39 ==> b % 16 == lo - 0x30)
                &&& (0x61 <= lo <= 0x66 ==> b % 16 == lo - 0x61 + 10)
                &&& (0x41 <= lo <= 0x46 ==> b % 16 == lo - 0x41 + 10)
            },
{
    let t = token_chars(token);
    assert forall|k: int| 0 <= k < 16 implies {
        let hi = t[2 * k] as u32;
        let lo = t[2 * k + 1] as u32;
        let b = #[trigger] decoded_token(token)[k];
        &&& (0x30 <= hi <= 0x39 ==> b / 16 == hi - 0x30)
        &&& (0x61 <= hi <= 0x66 ==> b / 16 == hi - 0x61 + 10)
        &&& (0x41 <= hi <= 0x46 ==> b / 16 == hi - 0x41 + 10)
        &&& (0x30 <= lo <= 0x39 ==> b % 16 == lo - 0x30)
        &&& (0x61 <= lo <= 0x66 ==> b % 16 == lo - 0x61 + 10)
        &&& (0x41 <= lo <= 0x46 ==> b % 16 == lo - 0x41 + 10)
    } by {
        assert(is_hex_char(t[2 * k]));
        assert(is_hex_char(t[2 * k + 1]));
        let h = hex_char_value(t[2 * k]).unwrap() as int;
        let l = hex_char_value(t[2 * k + 1]).unwrap() as int;
        assert(0 <= h < 16 && 0 <= l < 16);
        assert(decoded_token(token)[k] == token_byte(t, k));
        assert(token_byte(t, k) == h * 16 + l);
        assert((h * 16 + l) / 16 == h && (h * 16 + l) % 16 == l) by (nonlinear_arith)
            requires
                0 <= h < 16,
                0 <= l < 16,
        ;
    }
}

/// Law: letter case does not matter in a token text: two texts that, once
/// trimmed, differ only in the case of their letters `A-F` / `a-f` parse
/// alike, so the upper-case and the lower-case spelling of a token give the
/// same 16 bytes.
pub proof fn law_token_case_insensitive(a: Seq<char>, b: Seq<char>)
    requires
        token_is_hex(a),
        token_chars(b).len() == token_chars(a).len(),
        forall|i: int|
            0 <= i < token_chars(a).len() ==> {
                let x = token_chars(a)[i] as u32;
                let y = #[trigger] token_chars(b)[i] as u32;
                ||| x == y
                ||| (0x41 <= x <= 0x46 && y == x + 0x20)
                ||| (0x41 <= y <= 0x46 && x == y + 0x20)
            },
    ensures
        token_is_hex(b),
        decoded_token(a) == decoded_token(b),
{
    let ta = token_chars(a);
    let tb = token_chars(b);
    assert forall|i: int| 0 <= i < 32 implies hex_char_value(#[trigger] tb[i]) == hex_char_value(
        ta[i],
    ) by {
        assert(is_hex_char(ta[i]));
    }
    assert forall|i: int| 0 <= i < 32 implies #[trigger] is_hex_char(tb[i]) by {
        assert(is_hex_char(ta[i]));
        assert(hex_char_value(tb[i]) == hex_char_value(ta[i]));
    }
    assert forall|k: int| 0 <= k < 16 implies #[trigger] token_byte(ta, k) == token_byte(tb, k) by {
        assert(hex_char_value(tb[2 * k]) == hex_char_value(ta[2 * k]));
        assert(hex_char_value(tb[2 * k + 1]) == hex_char_value(ta[2 * k + 1]));
    }
    assert(decoded_token(a) =~= decoded_token(b));
}

/// The `Display` text of `cipher::InvalidLength`. Trusted: the crate
/// writes "Invalid Length".
#[verifier::external_body]
fn invalid_length_text(e: &InvalidLength) -> (text: String)
    ensures
        text@ == "Invalid Length"@,
{
    e.to_string()
}

/// The `Display` text of `block_padding::UnpadError`. Trusted: the crate
/// writes "Unpad Error".
#[verifier::external_body]
fn unpad_error_text(e: &UnpadError) -> (text: String)
    ensures
        text@ == "Unpad Error"@,
{
    e.to_string()
}

/// Law: the key of a token is the MD5 digest of the token itself, and the IV
/// the MD5 digest of that key followed by the token.
pub proof fn law_token_key_iv(token: Seq<u8>)
    ensures
        token_key(token) == md5_digest(token),
        token_iv(token) == md5_digest(md5_digest(token) + token),
{
}

/// Derives the encryption key and IV from a token: the key is MD5(token),
/// the IV is MD5(key + token). Fails unless the token is 16 bytes long.
pub fn miio_key_iv(token: &[u8]) -> (r: Result<(Vec<u8>, Vec<u8>), MiioError>)
    ensures
        r is Err <==> token@.len() != 16,
        r matches Err(e) ==> protocol_error(e, "token must be 16 bytes"@),
        r matches Ok((key, iv)) ==> key@ == token_key(token@) && iv@ == token_iv(token@)
            && key@.len() == 16 && iv@.len() == 16,
        r matches Ok((key, iv)) ==> key@ == md5_digest(token@) && iv@ == md5_digest(
            md5_digest(token@) + token@,
        ),
{
    if token.len() != 16 {
        return Err(MiioError::Protocol("token must be 16 bytes".to_string()));
    }
    let key = md5_bytes(token);
    let mut material = key.clone();
    material.extend_from_slice(token);
    assert(material@ == key@ + token@);
    let iv = md5_bytes(material.as_slice());
    Ok((key, iv))
}

/// Encrypts a payload using AES-128-CBC with PKCS7 padding. Fails unless the
/// key and the IV are 16 bytes long each.
pub fn miio_encrypt_payload(payload: &[u8], key: &[u8], iv: &[u8]) -> (r: Result<Vec<u8>, MiioError>)
    ensures
        r is Ok <==> (key@.len() == 16 && iv@.len() == 16),
        r matches Err(e) ==> crypto_error(e, "invalid key/iv: "@ + "Invalid Length"@),
        r matches Ok(c) ==> sealed_by(c@, payload@, key@, iv@),
{
    match aes128_cbc_encrypt(payload, key, iv) {
        Ok(c) => Ok(c),
        Err(e) => {
            let detail = invalid_length_text(&e);
            Err(MiioError::Crypto("invalid key/iv: ".to_string().concat(detail.as_str())))
        },
    }
}

/// Drops the zero bytes at the end of a byte string.
pub open spec fn strip_trailing_zeros(s: Seq<u8>) -> Seq<u8>
    decreases s.len(),
{
    if s.len() > 0 && s.last() == 0 {
        strip_trailing_zeros(s.drop_last())
    } else {
        s
    }
}

/// Stripping leaves no zero byte at the end.
proof fn lemma_stripped_ends_nonzero(s: Seq<u8>)
    ensures
        strip_trailing_zeros(s).len() == 0 || strip_trailing_zeros(s).last() != 0,
    decreases s.len(),
{
    if s.len() > 0 && s.last() == 0 {
        lemma_stripped_ends_nonzero(s.drop_last());
    }
}

/// Law: dropping the trailing zeros of `s` keeps a prefix of `s` and drops
/// only zero bytes, all of them: the kept bytes are `s`'s first bytes, every
/// byte after them is 0, and the kept bytes do not end in 0.
pub proof fn law_strip_trailing_zeros(s: Seq<u8>)
    ensures
        strip_trailing_zeros(s).len() <= s.len(),
        strip_trailing_zeros(s) == s.take(strip_trailing_zeros(s).len() as int),
        forall|i: int| strip_trailing_zeros(s).len() <= i < s.len() ==> s[i] == 0,
        strip_trailing_zeros(s).len() == 0 || strip_trailing_zeros(s).last() != 0,
        (s.len() == 0 || s.last() != 0) ==> strip_trailing_zeros(s) == s,
    decreases s.len(),
{
    if s.len() > 0 && s.last() == 0 {
        let rest = s.drop_last();
        law_strip_trailing_zeros(rest);
        let r = strip_trailing_zeros(rest);
        assert(r =~= s.take(r.len() as int));
        assert forall|i: int| r.len() <= i < s.len() implies s[i] == 0 by {
            if i < rest.len() {
                assert(s[i] == rest[i]);
            }
        }
    } else {
        assert(s.take(s.len() as int) =~= s);
    }
}

/// Size of the miIO packet header, checksum included.
const MIIO_HEADER_SIZE: usize = 32;

/// The plaintext that `decrypt_miio_packet` recovers from a packet: `None`
/// where the packet is shorter than its header, the token is not 16 bytes
/// long, or the ciphertext is rejected.
pub open spec fn packet_plaintext(data: Seq<u8>, token: Seq<u8>) -> Option<Seq<u8>> {
    if data.len() < 32 {
        None
    } else if data.len() == 32 {
        Some(Seq::empty())
    } else if token.len() != 16 {
        None
    } else {
        match aes128_cbc_pkcs7_decrypt(data.skip(32), token_key(token), token_iv(token)) {
            Some(p) => Some(strip_trailing_zeros(p)),
            None => None,
        }
    }
}

/// Law: a decrypted payload never ends in a zero byte, whatever the packet.
pub proof fn law_plaintext_has_no_trailing_zero(data: Seq<u8>, token: Seq<u8>)
    ensures
        packet_plaintext(data, token) matches Some(p) ==> (p.len() == 0 || p.last() != 0),
{
    if data.len() > 32 && token.len() == 16 {
        if let Some(p) = aes128_cbc_pkcs7_decrypt(data.skip(32), token_key(token), token_iv(token)) {
            lemma_stripped_ends_nonzero(p);
        }
    }
}

/// The error that `decrypt_miio_packet` gives for a packet it cannot open:
/// "response too short" when it is shorter than the header, the key
/// derivation's "token must be 16 bytes" for a wrong token, and otherwise
/// the rejected ciphertext's "failed to decrypt response: Unpad Error".
pub open spec fn packet_error(e: MiioError, data: Seq<u8>, token: Seq<u8>) -> bool {
    if data.len() < 32 {
        protocol_error(e, "response too short"@)
    } else if token.len() != 16 {
        protocol_error(e, "token must be 16 bytes"@)
    } else {
        crypto_error(e, "failed to decrypt response: "@ + "Unpad Error"@)
    }
}

/// Law: the 32 header bytes of a response are not read. Two packets with
/// the same bytes after the header open to the same payload, or fail with
/// the same error.
pub proof fn law_header_bytes_not_read(d1: Seq<u8>, d2: Seq<u8>, token: Seq<u8>, e: MiioError)
    requires
        d1.len() >= 32,
        d2.len() >= 32,
        d1.skip(32) == d2.skip(32),
    ensures
        packet_plaintext(d1, token) == packet_plaintext(d2, token),
        packet_error(e, d1, token) == packet_error(e, d2, token),
{
    assert(d1.skip(32).len() == d1.len() - 32);
    assert(d2.skip(32).len() == d2.len() - 32);
}

/// Decrypts a miIO response packet: the bytes after the 32-byte header,
/// decrypted with the token's key and IV, without trailing zero bytes.
pub fn decrypt_miio_packet(data: &[u8], token: &[u8]) -> (r: Result<Vec<u8>, MiioError>)
    ensures
        r is Ok <==> packet_plaintext(data@, token@) is Some,
        r matches Ok(p) ==> packet_plaintext(data@, token@) == Some(p@),
        r matches Err(e) ==> packet_error(e, data@, token@),
        r matches Ok(p) ==> (data@.len() > 32 ==> (aes128_cbc_pkcs7_decrypt(
            data@.skip(32),
            md5_digest(token@),
            md5_digest(md5_digest(token@) + token@),
        ) matches Some(d) && p@ == d.take(p@.len() as int) && (forall|i: int|
            p@.len() <= i < d.len() ==> d[i] == 0))),
        (data@.len() > 32 && token@.len() == 16 && (data@.len() - 32) % 16 != 0) ==> (r matches Err(e)
            && crypto_error(e, "failed to decrypt response: "@ + "Unpad Error"@)),
{
    if data.len() < MIIO_HEADER_SIZE {
        return Err(MiioError::Protocol("response too short".to_string()));
    }
    if data.len() == MIIO_HEADER_SIZE {
        return Ok(Vec::new());
    }
    let (key, iv) = miio_key_iv(token)?;
    let ciphertext = slice_from(data, MIIO_HEADER_SIZE);
    let mut out = match aes128_cbc_decrypt(ciphertext, key.as_slice(), iv.as_slice()) {
        Ok(p) => p,
        Err(CbcFailure::KeyIv(e)) => {
            let detail = invalid_length_text(&e);
            return Err(MiioError::Crypto("invalid key/iv: ".to_string().concat(detail.as_str())));
        },
        Err(CbcFailure::Padding(e)) => {
            let detail = unpad_error_text(&e);
            return Err(
                MiioError::Crypto("failed to decrypt response: ".to_string().concat(detail.as_str())),
            );
        },
    };
    let ghost decrypted = out@;
    proof {
        law_strip_trailing_zeros(decrypted);
    }
    while out.len() > 0 && out[out.len() - 1] == 0
        invariant
            strip_trailing_zeros(out@) == strip_trailing_zeros(decrypted),
        decreases out.len(),
    {
        out.pop();
    }
    Ok(out)
}

/// The bytes of `s` from position `start` on.
fn slice_from(s: &[u8], start: usize) -> (r: &[u8])
    requires
        start <= s@.len(),
    ensures
        r@ == s@.skip(start as int),
{
    let (_, rest) = s.split_at(start);
    rest
}

} // verus!
