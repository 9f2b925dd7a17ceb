//! The decisions of one miIO command exchange: opening a session from the
//! device token, building the encrypted command packet, and reading the
//! device's encrypted answer. Sending and receiving happen outside.
use vstd::prelude::*;
use vstd::utf8::encode_utf8;
use crate::crypto::{
    aes128_cbc_pkcs7_encrypt, decoded_token, decrypt_miio_packet, miio_encrypt_payload, miio_key_iv,
    packet_error, packet_plaintext, parse_token_hex, token_chars, token_iv, token_is_hex, token_key,
};
use crate::protocol::{build_miio_packet, built_packet, lemma_decimal_text};
use crate::text::{
    all_decimal_digits, decimal_text, decimal_value, decode_utf8_lossy, lower_hex_digit,
    utf8_lossy_text,
};
use vstd::arithmetic::div_mod::lemma_div_denominator;
use vstd::arithmetic::power::{lemma_pow_positive, pow};
use crate::types::{crypto_error, HelloResponse, MiioCommandResponse, MiioError};

verus! {

/// How `serde_json` writes one character inside a JSON string: quote and
/// backslash escaped, the control characters with short escapes or as
/// `\u00XX`, everything else as it is.
pub open spec fn json_escape_char(c: char) -> Seq<char> {
    let u = c as u32;
    if u == 0x22 {
        seq!['\\', '"']
    } else if u == 0x5c {
        seq!['\\', '\\']
    } else if u == 0x08 {
        seq!['\\', 'b']
    } else if u == 0x09 {
        seq!['\\', 't']
    } else if u == 0x0a {
        seq!['\\', 'n']
    } else if u == 0x0c {
        seq!['\\', 'f']
    } else if u == 0x0d {
        seq!['\\', 'r']
    } else if u < 0x20 {
        seq!['\\', 'u', '0', '0', lower_hex_digit(u / 16), lower_hex_digit(u % 16)]
    } else {
        seq![c]
    }
}

/// The escaped body of a JSON string.
pub open spec fn json_escaped(s: Seq<char>) -> Seq<char>
    decreases s.len(),
{
    if s.len() == 0 {
        Seq::empty()
    } else {
        json_escape_char(s[0]) + json_escaped(s.drop_first())
    }
}

/// A string written as a JSON string literal.
pub open spec fn json_quoted(s: Seq<char>) -> Seq<char> {
    seq!['"'] + json_escaped(s) + seq!['"']
}

/// `serde_json::to_string` of a string. Trusted: writing a `&str` into a
/// `String` does not fail, and the text is the quoted string with
/// `serde_json`'s escapes (its `ESCAPE` table and `write_char_escape`).
#[verifier::external_body]
fn json_string_literal(s: &str) -> (r: Result<String, serde_json::Error>)
    ensures
        r is Ok,
        r matches Ok(text) ==> text@ == json_quoted(s@),
{
    serde_json::to_string(s)
}

/// Whether `serde_json::from_slice::<serde_json::Value>` accepts the bytes.
pub uninterp spec fn serde_json_accepts(bytes: Seq<u8>) -> bool;

/// `serde_json::from_slice::<serde_json::Value>`, errors dropped. Trusted:
/// a document comes back exactly when `serde_json_accepts` holds.
#[verifier::external_body]
fn parse_json_document(bytes: &[u8]) -> (doc: Option<serde_json::Value>)
    ensures
        doc is Some <==> serde_json_accepts(bytes@),
{
    serde_json::from_slice::<serde_json::Value>(bytes).ok()
}

/// Appends the decimal digits of `n`.
fn push_decimal(out: &mut Vec<u8>, n: u32)
    ensures
        final(out)@ == old(out)@ + decimal_text(n as nat),
    decreases n,
{
    if n >= 10 {
        push_decimal(out, n / 10);
    }
    out.push((0x30 + n % 10) as u8);
    assert(final(out)@ =~= old(out)@ + decimal_text(n as nat));
}

/// The plaintext of a command: the JSON object
/// `{"id":<id>,"method":<method>,"params":<params>}` followed by a zero
/// byte, with keys in the order `serde_json` writes them.
pub open spec fn command_payload(id: u32, method: Seq<char>, params: Seq<char>) -> Seq<u8> {
    // {"id":
    seq![0x7bu8, 0x22, 0x69, 0x64, 0x22, 0x3a] + decimal_text(id as nat)
    // ,"method":
    + seq![0x2cu8, 0x22, 0x6d, 0x65, 0x74, 0x68, 0x6f, 0x64, 0x22, 0x3a] + encode_utf8(
        json_quoted(method),
    )
    // ,"params":
    + seq![0x2cu8, 0x22, 0x70, 0x61, 0x72, 0x61, 0x6d, 0x73, 0x22, 0x3a] + encode_utf8(params)
    // } and the terminating zero
    + seq![0x7du8, 0x00]
}

/// Builds the plaintext of a command with the given id, method name and
/// parameters (compact JSON text).
pub fn build_command_payload(id: u32, method: &str, params: &str) -> (r: Result<Vec<u8>, MiioError>)
    ensures
        r matches Ok(payload) && payload@ == command_payload(id, method@, params@),
{
    let quoted = match json_string_literal(method) {
        Ok(text) => text,
        Err(e) => return Err(MiioError::Json(e)),
    };
    let open_id: [u8; 6] = [0x7b, 0x22, 0x69, 0x64, 0x22, 0x3a];
    let method_key: [u8; 10] = [0x2c, 0x22, 0x6d, 0x65, 0x74, 0x68, 0x6f, 0x64, 0x22, 0x3a];
    let params_key: [u8; 10] = [0x2c, 0x22, 0x70, 0x61, 0x72, 0x61, 0x6d, 0x73, 0x22, 0x3a];
    let mut payload: Vec<u8> = Vec::new();
    payload.extend_from_slice(open_id.as_slice());
    push_decimal(&mut payload, id);
    payload.extend_from_slice(method_key.as_slice());
    payload.extend_from_slice(quoted.as_str().as_bytes());
    payload.extend_from_slice(params_key.as_slice());
    payload.extend_from_slice(params.as_bytes());
    payload.push(0x7d);
    payload.push(0);
    assert(open_id@ =~= seq![0x7bu8, 0x22, 0x69, 0x64, 0x22, 0x3a]);
    assert(method_key@ =~= seq![0x2cu8, 0x22, 0x6d, 0x65, 0x74, 0x68, 0x6f, 0x64, 0x22, 0x3a]);
    assert(params_key@ =~= seq![0x2cu8, 0x22, 0x70, 0x61, 0x72, 0x61, 0x6d, 0x73, 0x22, 0x3a]);
    assert(payload@ =~= command_payload(id, method@, params@));
    Ok(payload)
}

/// The decimal text of `n` holds, counting from its last byte, the digits
/// `(n / 10^j) % 10`, as many as `n` has, without leading zeros.
proof fn lemma_decimal_text_digits(n: nat)
    ensures
        decimal_text(n).len() >= 1,
        forall|j: int|
            0 <= j < decimal_text(n).len() ==> #[trigger] decimal_text(n)[decimal_text(n).len() - 1
                - j] == 0x30 + (n as int / pow(10, j as nat)) % 10,
        n < pow(10, decimal_text(n).len()),
        decimal_text(n).len() == 1 || pow(10, (decimal_text(n).len() - 1) as nat) <= n,
    decreases n,
{
    reveal(pow);
    let t = decimal_text(n);
    if n < 10 {
        assert(pow(10, 0) == 1);
        assert(pow(10, 1) == 10 * pow(10, 0));
    } else {
        let q = n / 10;
        lemma_decimal_text_digits(q);
        let tq = decimal_text(q);
        let m = tq.len();
        assert(t == tq.push((0x30 + n % 10) as u8));
        assert(t.len() == m + 1);
        assert forall|j: int| 0 <= j < t.len() implies #[trigger] t[t.len() - 1 - j] == 0x30 + (n as int / pow(
            10,
            j as nat,
        )) % 10 by {
            if j == 0 {
                assert(pow(10, 0) == 1);
            } else {
                assert(t[t.len() - 1 - j] == tq[m - 1 - (j - 1)]);
                assert(pow(10, j as nat) == 10 * pow(10, (j - 1) as nat));
                lemma_pow_positive(10, (j - 1) as nat);
                lemma_div_denominator(n as int, 10, pow(10, (j - 1) as nat));
            }
        }
        assert(pow(10, (m + 1) as nat) == 10 * pow(10, m));
        assert(n < pow(10, (m + 1) as nat)) by (nonlinear_arith)
            requires
                q == n / 10,
                q < pow(10, m),
                pow(10, (m + 1) as nat) == 10 * pow(10, m),
        ;
        if m == 1 {
            assert(pow(10, 1) == 10 * pow(10, 0));
            assert(pow(10, 0) == 1);
        } else {
            assert(pow(10, m) == 10 * pow(10, (m - 1) as nat));
            assert(pow(10, m) <= n) by (nonlinear_arith)
                requires
                    q == n / 10,
                    pow(10, (m - 1) as nat) <= q,
                    pow(10, m) == 10 * pow(10, (m - 1) as nat),
            ;
        }
    }
}

/// Law: the command payload opens with `{"id":` and then writes the id in
/// decimal, most significant digit first and without leading zeros, up to
/// the comma before `"method"`; read back as a decimal number, that field is
/// the id itself.
pub proof fn law_payload_id(id: u32, method: Seq<char>, params: Seq<char>)
    ensures
        ({
            let p = command_payload(id, method, params);
            &&& p.take(6) == seq![0x7bu8, 0x22, 0x69, 0x64, 0x22, 0x3a]
            &&& exists|n: int|
                #![trigger p.subrange(6, 6 + n)]
                1 <= n && 6 + n < p.len() && p[6 + n] == 0x2c && id < pow(10, n as nat) && (n == 1
                    || pow(10, (n - 1) as nat) <= id) && (forall|j: int|
                    0 <= j < n ==> #[trigger] p[5 + n - j] == 0x30 + (id as int / pow(10, j as nat)) % 10)
                    && all_decimal_digits(p.subrange(6, 6 + n)) && decimal_value(
                    p.subrange(6, 6 + n),
                ) == id
        }),
{
    let p = command_payload(id, method, params);
    let t = decimal_text(id as nat);
    let n = t.len() as int;
    lemma_decimal_text_digits(id as nat);
    lemma_decimal_text(id as nat);
    let head = seq![0x7bu8, 0x22, 0x69, 0x64, 0x22, 0x3a];
    let rest = p.skip(6 + n);
    assert(p =~= head + t + rest);
    assert(p.take(6) =~= head);
    assert(p.subrange(6, 6 + n) =~= t);
    assert(rest[0] == 0x2c);
    assert(p[6 + n] == 0x2c);
    assert forall|j: int| 0 <= j < n implies #[trigger] p[5 + n - j] == 0x30 + (id as int / pow(
        10,
        j as nat,
    )) % 10 by {
        assert(p[5 + n - j] == t[n - 1 - j]);
    }
}

/// The command id used at Unix time `now_ts`: between 1 and 9998.
pub open spec fn command_id_at(now_ts: u64) -> u32 {
    (now_ts % 9998 + 1) as u32
}

/// The command id used at Unix time `now_ts`.
pub fn command_id(now_ts: u64) -> (id: u32)
    ensures
        id == command_id_at(now_ts),
        1 <= id <= 9998,
{
    ((now_ts % 9998) + 1) as u32
}

/// The keys of one command exchange with a device: a 16-byte token and
/// the AES key and IV derived from it.
pub struct MiioSession {
    token: Vec<u8>,
    key: Vec<u8>,
    iv: Vec<u8>,
}

impl MiioSession {
    /// The key and IV are always those of the 16-byte token.
    #[verifier::type_invariant]
    spec fn keys_derived(&self) -> bool {
        &&& self.token@.len() == 16
        &&& self.key@ == token_key(self.token@)
        &&& self.iv@ == token_iv(self.token@)
        &&& self.key@.len() == 16
        &&& self.iv@.len() == 16
    }

    /// The session's device token.
    pub closed spec fn token_bytes(&self) -> Seq<u8> {
        self.token@
    }

    /// The session's AES key: MD5 of the token.
    pub open spec fn key_bytes(&self) -> Seq<u8> {
        token_key(self.token_bytes())
    }

    /// The session's AES IV: MD5 of the key and the token.
    pub open spec fn iv_bytes(&self) -> Seq<u8> {
        token_iv(self.token_bytes())
    }

    /// The device token.
    pub fn token(&self) -> (token: &[u8])
        ensures
            token@ == self.token_bytes(),
            token@.len() == 16,
    {
        proof {
            use_type_invariant(self);
        }
        self.token.as_slice()
    }

    /// The AES key.
    pub fn key(&self) -> (key: &[u8])
        ensures
            key@ == self.key_bytes(),
            key@.len() == 16,
    {
        proof {
            use_type_invariant(self);
        }
        self.key.as_slice()
    }

    /// The AES IV.
    pub fn iv(&self) -> (iv: &[u8])
        ensures
            iv@ == self.iv_bytes(),
            iv@.len() == 16,
    {
        proof {
            use_type_invariant(self);
        }
        self.iv.as_slice()
    }

    /// Opens a session from the device token text (32 hex characters,
    /// surrounding whitespace ignored); fails as `parse_token_hex` does.
    pub fn open(token_hex: &str) -> (r: Result<MiioSession, MiioError>)
        ensures
            r matches Err(MiioError::InvalidToken) <==> token_chars(token_hex@).len() != 32,
            r matches Err(MiioError::InvalidTokenHex(_)) <==> (token_chars(token_hex@).len() == 32
                && !token_is_hex(token_hex@)),
            r is Ok <==> token_is_hex(token_hex@),
            r matches Ok(session) ==> session.token_bytes() == decoded_token(token_hex@),
    {
        let token = parse_token_hex(token_hex)?;
        let (key, iv) = match miio_key_iv(token.as_slice()) {
            Ok(derived) => derived,
            Err(e) => return Err(e),
        };
        Ok(MiioSession { token, key, iv })
    }

    /// Builds the packet that sends `method` with `params` (compact JSON
    /// text) to the device that answered the hello with `hello`, at Unix
    /// time `now_ts`: the command payload, encrypted with the session's key
    /// and IV, framed with the device id and the hello's stamp plus one.
    pub fn command_packet(&self, method: &str, params: &str, hello: &HelloResponse, now_ts: u64) -> (r: Result<
        Vec<u8>,
        MiioError,
    >)
        ensures
            r matches Ok(packet) && built_packet(
                packet@,
                hello.device_id@,
                hello.stamp.wrapping_add(1),
                self.token_bytes(),
                aes128_cbc_pkcs7_encrypt(
                    command_payload(command_id_at(now_ts), method@, params@),
                    self.key_bytes(),
                    self.iv_bytes(),
                ),
            ),
    {
        let cmd_id = command_id(now_ts);
        let payload = build_command_payload(cmd_id, method, params)?;
        let encrypted_payload = miio_encrypt_payload(payload.as_slice(), self.key(), self.iv())?;
        let send_stamp = hello.stamp.wrapping_add(1);
        build_miio_packet(hello.device_id, send_stamp, self.token(), encrypted_payload.as_slice())
    }

    /// Reads the device's answer: the decrypted payload as text (invalid
    /// UTF-8 replaced) and, when it is a JSON document, parsed. A packet
    /// shorter than the header gives "response too short", a rejected
    /// ciphertext "failed to decrypt response: Unpad Error".
    pub fn read_response(&self, packet: &[u8]) -> (r: Result<MiioCommandResponse, MiioError>)
        ensures
            r is Ok <==> packet_plaintext(packet@, self.token_bytes()) is Some,
            r matches Ok(response) ==> packet_plaintext(packet@, self.token_bytes()) matches Some(plain)
                && {
                &&& response.raw@ == utf8_lossy_text(plain)
                &&& response.json is Some <==> serde_json_accepts(plain)
            },
            r matches Err(e) ==> packet_error(e, packet@, self.token_bytes()),
            (packet@.len() > 32 && (packet@.len() - 32) % 16 != 0) ==> (r matches Err(e) && crypto_error(
                e,
                "failed to decrypt response: "@ + "Unpad Error"@,
            )),
    {
        let decrypted = decrypt_miio_packet(packet, self.token())?;
        let raw = decode_utf8_lossy(decrypted.as_slice());
        let json = parse_json_document(decrypted.as_slice());
        Ok(MiioCommandResponse { raw, json })
    }
}

} // verus!
