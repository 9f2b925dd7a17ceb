//! miIO packet handling: framing command packets, the hello packet and its
//! reply, and the decisions of the hello handshake.
use vstd::prelude::*;
use crate::crypto::{
    law_strip_trailing_zeros, md5_bytes, md5_digest, packet_plaintext, sealed_by, strip_trailing_zeros,
    token_iv, token_key,
};
use crate::text::{
    all_decimal_digits, decimal_text, decimal_value, last_colon, parse_u16_decimal,
    split_at_last_colon, u16_text_value,
};
use vstd::utf8::{encode_utf8, is_ascii_chars, is_ascii_chars_encode_utf8};
use crate::types::{protocol_error, HelloResponse, MiioError};

verus! {

/// Magic number that identifies miIO protocol packets.
pub const MIIO_MAGIC: u16 = 0x2131;

/// Size of the miIO packet header, checksum included.
pub const MIIO_HEADER_SIZE: usize = 32;

/// The two big-endian bytes of a 16-bit value.
pub open spec fn be16(v: u16) -> Seq<u8> {
    seq![(v / 0x100) as u8, (v % 0x100) as u8]
}

/// The four big-endian bytes of a 32-bit value.
pub open spec fn be32(v: u32) -> Seq<u8> {
    seq![
        (v / 0x100_0000) as u8,
        ((v / 0x1_0000) % 0x100) as u8,
        ((v / 0x100) % 0x100) as u8,
        (v % 0x100) as u8,
    ]
}

/// The 32-bit value of four big-endian bytes.
pub open spec fn be32_value(b: Seq<u8>) -> u32 {
    (b[0] * 0x100_0000 + b[1] * 0x1_0000 + b[2] * 0x100 + b[3]) as u32
}

/// The 16-byte header of a command packet: magic, total length (modulo
/// 2^16), four zero bytes, device id and stamp.
pub open spec fn miio_header(device_id: Seq<u8>, stamp: u32, payload_len: nat) -> Seq<u8> {
    be16(MIIO_MAGIC) + be16(((32 + payload_len) % 0x1_0000) as u16) + seq![0u8, 0u8, 0u8, 0u8]
        + device_id + be32(stamp)
}

/// A complete command packet: header, MD5 of header + token + payload, payload.
pub open spec fn miio_packet(device_id: Seq<u8>, stamp: u32, token: Seq<u8>, payload: Seq<u8>) -> Seq<u8> {
    let header = miio_header(device_id, stamp, payload.len());
    header + md5_digest(header + token + payload) + payload
}

/// What holds of a packet that `build_miio_packet` returns: it is the
/// framing of the payload, 32 bytes longer than the payload.
pub open spec fn built_packet(packet: Seq<u8>, device_id: Seq<u8>, stamp: u32, token: Seq<u8>, payload: Seq<u8>) -> bool {
    &&& packet == miio_packet(device_id, stamp, token, payload)
    &&& packet.len() == 32 + payload.len()
}

/// Appends the big-endian bytes of a 16-bit value.
fn push_be16(out: &mut Vec<u8>, v: u16)
    ensures
        final(out)@ == old(out)@ + be16(v),
{
    out.push((v / 0x100) as u8);
    out.push((v % 0x100) as u8);
}

/// Appends the big-endian bytes of a 32-bit value.
fn push_be32(out: &mut Vec<u8>, v: u32)
    ensures
        final(out)@ == old(out)@ + be32(v),
{
    out.push((v / 0x100_0000) as u8);
    out.push(((v / 0x1_0000) % 0x100) as u8);
    out.push(((v / 0x100) % 0x100) as u8);
    out.push((v % 0x100) as u8);
}

/// Builds a complete miIO command packet: a 16-byte header (magic, length,
/// unknown, device id, stamp), the 16-byte MD5 checksum of header, token and
/// payload, then the already-encrypted payload. It always succeeds.
pub fn build_miio_packet(
    device_id: [u8; 4],
    stamp: u32,
    token: &[u8],
    encrypted_payload: &[u8],
) -> (r: Result<Vec<u8>, MiioError>)
    ensures
        r matches Ok(packet) && built_packet(packet@, device_id@, stamp, token@, encrypted_payload@),
        r matches Ok(packet) ==> packet@[2] as int * 256 + packet@[3] as int == (32
            + encrypted_payload@.len()) % 65536,
        r matches Ok(packet) ==> packet@.subrange(16, 32) == md5_digest(
            packet@.subrange(0, 16) + token@ + encrypted_payload@,
        ),
{
    let data_len = encrypted_payload.len();
    // The length field is the total length modulo 2^16.
    let length_field = ((data_len % 0x1_0000 + MIIO_HEADER_SIZE) % 0x1_0000) as u16;

    let mut header: Vec<u8> = Vec::with_capacity(16);
    push_be16(&mut header, MIIO_MAGIC);
    push_be16(&mut header, length_field);
    push_be32(&mut header, 0);
    header.extend_from_slice(device_id.as_slice());
    push_be32(&mut header, stamp);
    assert(header@ =~= miio_header(device_id@, stamp, encrypted_payload@.len()));

    let mut digest_input = header.clone();
    digest_input.extend_from_slice(token);
    digest_input.extend_from_slice(encrypted_payload);
    assert(digest_input@ =~= header@ + token@ + encrypted_payload@);
    let checksum = md5_bytes(digest_input.as_slice());
    if checksum.len() != 16 {
        return Err(MiioError::Crypto("invalid md5 checksum length".to_string()));
    }

    let mut packet: Vec<u8> = Vec::new();
    packet.extend_from_slice(header.as_slice());
    packet.extend_from_slice(checksum.as_slice());
    packet.extend_from_slice(encrypted_payload);
    assert(packet@ =~= header@ + checksum@ + encrypted_payload@);
    let ghost framed = packet@;
    assert(framed[2] as int * 256 + framed[3] as int == (32 + encrypted_payload@.len()) % 65536
        && framed.subrange(16, 32) == md5_digest(framed.subrange(0, 16) + token@ + encrypted_payload@))
        by {
        law_packet_bytes(framed, device_id@, stamp, token@, encrypted_payload@);
    }
    Ok(packet)
}

/// The hello packet: magic, length 32, and 28 bytes of 0xff.
pub open spec fn hello_packet() -> Seq<u8> {
    be16(MIIO_MAGIC) + be16(32) + Seq::new(28, |i: int| 0xffu8)
}

/// Creates the hello packet that devices answer with their device ID and
/// timestamp (needed for encryption).
pub fn make_hello_packet() -> (packet: [u8; MIIO_HEADER_SIZE])
    ensures
        packet@ == hello_packet(),
{
    let packet: [u8; MIIO_HEADER_SIZE] = [
        0x21, 0x31, 0x00, 0x20, 0xff, 0xff, 0xff, 0xff,
        0xff, 0xff, 0xff, 0xff, 0xff, 0xff, 0xff, 0xff,
        0xff, 0xff, 0xff, 0xff, 0xff, 0xff, 0xff, 0xff,
        0xff, 0xff, 0xff, 0xff, 0xff, 0xff, 0xff, 0xff,
    ];
    assert(packet@ =~= hello_packet());
    packet
}

/// The device id and stamp of a hello reply, or `None` where the reply is
/// shorter than a header or does not start with the magic number.
pub open spec fn hello_reply(data: Seq<u8>) -> Option<(Seq<u8>, u32)> {
    if data.len() < 32 || data[0] != 0x21 || data[1] != 0x31 {
        None
    } else {
        Some((data.subrange(8, 12), be32_value(data.subrange(12, 16))))
    }
}

/// The message of the error that a rejected hello reply gives.
pub open spec fn hello_error_message(data: Seq<u8>) -> Seq<char> {
    if data.len() < 32 {
        "hello response too short"@
    } else {
        "invalid magic in hello response"@
    }
}

/// Parses a hello response from a device: device id from bytes 8..12,
/// big-endian stamp from bytes 12..16.
pub fn parse_hello_response(data: &[u8]) -> (r: Result<HelloResponse, MiioError>)
    ensures
        r is Ok <==> hello_reply(data@) is Some,
        r matches Ok(h) ==> hello_reply(data@) == Some((h.device_id@, h.stamp)),
        r matches Err(e) ==> protocol_error(e, hello_error_message(data@)),
{
    if data.len() < MIIO_HEADER_SIZE {
        return Err(MiioError::Protocol("hello response too short".to_string()));
    }
    let magic = (data[0] as u16) * 0x100 + (data[1] as u16);
    if magic != MIIO_MAGIC {
        return Err(MiioError::Protocol("invalid magic in hello response".to_string()));
    }
    let device_id: [u8; 4] = [data[8], data[9], data[10], data[11]];
    let stamp = (data[12] as u32) * 0x100_0000 + (data[13] as u32) * 0x1_0000 + (data[14] as u32)
        * 0x100 + (data[15] as u32);
    assert(device_id@ =~= data@.subrange(8, 12));
    Ok(HelloResponse { device_id, stamp })
}

/// The host and port text of an address: the text around its last `:`.
pub open spec fn address_parts(addr: Seq<char>) -> Option<(Seq<char>, Seq<char>)> {
    if last_colon(addr) < 0 {
        None
    } else {
        Some((addr.take(last_colon(addr)), addr.skip(last_colon(addr) + 1)))
    }
}

/// What holds of the error for an address that does not split: "invalid
/// target address" when it has no `:`, else a message that starts with
/// "invalid miIO port: " and goes on with the integer parser's own text.
pub open spec fn address_error(e: MiioError, addr: Seq<char>) -> bool {
    if address_parts(addr) is None {
        protocol_error(e, "invalid target address"@)
    } else {
        e matches MiioError::Protocol(m) && "invalid miIO port: "@.is_prefix_of(m@)
    }
}

/// Splits an address string into IP and port components at its last `:`.
pub fn split_host_port(addr: &str) -> (r: Result<(String, u16), MiioError>)
    ensures
        r is Ok <==> (address_parts(addr@) matches Some((h, p)) && u16_text_value(encode_utf8(p)) is Some),
        r matches Ok((host, port)) ==> address_parts(addr@) matches Some((h, p)) && host@ == h
            && u16_text_value(encode_utf8(p)) == Some(port),
        r matches Err(e) ==> address_error(e, addr@),
{
    let (host_part, port_str) = match split_at_last_colon(addr) {
        Some(parts) => parts,
        None => return Err(MiioError::Protocol("invalid target address".to_string())),
    };
    let port = match parse_u16_decimal(port_str) {
        Ok(p) => p,
        Err(err) => {
            let detail = err.to_string();
            let prefix = "invalid miIO port: ".to_string();
            let ghost p = prefix@;
            let message = prefix.concat(detail.as_str());
            assert((p + detail@).subrange(0, p.len() as int) =~= p);
            return Err(MiioError::Protocol(message));
        },
    };
    Ok((host_part.to_string(), port))
}

/// The bytes of `be32(v)` give `v` back.
pub proof fn lemma_be32_round_trip(v: u32)
    ensures
        be32(v).len() == 4,
        be32_value(be32(v)) == v,
{
    let b = be32(v);
    assert(((v / 0x100_0000) as u8) as int * 0x100_0000 + (((v / 0x1_0000) % 0x100) as u8) as int
        * 0x1_0000 + (((v / 0x100) % 0x100) as u8) as int * 0x100 + ((v % 0x100) as u8) as int
        == v as int) by (bit_vector);
}

/// Law: the header that `build_miio_packet` writes is what
/// `parse_hello_response` reads: a packet framed for a device id and stamp
/// parses back to that device id and stamp.
pub proof fn law_header_read_back(packet: Seq<u8>, device_id: Seq<u8>, stamp: u32, token: Seq<u8>, payload: Seq<u8>)
    requires
        device_id.len() == 4,
        built_packet(packet, device_id, stamp, token, payload),
    ensures
        hello_reply(packet) == Some((device_id, stamp)),
{
    let header = miio_header(device_id, stamp, payload.len());
    lemma_be32_round_trip(stamp);
    assert(header.len() == 16);
    assert(packet.subrange(0, 16) =~= header);
    assert(packet[0] == header[0] && packet[1] == header[1]);
    assert(packet.subrange(8, 12) =~= device_id);
    assert(packet.subrange(12, 16) =~= be32(stamp));
}

/// Law: the bytes of a framed packet, one by one. It starts with the magic
/// 0x2131, then the packet's total length modulo 2^16 in big-endian order,
/// four zero bytes, the device id and the big-endian stamp; bytes 16..32
/// are the MD5 digest of those 16 header bytes, the token and the payload;
/// the payload follows unchanged.
pub proof fn law_packet_bytes(packet: Seq<u8>, device_id: Seq<u8>, stamp: u32, token: Seq<u8>, payload: Seq<u8>)
    requires
        device_id.len() == 4,
        built_packet(packet, device_id, stamp, token, payload),
    ensures
        packet.len() == 32 + payload.len(),
        packet[0] == 0x21 && packet[1] == 0x31,
        packet[2] as int * 256 + packet[3] as int == (32 + payload.len()) % 65536,
        packet[4] == 0 && packet[5] == 0 && packet[6] == 0 && packet[7] == 0,
        packet.subrange(8, 12) == device_id,
        packet[12] as int * 0x100_0000 + packet[13] as int * 0x1_0000 + packet[14] as int * 0x100
            + packet[15] as int == stamp as int,
        packet.subrange(16, 32) == md5_digest(packet.subrange(0, 16) + token + payload),
        packet.skip(32) == payload,
{
    let header = miio_header(device_id, stamp, payload.len());
    let len_field = ((32 + payload.len()) % 0x1_0000) as u16;
    lemma_be32_round_trip(stamp);
    assert(header.len() == 16);
    assert(packet.subrange(0, 16) =~= header);
    assert(packet.subrange(16, 32) =~= md5_digest(header + token + payload));
    assert(packet.skip(32) =~= payload);
    assert(packet[2] == header[2] && packet[3] == header[3]);
    assert(header[2] == (len_field / 0x100) as u8 && header[3] == (len_field % 0x100) as u8);
    assert((len_field / 0x100) as int * 256 + (len_field % 0x100) as int == len_field as int);
    assert(packet.subrange(8, 12) =~= device_id);
    assert(packet.subrange(12, 16) =~= be32(stamp));
    assert(packet[12] == be32(stamp)[0] && packet[13] == be32(stamp)[1] && packet[14] == be32(stamp)[2]
        && packet[15] == be32(stamp)[3]);
}

/// Law: the token reaches a packet only through its checksum. Two packets
/// framed from the same device id, stamp and payload under any two tokens
/// have the same length, the same 16-byte header and the same payload
/// bytes; they can differ only in bytes 16..32.
pub proof fn law_token_only_in_checksum(
    p1: Seq<u8>,
    p2: Seq<u8>,
    device_id: Seq<u8>,
    stamp: u32,
    token1: Seq<u8>,
    token2: Seq<u8>,
    payload: Seq<u8>,
)
    requires
        device_id.len() == 4,
        built_packet(p1, device_id, stamp, token1, payload),
        built_packet(p2, device_id, stamp, token2, payload),
    ensures
        p1.len() == p2.len(),
        p1.subrange(0, 16) == p2.subrange(0, 16),
        p1.skip(32) == p2.skip(32),
{
    let header = miio_header(device_id, stamp, payload.len());
    let f1 = header + md5_digest(header + token1 + payload);
    let f2 = header + md5_digest(header + token2 + payload);
    assert(p1 == f1 + payload);
    assert(p2 == f2 + payload);
    assert(f1.len() == 32 && f2.len() == 32);
    assert(p1.skip(32) =~= payload);
    assert(p2.skip(32) =~= payload);
    assert(header.len() == 16);
    assert(p1.subrange(0, 16) =~= header);
    assert(p2.subrange(0, 16) =~= header);
}

/// Law: what one side seals and frames, the other side opens. A payload
/// encrypted with the key and IV of a 16-byte token and framed into a
/// packet decrypts, with that token, to the payload without its trailing
/// zero bytes.
pub proof fn law_sealed_packet_opens(
    packet: Seq<u8>,
    device_id: Seq<u8>,
    stamp: u32,
    token: Seq<u8>,
    payload: Seq<u8>,
    sealed: Seq<u8>,
)
    requires
        token.len() == 16,
        sealed_by(sealed, payload, token_key(token), token_iv(token)),
        built_packet(packet, device_id, stamp, token, sealed),
    ensures
        packet_plaintext(packet, token) == Some(strip_trailing_zeros(payload)),
        packet_plaintext(packet, token) matches Some(opened) ==> {
            &&& opened.len() <= payload.len()
            &&& opened == payload.take(opened.len() as int)
            &&& forall|i: int| opened.len() <= i < payload.len() ==> payload[i] == 0
        },
        (payload.len() == 0 || payload.last() != 0) ==> packet_plaintext(packet, token) == Some(payload),
{
    law_strip_trailing_zeros(payload);
    let header = miio_header(device_id, stamp, sealed.len());
    let front = header + md5_digest(header + token + sealed);
    assert(packet == front + sealed);
    assert(front.len() == 32);
    assert(packet.skip(32) =~= sealed);
}

/// The decimal text of a port, as characters.
pub open spec fn port_text(port: u16) -> Seq<char> {
    decimal_text(port as nat).map_values(|b: u8| b as char)
}

/// The decimal text of a number is digits that read back as the number.
pub(crate) proof fn lemma_decimal_text(n: nat)
    ensures
        decimal_text(n).len() > 0,
        all_decimal_digits(decimal_text(n)),
        decimal_value(decimal_text(n)) == n,
    decreases n,
{
    if n >= 10 {
        lemma_decimal_text(n / 10);
        let t = decimal_text(n);
        assert(t.drop_last() == decimal_text(n / 10));
        assert(t.last() == (0x30 + n % 10) as u8);
        assert((n / 10) * 10 + n % 10 == n);
    } else {
        let t = decimal_text(n);
        assert(t.drop_last() =~= Seq::<u8>::empty());
        assert(decimal_value(t.drop_last()) == 0);
    }
}

/// The last `:` of `front + ':' + back` is the one added, when `back` has none.
proof fn lemma_last_colon_of_join(front: Seq<char>, back: Seq<char>)
    requires
        forall|i: int| 0 <= i < back.len() ==> back[i] != ':',
    ensures
        last_colon(front + seq![':'] + back) == front.len(),
    decreases back.len(),
{
    let s = front + seq![':'] + back;
    if back.len() > 0 {
        assert(s.drop_last() =~= front + seq![':'] + back.drop_last());
        lemma_last_colon_of_join(front, back.drop_last());
    } else {
        assert(s =~= front.push(':'));
    }
}

/// Law: an address written as `ip:port` splits back into that ip and port.
/// Whatever the host text holds (colons too), the text after the last `:`
/// is the port's decimal text, which parses to the port; so
/// `split_host_port` of the address made from an ip and a port returns them.
pub proof fn law_address_round_trip(host: Seq<char>, port: u16)
    ensures
        address_parts(host + seq![':'] + port_text(port)) == Some((host, port_text(port))),
        u16_text_value(encode_utf8(port_text(port))) == Some(port),
{
    let digits = decimal_text(port as nat);
    let text = port_text(port);
    lemma_decimal_text(port as nat);
    assert forall|i: int| 0 <= i < text.len() implies text[i] != ':' && (text[i] as u32) < 128 && text[i]
        as u8 == digits[i] by {
        assert(0x30 <= digits[i] && digits[i] <= 0x39);
    }
    lemma_last_colon_of_join(host, text);
    let addr = host + seq![':'] + text;
    assert(addr.take(host.len() as int) =~= host);
    assert(addr.skip(host.len() as int + 1) =~= text);
    assert(is_ascii_chars(text));
    is_ascii_chars_encode_utf8(text);
    assert(encode_utf8(text) =~= digits);
    assert(digits[0] != 0x2b);
}

/// Number of hello exchanges tried in each mode, unicast then broadcast.
pub const HELLO_TRIES_PER_MODE: u8 = 3;

/// What the driver of a hello handshake does next.
pub enum HandshakeAction {
    /// Send the hello packet to the target address, then report one reply
    /// or a timeout.
    SendUnicast,
    /// Enable broadcast, send the hello packet to 255.255.255.255 on this
    /// port, then report one reply or a timeout.
    SendBroadcast(u16),
    /// Stop: the handshake failed with this error.
    GiveUp(MiioError),
}

/// The decisions of the hello handshake with one device: up to three
/// unicast hellos, then up to three broadcast hellos, accepting in the
/// broadcast phase only a reply from the target address.
pub struct HelloHandshake {
    target_ip: String,
    target_port: u16,
    attempts: u8,
    last_timeout: bool,
}

/// Whether a handshake result is the parse of a hello reply.
pub open spec fn parsed_reply(r: Result<HelloResponse, MiioError>, data: Seq<u8>) -> bool {
    &&& (r is Ok <==> hello_reply(data) is Some)
    &&& r matches Ok(h) ==> hello_reply(data) == Some((h.device_id@, h.stamp))
    &&& r matches Err(e) ==> protocol_error(e, hello_error_message(data))
}

/// The message of a handshake that ran out of exchanges without a reply.
pub open spec fn silent_device_message() -> Seq<char> {
    "no miIO hello response from target device (unicast+broadcast failed). Device may block local miIO on current firmware/network mode"@
}

impl HelloHandshake {
    /// At most six exchanges, and once the unicast tries are used up, the
    /// last of them timed out.
    #[verifier::type_invariant]
    spec fn tries_bounded(&self) -> bool {
        &&& self.attempts <= 2 * HELLO_TRIES_PER_MODE
        &&& self.attempts >= HELLO_TRIES_PER_MODE ==> self.last_timeout
    }

    /// The IP address of the target device.
    pub closed spec fn target_ip_text(&self) -> Seq<char> {
        self.target_ip@
    }

    /// The miIO port of the target device.
    pub closed spec fn target_port_number(&self) -> u16 {
        self.target_port
    }

    /// Hello exchanges finished without a result so far.
    pub closed spec fn exchanges_used(&self) -> nat {
        self.attempts as nat
    }

    /// Starts a handshake with the device at `addr` (`ip:port`).
    pub fn start(addr: &str) -> (r: Result<HelloHandshake, MiioError>)
        ensures
            r is Ok <==> (address_parts(addr@) matches Some((h, p)) && u16_text_value(encode_utf8(p)) is Some),
            r matches Ok(hs) ==> {
                &&& hs.exchanges_used() == 0
                &&& address_parts(addr@) matches Some((h, p))
                &&& hs.target_ip_text() == h
                &&& u16_text_value(encode_utf8(p)) == Some(hs.target_port_number())
            },
            r matches Err(e) ==> address_error(e, addr@),
    {
        let (target_ip, target_port) = split_host_port(addr)?;
        Ok(HelloHandshake { target_ip, target_port, attempts: 0, last_timeout: false })
    }

    /// What to do next: unicast for the first three exchanges, broadcast
    /// for the next three, then give up. A handshake that gives up always
    /// reports that the device did not answer: the broadcast phase is only
    /// reached after three unicast timeouts, so the generic failure message
    /// is never given.
    pub fn next_action(&self) -> (a: HandshakeAction)
        ensures
            self.exchanges_used() <= 2 * HELLO_TRIES_PER_MODE,
            self.exchanges_used() < HELLO_TRIES_PER_MODE ==> a is SendUnicast,
            HELLO_TRIES_PER_MODE <= self.exchanges_used() < 2 * HELLO_TRIES_PER_MODE ==> (a matches HandshakeAction::SendBroadcast(
                port,
            ) && port == self.target_port_number()),
            self.exchanges_used() == 2 * HELLO_TRIES_PER_MODE ==> (a matches HandshakeAction::GiveUp(
                e,
            ) && protocol_error(e, silent_device_message())),
    {
        proof {
            use_type_invariant(self);
        }
        if self.attempts < HELLO_TRIES_PER_MODE {
            HandshakeAction::SendUnicast
        } else if self.attempts < 2 * HELLO_TRIES_PER_MODE {
            HandshakeAction::SendBroadcast(self.target_port)
        } else if self.last_timeout {
            HandshakeAction::GiveUp(
                MiioError::Protocol(
                    "no miIO hello response from target device (unicast+broadcast failed). Device may block local miIO on current firmware/network mode".to_string(),
                ),
            )
        } else {
            HandshakeAction::GiveUp(MiioError::Protocol("miIO hello handshake failed".to_string()))
        }
    }

    /// A reply arrived from `source_ip`. A unicast reply ends the handshake
    /// with its parse; a broadcast reply does so only when it comes from
    /// the target, and otherwise uses up the exchange.
    pub fn on_reply(&mut self, source_ip: &String, data: &[u8]) -> (r: Option<Result<HelloResponse, MiioError>>)
        requires
            old(self).exchanges_used() < 2 * HELLO_TRIES_PER_MODE,
        ensures
            final(self).target_ip_text() == old(self).target_ip_text(),
            final(self).target_port_number() == old(self).target_port_number(),
            (old(self).exchanges_used() < HELLO_TRIES_PER_MODE || source_ip@ == old(self).target_ip_text()) ==> {
                &&& r matches Some(res) && parsed_reply(res, data@)
                &&& final(self).exchanges_used() == old(self).exchanges_used()
            },
            !(old(self).exchanges_used() < HELLO_TRIES_PER_MODE || source_ip@ == old(self).target_ip_text()) ==> {
                &&& r is None
                &&& final(self).exchanges_used() == old(self).exchanges_used() + 1
            },
    {
        proof {
            use_type_invariant(&*self);
        }
        if self.attempts < HELLO_TRIES_PER_MODE || source_ip.eq(&self.target_ip) {
            Some(parse_hello_response(data))
        } else {
            self.attempts = self.attempts + 1;
            None
        }
    }

    /// No reply arrived in time: the exchange is used up.
    pub fn on_timeout(&mut self)
        requires
            old(self).exchanges_used() < 2 * HELLO_TRIES_PER_MODE,
        ensures
            final(self).target_ip_text() == old(self).target_ip_text(),
            final(self).target_port_number() == old(self).target_port_number(),
            final(self).exchanges_used() == old(self).exchanges_used() + 1,
    {
        proof {
            use_type_invariant(&*self);
        }
        self.last_timeout = true;
        self.attempts = self.attempts + 1;
    }
}

} // verus!
