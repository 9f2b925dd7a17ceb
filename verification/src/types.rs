//! Data types shared by the protocol, crypto and diagnostics modules.
use vstd::prelude::*;

verus! {

/// The standard library's integer parse error, carried by
/// `MiioError::InvalidTokenHex`.
#[verifier::external_type_specification]
#[verifier::external_body]
pub struct ExParseIntError(std::num::ParseIntError);

/// The error of `serde_json`, carried by `MiioError::Json`.
#[verifier::external_type_specification]
#[verifier::external_body]
pub struct ExJsonError(serde_json::Error);

/// A parsed JSON document of `serde_json`, carried by command responses.
#[verifier::external_type_specification]
#[verifier::external_body]
pub struct ExJsonValue(serde_json::Value);

/// Default port for miIO protocol communication.
pub const DEFAULT_MIIO_PORT: u16 = 54321;

/// The port used when a request does not name one.
pub fn default_port() -> (port: u16)
    ensures
        port == DEFAULT_MIIO_PORT,
{
    DEFAULT_MIIO_PORT
}

/// Request to send a miIO command to a device.
#[derive(Debug)]
pub struct MiioCommandRequest {
    /// Device IP address.
    pub ip: String,
    /// Device token (32 hex characters).
    pub token: String,
    /// Method name to invoke on device.
    pub method: String,
    /// Parameters for the method, as compact JSON text.
    pub params: String,
    /// Port number.
    pub port: u16,
}

/// Request to run diagnostic checks on a device.
#[derive(Debug)]
pub struct DiagnosticsRequest {
    /// Device IP address.
    pub ip: String,
    /// Port number.
    pub port: u16,
}

/// Result of a TCP connectivity probe.
#[derive(Debug)]
pub struct TcpProbeResult {
    /// Whether the connection succeeded.
    pub ok: bool,
    /// Error message if connection failed.
    pub error: Option<String>,
}

/// Result of a UDP hello probe (unicast).
#[derive(Debug)]
pub struct UdpHelloProbeResult {
    /// Whether we received a valid hello response.
    pub ok: bool,
    /// Error message if probe failed.
    pub error: Option<String>,
    /// Device ID from the hello response.
    pub did: Option<u32>,
    /// Timestamp from the hello response.
    pub stamp: Option<u32>,
}

/// A device seen during UDP broadcast scan.
#[derive(Debug, Clone)]
pub struct BroadcastDeviceSeen {
    /// Device IP address.
    pub ip: String,
    /// Device ID.
    pub did: u32,
    /// Timestamp from hello packet.
    pub stamp: u32,
}

/// Result of UDP broadcast scan for device discovery.
#[derive(Debug)]
pub struct BroadcastScanResult {
    /// Whether any devices were found.
    pub ok: bool,
    /// Error message if no devices found.
    pub error: Option<String>,
    /// List of devices that responded to broadcast.
    pub devices_seen: Vec<BroadcastDeviceSeen>,
    /// Whether the target device was seen.
    pub target_seen: bool,
}

/// Complete diagnostic report for a device.
#[derive(Debug)]
pub struct DiagnosticsReport {
    /// Target IP that was probed.
    pub target_ip: String,
    /// miIO port used.
    pub miio_port: u16,
    /// TCP probe on Yeelight port (55443).
    pub tcp_yeelight_55443: TcpProbeResult,
    /// TCP probe on miIO port (54321).
    pub tcp_miio_54321: TcpProbeResult,
    /// UDP unicast hello probe result.
    pub udp_unicast_hello: UdpHelloProbeResult,
    /// UDP broadcast scan result.
    pub udp_broadcast_scan: BroadcastScanResult,
}

/// Response from a miIO command.
#[derive(Debug)]
pub struct MiioCommandResponse {
    /// Raw UTF-8 string of decrypted response.
    pub raw: String,
    /// Parsed JSON response (if valid).
    pub json: Option<serde_json::Value>,
}

/// Errors that can occur in the protocol logic.
#[derive(Debug)]
pub enum MiioError {
    /// The token is not 32 bytes long after trimming.
    InvalidToken,
    /// A pair of token characters is not a hex byte.
    InvalidTokenHex(std::num::ParseIntError),
    /// A packet or address breaks the protocol.
    Protocol(String),
    /// Encryption or decryption failed.
    Crypto(String),
    /// JSON serialisation failed.
    Json(serde_json::Error),
}

/// Parsed hello response from a device.
#[derive(Debug)]
pub struct HelloResponse {
    /// Device ID as 4 bytes.
    pub device_id: [u8; 4],
    /// Timestamp from device.
    pub stamp: u32,
}

/// Whether `e` is a protocol error with message `m`.
pub open spec fn protocol_error(e: MiioError, m: Seq<char>) -> bool {
    e matches MiioError::Protocol(text) && text@ == m
}

/// Whether `e` is a crypto error with message `m`.
pub open spec fn crypto_error(e: MiioError, m: Seq<char>) -> bool {
    e matches MiioError::Crypto(text) && text@ == m
}

/// The text of an error, as the protocol layer reports it; for a JSON error
/// only its prefix is fixed, the rest is the serialiser's own description.
pub open spec fn error_message_prefix(e: MiioError) -> Seq<char> {
    match e {
        MiioError::InvalidToken => "invalid token: expected 32 hex characters"@,
        MiioError::InvalidTokenHex(_) => "failed to parse token hex"@,
        MiioError::Protocol(m) => "protocol error: "@ + m@,
        MiioError::Crypto(m) => "crypto error: "@ + m@,
        MiioError::Json(_) => "json error: "@,
    }
}

impl MiioError {
    /// The human-readable description of the error.
    pub fn message(&self) -> (text: String)
        ensures
            self is Json ==> error_message_prefix(*self).is_prefix_of(text@),
            !(self is Json) ==> text@ == error_message_prefix(*self),
    {
        match self {
            MiioError::InvalidToken => "invalid token: expected 32 hex characters".to_string(),
            MiioError::InvalidTokenHex(_) => "failed to parse token hex".to_string(),
            MiioError::Protocol(m) => "protocol error: ".to_string().concat(m.as_str()),
            MiioError::Crypto(m) => "crypto error: ".to_string().concat(m.as_str()),
            MiioError::Json(e) => {
                let detail = e.to_string();
                let prefix = "json error: ".to_string();
                let ghost p = prefix@;
                let text = prefix.concat(detail.as_str());
                assert((p + detail@).subrange(0, p.len() as int) =~= p);
                text
            },
        }
    }
}

} // verus!
