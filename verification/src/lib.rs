//! Verified core of a Yeelight miIO client.
//!
//! The library holds the protocol logic: token parsing and key derivation,
//! AES-128-CBC payload encryption, packet framing and parsing, the decisions
//! of the hello handshake and of the diagnostics probes. Sockets, timers and
//! the desktop shell live outside the library and drive it.
pub mod types;
pub mod crypto;
pub mod text;
pub mod protocol;
pub mod network;
pub mod commands;
