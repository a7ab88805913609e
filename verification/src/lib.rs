//! A client library for the Minecraft Server List Ping protocol.
//!
//! The wire layer (VarInt coding and length-prefixed packet framing), the
//! status-payload shape rules and the handshake session state machine are
//! verified; an unverified runner supplies the TCP transport and the clock.

pub mod frame;
pub mod json;
pub mod session;
pub mod status;
pub mod varint;
