//! The handshake session: a state machine over one connection. It decides
//! what bytes to send and what each received frame means; the transport and
//! the clock stay outside.

use vstd::prelude::*;
use vstd::string::*;
use crate::varint::{FrameError, varint_enc};
use crate::frame::{
    packet_enc, string_field_dec, be64_bytes, be64_val, encode_packet, decode_string_field,
    push_u64_be, be64_decode,
};
use crate::json::json_of;
use crate::status::{
    StatusError, StatusResult, StatusView, spec_status_of, status_view, parse_status,
};

verus! {

/// The target of a query: hostname and port, the port defaulting to 25565.
pub struct AddressConfig {
    pub host: String,
    pub port: u16,
}

impl AddressConfig {
    /// A config for `host` with the default port.
    pub fn build(host: String) -> (r: AddressConfig)
        ensures
            r.host == host,
            r.port == 25565,
    {
        AddressConfig { host, port: 25565 }
    }

    /// The same config with the port overridden.
    pub fn with_port(self, port: u16) -> (r: AddressConfig)
        ensures
            r.host == self.host,
            r.port == port,
    {
        AddressConfig { host: self.host, port }
    }
}

/// Where a session stands.
#[derive(Clone, Copy, Debug, PartialEq, Eq, Structural)]
pub enum SessionState {
    Disconnected,
    Connected,
    HandshakeSent,
    AwaitingStatus,
    StatusReceived,
    AwaitingPong,
    Done,
    Failed,
}

/// Every way a query can fail. `Connect`: the transport could not be
/// opened. `Timeout`: a phase ran out of time. `Frame`: malformed or
/// truncated wire data. `UnexpectedPacket`: a response with the wrong
/// packet id. `UnexpectedState`: an operation out of order.
/// `Status`: the payload violated the shape rules.
#[derive(Clone, Copy, Debug, PartialEq, Eq, Structural)]
pub enum ProtocolError {
    Connect,
    Timeout,
    Frame(FrameError),
    UnexpectedPacket,
    UnexpectedState,
    Status(StatusError),
}

/// The body of the handshake packet: protocol version, the length-prefixed
/// host bytes, the big-endian port, then the next-state code 1 (status).
pub open spec fn handshake_body(pv: nat, host: Seq<u8>, port: nat) -> Seq<u8> {
    varint_enc(pv) + varint_enc(host.len() as nat) + host + seq![
        (port / 256) as u8,
        (port % 256) as u8,
    ] + varint_enc(1)
}

/// What an incoming status frame means: the wrong id is a protocol error;
/// otherwise the body must carry one string field of JSON whose shape
/// rules decide the rest.
pub open spec fn status_frame_outcome(id: nat, body: Seq<u8>) -> Result<
    StatusView,
    ProtocolError,
> {
    if id != 0 {
        Err(ProtocolError::UnexpectedPacket)
    } else {
        match string_field_dec(body) {
            Err(e) => Err(ProtocolError::Frame(e)),
            Ok(raw) => match json_of(raw) {
                Option::None => Err(ProtocolError::Status(StatusError::InvalidJson)),
                Option::Some(v) => match spec_status_of(v) {
                    Ok(sv) => Ok(sv),
                    Err(e) => Err(ProtocolError::Status(e)),
                },
            },
        }
    }
}

/// What an incoming pong frame means: id 1 and an eight-byte payload, whose
/// value is handed back; the payload need not equal the one sent.
pub open spec fn pong_outcome(id: nat, body: Seq<u8>) -> Result<nat, ProtocolError> {
    if id != 1 {
        Err(ProtocolError::UnexpectedPacket)
    } else if body.len() != 8 {
        Err(ProtocolError::Frame(FrameError::TruncatedStream))
    } else {
        Ok(be64_val(body))
    }
}

/// One status query over one connection. The transport-facing methods
/// return the exact bytes to send or consume one received frame; every
/// failure lands in `Failed` and nothing is retried.
pub struct HandshakeSession {
    pub state: SessionState,
    pub host_bytes: Vec<u8>,
    pub port: u16,
    pub protocol_version: u32,
}

/// The fields that never change over a session's life.
pub open spec fn same_params(a: HandshakeSession, b: HandshakeSession) -> bool {
    a.host_bytes@ == b.host_bytes@ && a.port == b.port && a.protocol_version == b.protocol_version
}

impl HandshakeSession {
    /// A fresh session for the target, not yet connected.
    pub fn new(config: &AddressConfig, protocol_version: u32) -> (r: HandshakeSession)
        ensures
            r.state == SessionState::Disconnected,
            r.host_bytes@ == vstd::utf8::encode_utf8(config.host@),
            r.port == config.port,
            r.protocol_version == protocol_version,
    {
        HandshakeSession {
            state: SessionState::Disconnected,
            host_bytes: config.host.as_str().as_bytes_vec(),
            port: config.port,
            protocol_version,
        }
    }

    /// Records that the transport is open: `Disconnected` to `Connected`.
    pub fn on_connected(&mut self) -> (r: Result<(), ProtocolError>)
        ensures
            same_params(*old(self), *final(self)),
            (if old(self).state == SessionState::Disconnected {
                r == Ok::<(), ProtocolError>(()) && final(self).state == SessionState::Connected
            } else {
                r == Err::<(), ProtocolError>(ProtocolError::UnexpectedState) && final(self).state
                    == SessionState::Failed
            }),
    {
        match self.state {
            SessionState::Disconnected => {
                self.state = SessionState::Connected;
                Ok(())
            },
            _ => {
                self.state = SessionState::Failed;
                Err(ProtocolError::UnexpectedState)
            },
        }
    }

    /// Records that the transport could not be opened.
    pub fn on_connect_failed(&mut self) -> (r: ProtocolError)
        ensures
            same_params(*old(self), *final(self)),
            final(self).state == SessionState::Failed,
            r == ProtocolError::Connect,
    {
        self.state = SessionState::Failed;
        ProtocolError::Connect
    }

    /// Records that a phase ran out of time; the connection is abandoned.
    pub fn on_timeout(&mut self) -> (r: ProtocolError)
        ensures
            same_params(*old(self), *final(self)),
            final(self).state == SessionState::Failed,
            r == ProtocolError::Timeout,
    {
        self.state = SessionState::Failed;
        ProtocolError::Timeout
    }

    /// Records that the stream failed or closed mid-exchange.
    pub fn on_io_error(&mut self) -> (r: ProtocolError)
        ensures
            same_params(*old(self), *final(self)),
            final(self).state == SessionState::Failed,
            r == ProtocolError::Frame(FrameError::TruncatedStream),
    {
        self.state = SessionState::Failed;
        ProtocolError::Frame(FrameError::TruncatedStream)
    }

    /// The handshake packet announcing status intent: `Connected` to
    /// `HandshakeSent`. The host must leave the length prefix room within
    /// the 32-bit range.
    pub fn handshake_frame(&mut self) -> (r: Result<Vec<u8>, ProtocolError>)
        requires
            old(self).host_bytes@.len() + 32 <= u32::MAX,
        ensures
            same_params(*old(self), *final(self)),
            (if old(self).state == SessionState::Connected {
                final(self).state == SessionState::HandshakeSent && (r matches Ok(b) && b@
                    == packet_enc(
                    0,
                    handshake_body(
                        old(self).protocol_version as nat,
                        old(self).host_bytes@,
                        old(self).port as nat,
                    ),
                ))
            } else {
                r == Err::<Vec<u8>, ProtocolError>(ProtocolError::UnexpectedState) && final(self).state == SessionState::Failed
            }),
    {
        match self.state {
            SessionState::Connected => {
                let mut body: Vec<u8> = Vec::new();
                crate::varint::push_varint(&mut body, self.protocol_version);
                crate::varint::push_varint(&mut body, self.host_bytes.len() as u32);
                let mut k: usize = 0;
                let ghost mid = body@;
                while k < self.host_bytes.len()
                    invariant
                        k <= self.host_bytes@.len(),
                        body@ =~= mid + self.host_bytes@.take(k as int),
                    decreases self.host_bytes@.len() - k,
                {
                    let b = self.host_bytes[k];
                    body.push(b);
                    k = k + 1;
                }
                body.push((self.port / 256) as u8);
                body.push((self.port % 256) as u8);
                crate::varint::push_varint(&mut body, 1);
                proof {
                    crate::varint::lemma_varint_enc_len(self.protocol_version as nat);
                    crate::varint::lemma_varint_enc_len(self.host_bytes@.len() as nat);
                    crate::varint::lemma_varint_enc_len(1);
                    assert(body@ =~= handshake_body(
                        self.protocol_version as nat,
                        self.host_bytes@,
                        self.port as nat,
                    ));
                }
                let packet = encode_packet(0, &body);
                self.state = SessionState::HandshakeSent;
                Ok(packet)
            },
            _ => {
                self.state = SessionState::Failed;
                Err(ProtocolError::UnexpectedState)
            },
        }
    }

    /// The empty Status Request packet: `HandshakeSent` to
    /// `AwaitingStatus`.
    pub fn status_request_frame(&mut self) -> (r: Result<Vec<u8>, ProtocolError>)
        ensures
            same_params(*old(self), *final(self)),
            (if old(self).state == SessionState::HandshakeSent {
                final(self).state == SessionState::AwaitingStatus && (r matches Ok(b) && b@
                    == packet_enc(0, Seq::<u8>::empty()))
            } else {
                r == Err::<Vec<u8>, ProtocolError>(ProtocolError::UnexpectedState) && final(self).state == SessionState::Failed
            }),
    {
        match self.state {
            SessionState::HandshakeSent => {
                let body: Vec<u8> = Vec::new();
                let packet = encode_packet(0, &body);
                self.state = SessionState::AwaitingStatus;
                Ok(packet)
            },
            _ => {
                self.state = SessionState::Failed;
                Err(ProtocolError::UnexpectedState)
            },
        }
    }

    /// Consumes the one response frame to a Status Request:
    /// `AwaitingStatus` to `StatusReceived`, or to `Failed` on the wrong
    /// id or a bad payload.
    pub fn on_status_frame(&mut self, id: u32, body: &Vec<u8>) -> (r: Result<
        StatusResult,
        ProtocolError,
    >)
        ensures
            same_params(*old(self), *final(self)),
            (if old(self).state == SessionState::AwaitingStatus {
                match r {
                    Ok(s) => status_frame_outcome(id as nat, body@) == Ok::<
                        StatusView,
                        ProtocolError,
                    >(status_view(s)) && final(self).state == SessionState::StatusReceived,
                    Err(e) => status_frame_outcome(id as nat, body@) == Err::<
                        StatusView,
                        ProtocolError,
                    >(e) && final(self).state == SessionState::Failed,
                }
            } else {
                r == Err::<StatusResult, ProtocolError>(ProtocolError::UnexpectedState) && final(self).state == SessionState::Failed
            }),
    {
        match self.state {
            SessionState::AwaitingStatus => {
                if id != 0 {
                    self.state = SessionState::Failed;
                    return Err(ProtocolError::UnexpectedPacket);
                }
                let raw = match decode_string_field(body) {
                    Err(e) => {
                        self.state = SessionState::Failed;
                        return Err(ProtocolError::Frame(e));
                    },
                    Ok(raw) => raw,
                };
                match parse_status(&raw) {
                    Ok(s) => {
                        self.state = SessionState::StatusReceived;
                        Ok(s)
                    },
                    Err(e) => {
                        self.state = SessionState::Failed;
                        Err(ProtocolError::Status(e))
                    },
                }
            },
            _ => {
                self.state = SessionState::Failed;
                Err(ProtocolError::UnexpectedState)
            },
        }
    }

    /// The ping packet with an eight-byte big-endian payload:
    /// `StatusReceived` to `AwaitingPong`.
    pub fn ping_frame(&mut self, payload: u64) -> (r: Result<Vec<u8>, ProtocolError>)
        ensures
            same_params(*old(self), *final(self)),
            (if old(self).state == SessionState::StatusReceived {
                final(self).state == SessionState::AwaitingPong && (r matches Ok(b) && b@
                    == packet_enc(1, be64_bytes(payload as nat)))
            } else {
                r == Err::<Vec<u8>, ProtocolError>(ProtocolError::UnexpectedState) && final(self).state == SessionState::Failed
            }),
    {
        match self.state {
            SessionState::StatusReceived => {
                let mut body: Vec<u8> = Vec::new();
                push_u64_be(&mut body, payload);
                let packet = encode_packet(1, &body);
                self.state = SessionState::AwaitingPong;
                Ok(packet)
            },
            _ => {
                self.state = SessionState::Failed;
                Err(ProtocolError::UnexpectedState)
            },
        }
    }

    /// Consumes the pong frame: `AwaitingPong` to `Done`, handing the
    /// echoed payload back for optional verification.
    pub fn on_pong_frame(&mut self, id: u32, body: &Vec<u8>) -> (r: Result<u64, ProtocolError>)
        ensures
            same_params(*old(self), *final(self)),
            (if old(self).state == SessionState::AwaitingPong {
                match r {
                    Ok(p) => pong_outcome(id as nat, body@) == Ok::<nat, ProtocolError>(p as nat)
                        && final(self).state == SessionState::Done,
                    Err(e) => pong_outcome(id as nat, body@) == Err::<nat, ProtocolError>(e)
                        && final(self).state == SessionState::Failed,
                }
            } else {
                r == Err::<u64, ProtocolError>(ProtocolError::UnexpectedState) && final(self).state == SessionState::Failed
            }),
    {
        match self.state {
            SessionState::AwaitingPong => {
                if id != 1 {
                    self.state = SessionState::Failed;
                    return Err(ProtocolError::UnexpectedPacket);
                }
                if body.len() != 8 {
                    self.state = SessionState::Failed;
                    return Err(ProtocolError::Frame(FrameError::TruncatedStream));
                }
                let p = be64_decode(body);
                self.state = SessionState::Done;
                Ok(p)
            },
            _ => {
                self.state = SessionState::Failed;
                Err(ProtocolError::UnexpectedState)
            },
        }
    }
}

/// A server that echoes the ping body byte for byte hands back exactly the
/// payload that was sent; the session still accepts any other eight bytes
/// and leaves the comparison to the caller.
pub proof fn lemma_pong_echo(payload: u64)
    ensures
        pong_outcome(1, be64_bytes(payload as nat)) == Ok::<nat, ProtocolError>(payload as nat),
{
    crate::frame::lemma_be64_round_trip(payload);
}

/// Round-trip time from wall-clock readings taken just before the ping was
/// sent and just after the pong arrived; clock steps backwards count as
/// zero.
pub fn latency_ms(start_ms: u64, end_ms: u64) -> (r: u64)
    ensures
        r as int == (if end_ms >= start_ms {
            end_ms - start_ms
        } else {
            0
        }),
{
    if end_ms >= start_ms {
        end_ms - start_ms
    } else {
        0
    }
}

} // verus!
