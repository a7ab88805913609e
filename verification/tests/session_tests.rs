use slp_client::frame::{decode_packet, encode_string_field, push_u64_be};
use slp_client::session::{
    latency_ms, AddressConfig, HandshakeSession, ProtocolError, SessionState,
};
use slp_client::status::{ServerDescription, StatusError};
use slp_client::varint::varint_decode;

const STATUS_JSON: &str = "{\"description\":\"A Server\",\"players\":{\"online\":2,\"max\":20,\
\"sample\":[{\"name\":\"Alice\",\"id\":\"x\"},{\"name\":\"Bob\",\"id\":\"y\"}]},\
\"version\":{\"name\":\"1.20\",\"protocol\":763}}";

fn status_response_body() -> Vec<u8> {
    encode_string_field(&STATUS_JSON.as_bytes().to_vec())
}

#[test]
fn config_defaults_and_override() {
    let c = AddressConfig::build("example.org".to_string());
    assert_eq!(c.port, 25565);
    let c = c.with_port(7777);
    assert_eq!(c.host, "example.org");
    assert_eq!(c.port, 7777);
}

#[test]
fn end_to_end_against_a_mock_server() {
    let config = AddressConfig::build("example.org".to_string());
    let mut sess = HandshakeSession::new(&config, 763);
    assert_eq!(sess.state, SessionState::Disconnected);

    // The mock transport "opens".
    sess.on_connected().expect("connects");
    assert_eq!(sess.state, SessionState::Connected);

    // Handshake: packet id 0, body = VarInt(763) ++ String(host) ++
    // UShort(port) ++ VarInt(1).
    let hs = sess.handshake_frame().expect("handshake bytes");
    let (id, body, used) = decode_packet(&hs).expect("well-framed");
    assert_eq!(id, 0);
    assert_eq!(used, hs.len());
    let (pv, c) = varint_decode(&body, 0).expect("protocol version");
    assert_eq!(pv, 763);
    let (hostlen, c2) = varint_decode(&body, c).expect("host length");
    assert_eq!(hostlen as usize, "example.org".len());
    let host_start = c + c2;
    let host_end = host_start + hostlen as usize;
    assert_eq!(&body[host_start..host_end], "example.org".as_bytes());
    assert_eq!(&body[host_end..host_end + 2], &[(25565u16 / 256) as u8, (25565u16 % 256) as u8]);
    assert_eq!(&body[host_end + 2..], &[0x01]);

    // Status Request: id 0, empty body.
    let rq = sess.status_request_frame().expect("request bytes");
    assert_eq!(rq, vec![0x01, 0x00]);
    assert_eq!(sess.state, SessionState::AwaitingStatus);

    // The mock server answers with the canned JSON.
    let status = sess.on_status_frame(0, &status_response_body()).expect("status");
    assert_eq!(sess.state, SessionState::StatusReceived);
    match &status.description {
        ServerDescription::Plain(t) => assert_eq!(t, "A Server"),
        ServerDescription::Object(_) => panic!("expected a plain description"),
    }
    assert_eq!(status.players.online, 2);
    assert_eq!(status.players.max, 20);
    assert_eq!(
        slp_client::status::player_names_joined(&status.players.sample),
        "Alice\nBob"
    );
    assert_eq!(status.version.protocol, 763);

    // Ping with the canned payload; the mock echoes it.
    let ping = sess.ping_frame(299792458).expect("ping bytes");
    let (pid, pbody, _) = decode_packet(&ping).expect("well-framed");
    assert_eq!(pid, 1);
    assert_eq!(pbody.len(), 8);
    let echoed = sess.on_pong_frame(1, &pbody).expect("pong");
    assert_eq!(echoed, 299792458);
    assert_eq!(sess.state, SessionState::Done);

    // Latency comes from clock readings around the exchange.
    let lat = latency_ms(1000, 1007);
    assert_eq!(lat, 7);
}

#[test]
fn wrong_status_packet_id_is_a_protocol_error() {
    let config = AddressConfig::build("example.org".to_string());
    let mut sess = HandshakeSession::new(&config, 763);
    sess.on_connected().expect("connects");
    sess.handshake_frame().expect("handshake bytes");
    sess.status_request_frame().expect("request bytes");
    let r = sess.on_status_frame(2, &status_response_body());
    assert_eq!(r.err(), Some(ProtocolError::UnexpectedPacket));
    assert_eq!(sess.state, SessionState::Failed);
}

#[test]
fn pong_must_carry_eight_bytes_under_id_one() {
    let config = AddressConfig::build("example.org".to_string());
    let mut sess = HandshakeSession::new(&config, 763);
    sess.on_connected().expect("connects");
    sess.handshake_frame().expect("handshake bytes");
    sess.status_request_frame().expect("request bytes");
    sess.on_status_frame(0, &status_response_body()).expect("status");
    sess.ping_frame(42).expect("ping bytes");

    let mut short: Vec<u8> = Vec::new();
    push_u64_be(&mut short, 42);
    short.pop();
    let r = sess.on_pong_frame(1, &short);
    assert!(matches!(r, Err(ProtocolError::Frame(_))));
    assert_eq!(sess.state, SessionState::Failed);
}

#[test]
fn pong_need_not_echo_the_sent_payload() {
    let config = AddressConfig::build("example.org".to_string());
    let mut sess = HandshakeSession::new(&config, 763);
    sess.on_connected().expect("connects");
    sess.handshake_frame().expect("handshake bytes");
    sess.status_request_frame().expect("request bytes");
    sess.on_status_frame(0, &status_response_body()).expect("status");
    sess.ping_frame(299792458).expect("ping bytes");

    let mut other: Vec<u8> = Vec::new();
    push_u64_be(&mut other, 12345);
    let echoed = sess.on_pong_frame(1, &other).expect("pong");
    assert_eq!(echoed, 12345);
    assert_eq!(sess.state, SessionState::Done);
}

#[test]
fn bad_status_payload_surfaces_typed_errors() {
    // The body is not even a framed string field.
    let config = AddressConfig::build("example.org".to_string());
    let mut sess = HandshakeSession::new(&config, 763);
    sess.on_connected().expect("connects");
    sess.handshake_frame().expect("handshake bytes");
    sess.status_request_frame().expect("request bytes");
    let r = sess.on_status_frame(0, &vec![0x7F]);
    assert!(matches!(r, Err(ProtocolError::Frame(_))));
    assert_eq!(sess.state, SessionState::Failed);

    // The string field holds bytes that are not JSON.
    let mut sess2 = HandshakeSession::new(&config, 763);
    sess2.on_connected().expect("connects");
    sess2.handshake_frame().expect("handshake bytes");
    sess2.status_request_frame().expect("request bytes");
    let body = encode_string_field(&b"not json".to_vec());
    let r = sess2.on_status_frame(0, &body);
    assert_eq!(r.err(), Some(ProtocolError::Status(StatusError::InvalidJson)));
    assert_eq!(sess2.state, SessionState::Failed);
}

#[test]
fn timeout_fails_the_session() {
    let config = AddressConfig::build("example.org".to_string());
    let mut sess = HandshakeSession::new(&config, 763);
    sess.on_connected().expect("connects");
    sess.handshake_frame().expect("handshake bytes");
    sess.status_request_frame().expect("request bytes");
    // The mock server never answers: the driver reports the deadline.
    let e = sess.on_timeout();
    assert_eq!(e, ProtocolError::Timeout);
    assert_eq!(sess.state, SessionState::Failed);
}

#[test]
fn connect_failure_and_io_failure_are_typed() {
    let config = AddressConfig::build("example.org".to_string());
    let mut sess = HandshakeSession::new(&config, 763);
    assert_eq!(sess.on_connect_failed(), ProtocolError::Connect);
    assert_eq!(sess.state, SessionState::Failed);

    let mut sess2 = HandshakeSession::new(&config, 763);
    sess2.on_connected().expect("connects");
    assert!(matches!(sess2.on_io_error(), ProtocolError::Frame(_)));
    assert_eq!(sess2.state, SessionState::Failed);
}

#[test]
fn out_of_order_operations_are_refused_without_panic() {
    let config = AddressConfig::build("example.org".to_string());
    let mut sess = HandshakeSession::new(&config, 763);
    // Handshake before the transport is open.
    let r = sess.handshake_frame();
    assert_eq!(r.err(), Some(ProtocolError::UnexpectedState));
    assert_eq!(sess.state, SessionState::Failed);
    // Everything after a failure keeps refusing.
    let r = sess.status_request_frame();
    assert_eq!(r.err(), Some(ProtocolError::UnexpectedState));
}

#[test]
fn latency_never_underflows() {
    assert_eq!(latency_ms(5, 5), 0);
    assert_eq!(latency_ms(10, 4), 0);
    assert_eq!(latency_ms(0, u64::MAX), u64::MAX);
}
