use slp_client::frame::{
    be64_decode, decode_packet, decode_string_field, encode_packet, encode_string_field,
    push_u64_be,
};
use slp_client::varint::FrameError;

#[test]
fn empty_packet_wire_form() {
    let body: Vec<u8> = Vec::new();
    let pkt = encode_packet(0, &body);
    assert_eq!(pkt, vec![0x01, 0x00]);
    let (id, got, used) = decode_packet(&pkt).expect("decodes");
    assert_eq!(id, 0);
    assert!(got.is_empty());
    assert_eq!(used, 2);
}

#[test]
fn packet_round_trip() {
    let body: Vec<u8> = vec![0x10, 0x20, 0x30, 0x40, 0x50, 0x60, 0x70, 0x80];
    let pkt = encode_packet(1, &body);
    let (id, got, used) = decode_packet(&pkt).expect("decodes");
    assert_eq!(id, 1);
    assert_eq!(got, body);
    assert_eq!(used, pkt.len());
}

#[test]
fn packet_round_trip_large_id() {
    let body: Vec<u8> = (0u8..200).collect();
    let pkt = encode_packet(300, &body);
    let (id, got, used) = decode_packet(&pkt).expect("decodes");
    assert_eq!(id, 300);
    assert_eq!(got, body);
    assert_eq!(used, pkt.len());
}

#[test]
fn packet_decode_waits_for_missing_bytes() {
    let body: Vec<u8> = vec![7; 20];
    let pkt = encode_packet(0, &body);
    for cut in 0..pkt.len() {
        let partial: Vec<u8> = pkt[..cut].to_vec();
        assert_eq!(decode_packet(&partial), Err(FrameError::TruncatedStream));
    }
    let mut with_extra = pkt.clone();
    with_extra.extend([0xAA, 0xBB]);
    let (id, got, used) = decode_packet(&with_extra).expect("decodes");
    assert_eq!(id, 0);
    assert_eq!(got, body);
    assert_eq!(used, pkt.len());
}

#[test]
fn string_field_round_trip() {
    let payload: Vec<u8> = b"{\"a\":1}".to_vec();
    let enc = encode_string_field(&payload);
    assert_eq!(enc[0] as usize, payload.len());
    assert_eq!(decode_string_field(&enc), Ok(payload));
}

#[test]
fn string_field_truncated() {
    let payload: Vec<u8> = b"hello".to_vec();
    let mut enc = encode_string_field(&payload);
    enc.pop();
    assert_eq!(decode_string_field(&enc), Err(FrameError::TruncatedStream));
}

#[test]
fn big_endian_eight_bytes() {
    let mut out: Vec<u8> = Vec::new();
    push_u64_be(&mut out, 299792458);
    assert_eq!(out, vec![0x00, 0x00, 0x00, 0x00, 0x11, 0xDE, 0x78, 0x4A]);
    assert_eq!(be64_decode(&out), 299792458);

    let mut max: Vec<u8> = Vec::new();
    push_u64_be(&mut max, u64::MAX);
    assert_eq!(max, vec![0xFF; 8]);
    assert_eq!(be64_decode(&max), u64::MAX);
}
