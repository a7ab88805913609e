use slp_client::varint::{varint_decode, varint_encode, FrameError};

fn round_trip(n: u32) {
    let enc = varint_encode(n);
    assert!(enc.len() >= 1 && enc.len() <= 5);
    let (v, c) = varint_decode(&enc, 0).expect("decodes");
    assert_eq!(v, n);
    assert_eq!(c, enc.len());
}

#[test]
fn varint_round_trips() {
    for n in [0u32, 1, 2, 127, 128, 129, 255, 300, 16383, 16384, 2097151, 2097152] {
        round_trip(n);
    }
    round_trip(2147483647);
    round_trip(u32::MAX);
}

#[test]
fn varint_known_encodings() {
    assert_eq!(varint_encode(0), vec![0x00]);
    assert_eq!(varint_encode(1), vec![0x01]);
    assert_eq!(varint_encode(127), vec![0x7F]);
    assert_eq!(varint_encode(128), vec![0x80, 0x01]);
    assert_eq!(varint_encode(300), vec![0xAC, 0x02]);
    assert_eq!(varint_encode(25565), vec![0xDD, 0xC7, 0x01]);
}

#[test]
fn varint_decode_ignores_trailing_bytes() {
    let mut enc = varint_encode(300);
    enc.push(0xFF);
    enc.push(0x00);
    let (v, c) = varint_decode(&enc, 0).expect("decodes");
    assert_eq!(v, 300);
    assert_eq!(c, 2);
}

#[test]
fn varint_decode_at_offset() {
    let mut buf = vec![0x99, 0x99];
    buf.extend(varint_encode(128));
    let (v, c) = varint_decode(&buf, 2).expect("decodes");
    assert_eq!(v, 128);
    assert_eq!(c, 2);
}

#[test]
fn varint_truncated_is_reported() {
    assert_eq!(varint_decode(&vec![], 0), Err(FrameError::TruncatedStream));
    assert_eq!(varint_decode(&vec![0x80], 0), Err(FrameError::TruncatedStream));
    assert_eq!(
        varint_decode(&vec![0xFF, 0xFF], 0),
        Err(FrameError::TruncatedStream)
    );
}

#[test]
fn varint_overlong_is_reported() {
    // Five continuation bytes: a sixth byte would be needed.
    assert_eq!(
        varint_decode(&vec![0x80, 0x80, 0x80, 0x80, 0x80, 0x01], 0),
        Err(FrameError::VarIntOverflow)
    );
    // Five bytes whose value exceeds the 32-bit range.
    assert_eq!(
        varint_decode(&vec![0xFF, 0xFF, 0xFF, 0xFF, 0x7F], 0),
        Err(FrameError::VarIntOverflow)
    );
}
