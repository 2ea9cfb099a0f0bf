use mcrouter::codec::{
    read_boolean, read_long, read_string, read_ushort, read_varint, write_boolean, write_long,
    write_string, write_ushort, write_varint, ProtoError,
};
use mcrouter::frame::{read_frame, write_frame};

fn varint(x: i32) -> Vec<u8> {
    let mut out = Vec::new();
    write_varint(&mut out, x);
    out
}

#[test]
fn varint_known_encodings() {
    assert_eq!(varint(0), vec![0x00]);
    assert_eq!(varint(1), vec![0x01]);
    assert_eq!(varint(127), vec![0x7f]);
    assert_eq!(varint(128), vec![0x80, 0x01]);
    assert_eq!(varint(255), vec![0xff, 0x01]);
    assert_eq!(varint(25565), vec![0xdd, 0xc7, 0x01]);
    assert_eq!(varint(2097151), vec![0xff, 0xff, 0x7f]);
    assert_eq!(varint(2147483647), vec![0xff, 0xff, 0xff, 0xff, 0x07]);
    assert_eq!(varint(-1), vec![0xff, 0xff, 0xff, 0xff, 0x0f]);
    assert_eq!(varint(-2147483648), vec![0x80, 0x80, 0x80, 0x80, 0x08]);
}

#[test]
fn varint_round_trip_values() {
    for x in [0, 1, -1, 127, 128, 300, 25565, i32::MAX, i32::MIN, -123456] {
        let mut bytes = varint(x);
        let k = bytes.len();
        assert!((1..=5).contains(&k));
        bytes.push(0xAA);
        assert_eq!(read_varint(&bytes, 0), Ok((x, k)));
    }
}

#[test]
fn varint_sixth_byte_fails() {
    let bytes = [0x80, 0x80, 0x80, 0x80, 0x80, 0x01];
    assert_eq!(read_varint(&bytes, 0), Err(ProtoError::VarIntTooLong));
}

#[test]
fn varint_truncated_is_eof() {
    assert_eq!(read_varint(&[0x80, 0x80], 0), Err(ProtoError::UnexpectedEof));
    assert_eq!(read_varint(&[], 0), Err(ProtoError::UnexpectedEof));
}

#[test]
fn string_round_trip_values() {
    for s in ["", "mc.example.com", "h\u{e9}llo \u{a7} \u{1F600}", "a\"b\\c"] {
        let mut out = Vec::new();
        write_string(&mut out, s);
        let n = out.len();
        out.extend_from_slice(&[1, 2, 3]);
        let (text, k) = read_string(&out, 0, 32767).unwrap();
        assert_eq!(text, s);
        assert_eq!(k, n);
    }
}

#[test]
fn string_encoding_is_length_prefixed() {
    let mut out = Vec::new();
    write_string(&mut out, "abc");
    assert_eq!(out, vec![3, b'a', b'b', b'c']);
}

#[test]
fn string_bad_utf8_is_rejected() {
    assert_eq!(read_string(&[2, 0xff, 0xfe], 0, 32767).map(|r| r.1), Err(ProtoError::BadString));
}

#[test]
fn string_too_long_or_negative_is_rejected() {
    assert_eq!(read_string(&[4, b'a', b'b', b'c', b'd'], 0, 3).map(|r| r.1), Err(ProtoError::BadString));
    let mut neg = varint(-1);
    neg.push(b'a');
    assert_eq!(read_string(&neg, 0, 32767).map(|r| r.1), Err(ProtoError::BadString));
}

#[test]
fn string_short_read_is_eof() {
    assert_eq!(read_string(&[5, b'a', b'b'], 0, 32767).map(|r| r.1), Err(ProtoError::UnexpectedEof));
}

#[test]
fn fixed_width_round_trips() {
    let mut out = Vec::new();
    write_ushort(&mut out, 25565);
    assert_eq!(out, vec![0x63, 0xdd]);
    assert_eq!(read_ushort(&out, 0), Ok(25565));
    let mut out = Vec::new();
    write_long(&mut out, 0x0123456789ABCDEF);
    assert_eq!(out, vec![0x01, 0x23, 0x45, 0x67, 0x89, 0xAB, 0xCD, 0xEF]);
    assert_eq!(read_long(&out, 0), Ok(0x0123456789ABCDEF));
    let mut out = Vec::new();
    write_long(&mut out, -2);
    assert_eq!(read_long(&out, 0), Ok(-2));
    assert_eq!(read_long(&out, 1), Err(ProtoError::UnexpectedEof));
    assert_eq!(read_ushort(&[1], 0), Err(ProtoError::UnexpectedEof));
}

#[test]
fn boolean_uses_low_bit() {
    let mut out = Vec::new();
    write_boolean(&mut out, true);
    write_boolean(&mut out, false);
    assert_eq!(out, vec![1, 0]);
    assert_eq!(read_boolean(&[3], 0), Ok(true));
    assert_eq!(read_boolean(&[2], 0), Ok(false));
    assert_eq!(read_boolean(&[2], 1), Err(ProtoError::UnexpectedEof));
}

#[test]
fn frame_round_trip() {
    let mut out = Vec::new();
    write_frame(&mut out, 0x01, &[9, 8, 7]);
    assert_eq!(out, vec![4, 1, 9, 8, 7]);
    out.push(0x42);
    assert_eq!(read_frame(&out, 0), Ok((1, 2, 5)));
}

#[test]
fn frame_short_read_is_eof() {
    assert_eq!(read_frame(&[5, 0, 1], 0), Err(ProtoError::UnexpectedEof));
}
