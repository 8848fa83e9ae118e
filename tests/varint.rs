use beacon::codec::{Decode, Encode};
use beacon::error::{DecodeError, IoError};
use beacon::varint::VarInt;

/// Taken from minecraft.wiki examples.
///
/// See: https://minecraft.wiki/w/Java_Edition_protocol/Data_types#VarInt_and_VarLong
const TEST_DATA: &[(VarInt, &[u8])] = &[
    (VarInt(0), &[0x00]),
    (VarInt(1), &[0x01]),
    (VarInt(2), &[0x02]),
    (VarInt(127), &[0x7F]),
    (VarInt(128), &[0x80, 0x01]),
    (VarInt(255), &[0xFF, 0x01]),
    (VarInt(25565), &[0xDD, 0xC7, 0x01]),
    (VarInt(2097151), &[0xFF, 0xFF, 0x7F]),
    (VarInt(2147483647), &[0xFF, 0xFF, 0xFF, 0xFF, 0x07]),
    (VarInt(-1), &[0xFF, 0xFF, 0xFF, 0xFF, 0x0F]),
    (VarInt(-2147483648), &[0x80, 0x80, 0x80, 0x80, 0x08]),
];

#[test]
fn test_decode() {
    for (expected, data) in TEST_DATA {
        let (got, _) = VarInt::decode(&data[..]).unwrap();
        assert_eq!(got, *expected);
    }
}

#[test]
fn test_encode() {
    for (data, expected) in TEST_DATA {
        let mut buf = Vec::new();
        data.encode(&mut buf);
        assert_eq!(&buf[..], *expected);
    }
}

#[test]
fn size_matches_encoded_length() {
    for (value, bytes) in TEST_DATA {
        assert_eq!(value.size(), bytes.len());
    }
    assert_eq!(VarInt(16383).size(), 2);
    assert_eq!(VarInt(16384).size(), 3);
    assert_eq!(VarInt(268435455).size(), 4);
    assert_eq!(VarInt(268435456).size(), 5);
}

#[test]
fn size_is_between_one_and_five() {
    for n in [i32::MIN, -1000, -1, 0, 1, 300, 70000, i32::MAX] {
        let size = VarInt(n).size();
        assert!((1..=5).contains(&size));
    }
}

#[test]
fn decode_reports_bytes_read_and_ignores_the_rest() {
    let (value, n) = VarInt::decode(&[0xDD, 0xC7, 0x01, 0xAB, 0xCD]).unwrap();
    assert_eq!(value, VarInt(25565));
    assert_eq!(n, 3);
}

#[test]
fn round_trip_over_many_values() {
    for n in [i32::MIN, -2097152, -129, -1, 0, 1, 127, 128, 16384, 2097152, i32::MAX] {
        let mut buf = Vec::new();
        VarInt(n).encode(&mut buf);
        buf.push(0x42);
        let (value, read) = VarInt::decode(&buf).unwrap();
        assert_eq!(value, VarInt(n));
        assert_eq!(read, VarInt(n).size());
    }
}

#[test]
fn sixth_byte_is_too_big() {
    let err = VarInt::decode(&[0xFF, 0xFF, 0xFF, 0xFF, 0xFF, 0x01]).unwrap_err();
    assert_eq!(err, DecodeError::VarIntTooBig);
}

#[test]
fn short_read_is_io_error() {
    assert_eq!(VarInt::decode(&[]).unwrap_err(), DecodeError::Io(IoError::UnexpectedEof));
    assert_eq!(VarInt::decode(&[0x80, 0x80]).unwrap_err(), DecodeError::Io(IoError::UnexpectedEof));
}
