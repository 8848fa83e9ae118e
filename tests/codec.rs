use beacon::codec::{Decode, Encode};
use beacon::error::{DecodeError, IoError};
use beacon::frame::{FrameReader, RawPacket};
use beacon::state::ProtocolState;
use beacon::varint::VarInt;

#[test]
fn string_round_trip_with_byte_length_prefix() {
    for text in ["", "localhost", "A Minecraft Server", "\u{a7}a h\u{e9}llo \u{1F600}"] {
        let s = String::from(text);
        let mut buf = Vec::new();
        s.encode(&mut buf);
        let (len, k) = VarInt::decode(&buf).unwrap();
        assert_eq!(len.0 as usize, text.len());
        assert_eq!(buf.len(), k + text.len());
        buf.extend_from_slice(&[1, 2, 3]);
        let (back, n) = String::decode(&buf).unwrap();
        assert_eq!(back, s);
        assert_eq!(n, k + text.len());
    }
}

#[test]
fn string_prefix_counts_bytes_not_characters() {
    let s = String::from("\u{e9}\u{e9}");
    let mut buf = Vec::new();
    s.encode(&mut buf);
    assert_eq!(buf, vec![4, 0xC3, 0xA9, 0xC3, 0xA9]);
}

#[test]
fn string_invalid_utf8_is_invalid_data() {
    let err = String::decode(&[2, 0xC3, 0x28]).unwrap_err();
    assert_eq!(err, DecodeError::Io(IoError::InvalidData));
}

#[test]
fn string_short_read_is_unexpected_eof() {
    let err = String::decode(&[5, b'a', b'b']).unwrap_err();
    assert_eq!(err, DecodeError::Io(IoError::UnexpectedEof));
}

#[test]
fn string_negative_length_is_invalid_data() {
    let err = String::decode(&[0xFF, 0xFF, 0xFF, 0xFF, 0x0F]).unwrap_err();
    assert_eq!(err, DecodeError::Io(IoError::InvalidData));
}

#[test]
fn integers_are_big_endian() {
    let mut buf = Vec::new();
    25565u16.encode(&mut buf);
    assert_eq!(buf, vec![0x63, 0xDD]);
    let mut buf = Vec::new();
    (-2i64).encode(&mut buf);
    assert_eq!(buf, vec![0xFF, 0xFF, 0xFF, 0xFF, 0xFF, 0xFF, 0xFF, 0xFE]);
    let mut buf = Vec::new();
    0x0102u128.encode(&mut buf);
    let mut expected = vec![0u8; 14];
    expected.extend_from_slice(&[1, 2]);
    assert_eq!(buf, expected);
}

#[test]
fn integers_round_trip() {
    for v in [i64::MIN, -1, 0, 0xCAFEBABE, i64::MAX] {
        let mut buf = Vec::new();
        v.encode(&mut buf);
        assert_eq!(i64::decode(&buf).unwrap(), (v, 8));
    }
    let uuid: u128 = 0x0123_4567_89AB_CDEF_FEDC_BA98_7654_3210;
    let mut buf = Vec::new();
    uuid.encode(&mut buf);
    assert_eq!(u128::decode(&buf).unwrap(), (uuid, 16));
    assert_eq!(u16::decode(&[0x63]).unwrap_err(), DecodeError::Io(IoError::UnexpectedEof));
}

#[test]
fn protocol_state_intents() {
    assert_eq!(ProtocolState::decode(&[1]).unwrap(), (ProtocolState::Status, 1));
    assert_eq!(ProtocolState::decode(&[2]).unwrap(), (ProtocolState::Login, 1));
    assert_eq!(ProtocolState::decode(&[3]).unwrap(), (ProtocolState::Transfer, 1));
    assert_eq!(
        ProtocolState::decode(&[0]).unwrap_err(),
        DecodeError::InvalidProtocolState(VarInt(0))
    );
    assert_eq!(
        ProtocolState::decode(&[7]).unwrap_err(),
        DecodeError::InvalidProtocolState(VarInt(7))
    );
    assert_eq!(ProtocolState::default(), ProtocolState::Handshake);
}

#[test]
fn frame_round_trip_and_length_prefix() {
    let packet = RawPacket { id: VarInt(200), data: vec![9, 8, 7] };
    let bytes = packet.to_frame().unwrap();
    // length = size(id) + |payload| = 2 + 3
    assert_eq!(bytes, vec![5, 0xC8, 0x01, 9, 8, 7]);
    let mut more = bytes.clone();
    more.extend_from_slice(&[0xAA]);
    let (back, n) = RawPacket::decode(&more).unwrap();
    assert_eq!(back.id, VarInt(200));
    assert_eq!(back.data, vec![9, 8, 7]);
    assert_eq!(n, 6);
    assert_eq!(packet.frame_length(), Some(5));
}

#[test]
fn frame_with_empty_payload() {
    let packet = RawPacket { id: VarInt(0), data: Vec::new() };
    let bytes = packet.to_frame().unwrap();
    assert_eq!(bytes, vec![1, 0]);
    let (back, n) = RawPacket::decode(&bytes).unwrap();
    assert_eq!((back.id, back.data.len(), n), (VarInt(0), 0, 2));
}

#[test]
fn truncated_frame_is_short_read() {
    // length = 10, id = 0, then the client closes
    let err = RawPacket::decode(&[10, 0]).unwrap_err();
    assert_eq!(err, DecodeError::Io(IoError::UnexpectedEof));
}

#[test]
fn frame_shorter_than_its_id_is_malformed() {
    let err = RawPacket::decode(&[1, 0x80, 0x01]).unwrap_err();
    assert_eq!(err, DecodeError::VarIntTooBig);
    let err = RawPacket::decode(&[0xFF, 0xFF, 0xFF, 0xFF, 0x0F, 0]).unwrap_err();
    assert_eq!(err, DecodeError::VarIntTooBig);
}

#[test]
fn frame_reader_waits_for_whole_frames() {
    let mut reader = FrameReader::new();
    reader.push(&[3, 0x01]);
    assert!(reader.next_frame().unwrap().is_none());
    reader.push(&[0xAA, 0xBB, 2, 0x00]);
    let first = reader.next_frame().unwrap().unwrap();
    assert_eq!((first.id, first.data), (VarInt(1), vec![0xAA, 0xBB]));
    assert!(reader.next_frame().unwrap().is_none());
    reader.push(&[0x05]);
    let second = reader.next_frame().unwrap().unwrap();
    assert_eq!((second.id, second.data), (VarInt(0), vec![0x05]));
    assert!(reader.next_frame().unwrap().is_none());
}

#[test]
fn frame_reader_reports_malformed_header() {
    let mut reader = FrameReader::new();
    reader.push(&[0xFF, 0xFF, 0xFF, 0xFF, 0xFF, 0xFF]);
    assert_eq!(reader.next_frame().unwrap_err(), DecodeError::VarIntTooBig);
}
