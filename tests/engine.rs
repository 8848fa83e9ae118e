use beacon::codec::{Decode, Encode};
use beacon::conn::{Connection, Outgoing, QUEUE_CAPACITY};
use beacon::data::{latest_supported_version, Version, PROTOCOL_VERSION};
use beacon::error::DecodeError;
use beacon::frame::{FrameReader, RawPacket};
use beacon::legacy::{handle, probe};
use beacon::packets::{
    decode_serverbound, Handshake, PingRequest, PongResponse, ServerboundPacket, StatusResponse,
};
use beacon::registry::{Direction, PacketEntry, PacketIds, PacketKind, PacketTable};
use beacon::state::ProtocolState;
use beacon::status::{build_status, Settings};
use beacon::varint::VarInt;
use beacon::world::World;

fn entry(state: ProtocolState, direction: Direction, resource: &str, id: i32) -> PacketEntry {
    PacketEntry { state, direction, resource: format!("minecraft:{resource}"), protocol_id: id }
}

fn canonical_table() -> PacketTable {
    PacketTable {
        entries: vec![
            entry(ProtocolState::Handshake, Direction::Serverbound, "intention", 0),
            entry(ProtocolState::Status, Direction::Clientbound, "status_response", 0),
            entry(ProtocolState::Status, Direction::Clientbound, "pong_response", 1),
            entry(ProtocolState::Status, Direction::Serverbound, "status_request", 0),
            entry(ProtocolState::Status, Direction::Serverbound, "ping_request", 1),
            entry(ProtocolState::Login, Direction::Serverbound, "hello", 0),
            entry(ProtocolState::Login, Direction::Clientbound, "login_disconnect", 0),
        ],
    }
}

fn ids() -> PacketIds {
    PacketIds::resolve(&canonical_table()).unwrap()
}

fn settings(status: bool) -> Settings {
    Settings {
        status,
        motd: String::from("A Minecraft Server"),
        max_players: 20,
        favicon: None,
    }
}

fn handshake_packet(intent_id: i32) -> RawPacket {
    let mut data = Vec::new();
    VarInt(774).encode(&mut data);
    String::from("localhost").encode(&mut data);
    25565u16.encode(&mut data);
    VarInt(intent_id).encode(&mut data);
    RawPacket { id: VarInt(0), data }
}

fn status_request() -> RawPacket {
    RawPacket { id: VarInt(0), data: Vec::new() }
}

fn ping_request(payload: i64) -> RawPacket {
    let mut data = Vec::new();
    PingRequest { payload }.encode(&mut data);
    RawPacket { id: VarInt(1), data }
}

/// Runs the bytes through framing, as the I/O task does, into the world.
fn deliver(world: &mut World, id: u64, packets: &[RawPacket]) {
    let mut reader = FrameReader::new();
    for p in packets {
        reader.push(&p.to_frame().unwrap());
    }
    while let Some(p) = reader.next_frame().unwrap() {
        assert!(world.push_inbound(id, p).is_ok());
    }
}

#[test]
fn find_packet_uses_the_namespaced_key() {
    let table = canonical_table();
    assert_eq!(table.find_packet("intention", ProtocolState::Handshake, false), Some(0));
    assert_eq!(table.find_packet("ping_request", ProtocolState::Status, false), Some(1));
    assert_eq!(table.find_packet("pong_response", ProtocolState::Status, true), Some(1));
    assert_eq!(table.find_packet("pong_response", ProtocolState::Status, false), None);
    assert_eq!(table.find_packet("hello", ProtocolState::Transfer, false), Some(0));
    assert_eq!(table.find_packet("missing", ProtocolState::Play, false), None);
}

#[test]
fn resolve_fails_on_a_missing_packet() {
    let mut table = canonical_table();
    table.entries.retain(|e| e.resource != "minecraft:ping_request");
    assert_eq!(PacketIds::resolve(&table).unwrap_err(), PacketKind::PingRequest);
    let ids = ids();
    assert_eq!((ids.handshake, ids.ping_request, ids.pong_response), (0, 1, 1));
}

#[test]
fn dispatch_table_is_keyed_by_state_and_id() {
    let ids = ids();
    assert_eq!(ids.serverbound(ProtocolState::Handshake, VarInt(0)), Some(PacketKind::Handshake));
    assert_eq!(ids.serverbound(ProtocolState::Status, VarInt(0)), Some(PacketKind::StatusRequest));
    assert_eq!(ids.serverbound(ProtocolState::Status, VarInt(1)), Some(PacketKind::PingRequest));
    assert_eq!(ids.serverbound(ProtocolState::Transfer, VarInt(0)), Some(PacketKind::LoginStart));
    assert_eq!(ids.serverbound(ProtocolState::Handshake, VarInt(1)), None);
    assert_eq!(ids.serverbound(ProtocolState::Play, VarInt(0)), None);
}

#[test]
fn handshake_decodes_fields_in_order() {
    let p = handshake_packet(1);
    let (h, n) = Handshake::decode(&p.data).unwrap();
    assert_eq!(h.protocol_version, VarInt(774));
    assert_eq!(h.server_address, "localhost");
    assert_eq!(h.server_port, 25565);
    assert_eq!(h.intent, ProtocolState::Status);
    assert_eq!(n, p.data.len());
    match decode_serverbound(&ids(), ProtocolState::Handshake, &p).unwrap() {
        Some(ServerboundPacket::Handshake(h)) => assert_eq!(h.intent, ProtocolState::Status),
        other => panic!("unexpected {other:?}"),
    }
    assert!(decode_serverbound(&ids(), ProtocolState::Status, &ping_request(1))
        .unwrap()
        .is_some());
    assert!(decode_serverbound(&ids(), ProtocolState::Play, &p).unwrap().is_none());
}

#[test]
fn state_transitions_follow_the_table() {
    assert!(ProtocolState::Handshake.can_transition(ProtocolState::Status));
    assert!(ProtocolState::Handshake.can_transition(ProtocolState::Login));
    assert!(ProtocolState::Handshake.can_transition(ProtocolState::Transfer));
    assert!(ProtocolState::Login.can_transition(ProtocolState::Configuration));
    assert!(ProtocolState::Transfer.can_transition(ProtocolState::Configuration));
    assert!(ProtocolState::Configuration.can_transition(ProtocolState::Play));
    assert!(!ProtocolState::Status.can_transition(ProtocolState::Handshake));
    assert!(!ProtocolState::Play.can_transition(ProtocolState::Configuration));
    assert!(!ProtocolState::Handshake.can_transition(ProtocolState::Play));
    assert_eq!(ProtocolState::from_intent(2), Some(ProtocolState::Login));
    assert_eq!(ProtocolState::from_intent(4), None);
}

#[test]
fn pong_echoes_the_payload() {
    let pong = PongResponse::from(PingRequest { payload: 0xCAFEBABE });
    assert_eq!(pong.payload, 0xCAFEBABE);
    let raw = pong.raw(&ids());
    assert_eq!(raw.id, VarInt(1));
    assert_eq!(raw.data, vec![0, 0, 0, 0, 0xCA, 0xFE, 0xBA, 0xBE]);
}

#[test]
fn status_response_is_a_string() {
    let raw = StatusResponse { json: String::from("{}") }.raw(&ids()).unwrap();
    assert_eq!(raw.id, VarInt(0));
    assert_eq!(raw.data, vec![2, b'{', b'}']);
}

#[test]
fn version_name_and_status_document() {
    assert_eq!(Version(21, 11).name(), "1.21.11");
    assert_eq!(Version(4, 0).name(), "1.4.0");
    assert_eq!(latest_supported_version(), Version(21, 11));
    let mut s = settings(true);
    s.favicon = Some(String::from("data:image/png;base64,AAAA"));
    let doc = build_status(&s, 3);
    assert_eq!(doc.version.name, "1.21.11");
    assert_eq!(doc.version.protocol, PROTOCOL_VERSION);
    assert_eq!(doc.players.max, 20);
    assert_eq!(doc.players.online, 3);
    assert!(doc.players.sample.is_empty());
    assert_eq!(doc.description.text, "A Minecraft Server");
    assert_eq!(doc.favicon.as_deref(), Some("data:image/png;base64,AAAA"));
    assert!(!doc.secure_chat);
}

#[test]
fn modern_status_end_to_end() {
    let mut world = World::new(ids(), settings(true));
    let id = world.spawn().unwrap();
    assert_eq!(world.state_of(id), Some(ProtocolState::Handshake));
    deliver(&mut world, id, &[handshake_packet(1), status_request(), ping_request(0xCAFEBABE)]);

    // the handshake is handled alone in its tick
    world.tick();
    assert_eq!(world.state_of(id), Some(ProtocolState::Status));
    assert!(world.take_outbound(id).is_empty());

    world.tick();
    let out = world.take_outbound(id);
    assert_eq!(out.len(), 2);
    match &out[0] {
        Outgoing::Status(doc) => {
            assert_eq!(doc.version.name, "1.21.11");
            assert_eq!(doc.version.protocol, 774);
            assert_eq!(doc.players.max, 20);
            assert_eq!(doc.players.online, 1);
            assert!(doc.players.sample.is_empty());
            assert_eq!(doc.description.text, "A Minecraft Server");
            assert!(!doc.secure_chat);
        }
        other => panic!("unexpected {other:?}"),
    }
    match &out[1] {
        Outgoing::Packet(p) => {
            assert_eq!(p.id, VarInt(1));
            assert_eq!(i64::decode(&p.data).unwrap().0, 0xCAFEBABE);
        }
        other => panic!("unexpected {other:?}"),
    }
    assert!(world.take_outbound(id).is_empty());
    assert_eq!(world.connection_count(), 1);
}

#[test]
fn handshake_then_packets_only_handshake_dispatched() {
    let mut world = World::new(ids(), settings(true));
    let id = world.spawn().unwrap();
    deliver(&mut world, id, &[handshake_packet(1), ping_request(5), ping_request(6)]);
    world.listen();
    assert_eq!(world.state_of(id), Some(ProtocolState::Status));
    assert!(world.take_outbound(id).is_empty());
    world.listen();
    assert_eq!(world.take_outbound(id).len(), 2);
}

#[test]
fn legacy_v2_ping() {
    assert_eq!(probe(&[0xFE, 0x01]), Some(true));
    let bytes = handle(true, "A Minecraft Server", 0, 20).unwrap();
    let text = "\u{a7}1\u{0}774\u{0}1.21.11\u{0}A Minecraft Server\u{0}0\u{0}20";
    let units: Vec<u16> = text.encode_utf16().collect();
    let mut expected = vec![0xFF];
    expected.extend_from_slice(&(units.len() as u16).to_be_bytes());
    for u in &units {
        expected.extend_from_slice(&u.to_be_bytes());
    }
    assert_eq!(bytes, expected);
    assert_eq!(&bytes[..5], &[0xFF, 0x00, 0x26, 0x00, 0xA7]);
}

#[test]
fn legacy_v1_ping() {
    assert_eq!(probe(&[0xFE]), Some(false));
    assert_eq!(probe(&[0xFE, 0x00]), Some(false));
    assert_eq!(probe(&[0x10, 0x00]), None);
    assert_eq!(probe(&[]), None);
    let bytes = handle(false, "Hi", 1, 20).unwrap();
    // "Hi§1§20": 7 code units
    assert_eq!(
        bytes,
        vec![
            0xFF, 0x00, 0x07, 0x00, b'H', 0x00, b'i', 0x00, 0xA7, 0x00, b'1', 0x00, 0xA7, 0x00,
            b'2', 0x00, b'0'
        ]
    );
}

#[test]
fn legacy_ping_encodes_surrogate_pairs() {
    let bytes = handle(false, "\u{1F600}", 0, 0).unwrap();
    assert_eq!(
        bytes,
        vec![0xFF, 0x00, 0x06, 0xD8, 0x3D, 0xDE, 0x00, 0x00, 0xA7, 0x00, b'0', 0x00, 0xA7, 0x00, b'0']
    );
}

#[test]
fn legacy_ping_too_long_for_its_count() {
    let motd = "x".repeat(70000);
    assert!(handle(false, &motd, 0, 0).is_none());
}

#[test]
fn invalid_intent_cancels_without_reply() {
    let mut world = World::new(ids(), settings(true));
    let id = world.spawn().unwrap();
    let bad = handshake_packet(7);
    assert_eq!(
        Handshake::decode(&bad.data).unwrap_err(),
        DecodeError::InvalidProtocolState(VarInt(7))
    );
    deliver(&mut world, id, &[bad]);
    world.listen();
    assert!(world.is_cancelled(id));
    assert!(world.take_outbound(id).is_empty());
    assert_eq!(world.reap(), vec![id]);
    assert_eq!(world.state_of(id), None);
}

#[test]
fn status_disabled_cancels_without_reply() {
    let mut world = World::new(ids(), settings(false));
    let id = world.spawn().unwrap();
    deliver(&mut world, id, &[handshake_packet(1), status_request()]);
    world.tick();
    assert_eq!(world.state_of(id), Some(ProtocolState::Status));
    world.listen();
    assert!(world.is_cancelled(id));
    assert!(world.take_outbound(id).is_empty());
    world.reap();
    assert_eq!(world.connection_count(), 0);
}

#[test]
fn truncated_frame_reaped_next_tick() {
    let mut world = World::new(ids(), settings(true));
    let id = world.spawn().unwrap();
    let mut reader = FrameReader::new();
    reader.push(&[10, 0]);
    assert!(reader.next_frame().unwrap().is_none());
    // the socket closed: the I/O task exits and sets the cancel flag
    world.cancel(id);
    assert!(world.is_cancelled(id));
    assert_eq!(world.tick(), vec![id]);
    assert_eq!(world.state_of(id), None);
}

#[test]
fn cancel_is_reaped_and_others_stay() {
    let mut world = World::new(ids(), settings(true));
    let a = world.spawn().unwrap();
    let b = world.spawn().unwrap();
    let c = world.spawn().unwrap();
    assert!(a < b && b < c);
    world.cancel(b);
    world.cancel(b);
    let removed = world.tick();
    assert_eq!(removed, vec![b]);
    assert_eq!(world.connection_count(), 2);
    assert!(world.state_of(a).is_some() && world.state_of(c).is_some());
    assert!(!world.is_cancelled(a));
}

#[test]
fn unknown_packets_are_skipped() {
    let mut world = World::new(ids(), settings(true));
    let id = world.spawn().unwrap();
    deliver(&mut world, id, &[RawPacket { id: VarInt(0x33), data: vec![1, 2] }]);
    world.tick();
    assert_eq!(world.state_of(id), Some(ProtocolState::Handshake));
    assert!(!world.is_cancelled(id));
}

#[test]
fn inbound_queue_is_bounded() {
    let mut world = World::new(ids(), settings(true));
    let id = world.spawn().unwrap();
    for _ in 0..QUEUE_CAPACITY {
        assert!(world.push_inbound(id, status_request()).is_ok());
    }
    assert!(world.push_inbound(id, status_request()).is_err());
    assert!(world.push_inbound(id + 100, status_request()).is_err());
}

#[test]
fn login_start_records_the_player() {
    let mut world = World::new(ids(), settings(true));
    let id = world.spawn().unwrap();
    let mut data = Vec::new();
    String::from("Steve").encode(&mut data);
    7u128.encode(&mut data);
    deliver(&mut world, id, &[handshake_packet(2), RawPacket { id: VarInt(0), data }]);
    world.tick();
    assert_eq!(world.state_of(id), Some(ProtocolState::Login));
    world.tick();
    assert!(!world.is_cancelled(id));
    assert_eq!(world.state_of(id), Some(ProtocolState::Login));
}

#[test]
fn new_connection_starts_in_handshake() {
    let c = Connection::new(9);
    assert_eq!(c.id(), 9);
    assert_eq!(c.state(), ProtocolState::Handshake);
    assert!(!c.is_cancelled());
}

#[test]
fn legacy_reply_follows_settings_and_counts_connections() {
    let mut world = World::new(ids(), settings(true));
    world.spawn().unwrap();
    world.spawn().unwrap();
    let reply = world.legacy_reply(false).unwrap();
    assert_eq!(reply, handle(false, "A Minecraft Server", 2, 20).unwrap());
    world.set_settings(settings(false));
    assert!(world.legacy_reply(true).is_none());
    assert!(!world.settings().status);
}
