//! Concrete packets. Fields are encoded and decoded in declaration order, with
//! nothing between them.
use vstd::prelude::*;
use vstd::slice::slice_subrange;
use vstd::string::StrSliceExecFns;

use crate::codec::{Decode, Encode};
use crate::error::DecodeError;
use crate::frame::RawPacket;
use crate::registry::{PacketIds, PacketKind};
use crate::state::ProtocolState;
use crate::string::MAX_STRING_BYTES;
use crate::varint::VarInt;

verus! {

/// Whether `x` is the value that the decoding `s` gives.
pub open spec fn decodes_to<T: View>(x: T, s: Result<(T::V, nat), DecodeError>) -> bool {
    s matches Ok((v, _)) && v == x@
}

/// Decodes a `T` from `input` at `pos`, returning it with the position after it.
fn decode_at<T: Decode>(input: &[u8], pos: usize) -> (r: Result<(T, usize), DecodeError>)
    requires
        pos <= input@.len(),
    ensures
        match (r, T::spec_decode(input@.skip(pos as int))) {
            (Ok((v, end)), Ok((w, n))) => v@ == w && end == pos + n && end <= input@.len(),
            (Err(e), Err(f)) => e == f,
            _ => false,
        },
{
    let rest = slice_subrange(input, pos, input.len());
    assert(rest@ == input@.skip(pos as int));
    match T::decode(rest) {
        Ok((v, n)) => Ok((v, pos + n)),
        Err(e) => Err(e),
    }
}

/// See: <https://minecraft.wiki/w/Java_Edition_protocol/Packets#Handshake>
#[derive(Clone, Debug)]
pub struct Handshake {
    pub protocol_version: VarInt,
    pub server_address: String,
    pub server_port: u16,
    pub intent: ProtocolState,
}

impl View for Handshake {
    type V = (i32, Seq<char>, u16, ProtocolState);

    open spec fn view(&self) -> (i32, Seq<char>, u16, ProtocolState) {
        (self.protocol_version.0, self.server_address@, self.server_port, self.intent)
    }
}

impl Decode for Handshake {
    open spec fn spec_decode(s: Seq<u8>) -> Result<((i32, Seq<char>, u16, ProtocolState), nat), DecodeError> {
        match VarInt::spec_decode(s) {
            Err(e) => Err(e),
            Ok((version, k1)) => match String::spec_decode(s.skip(k1 as int)) {
                Err(e) => Err(e),
                Ok((address, k2)) => match u16::spec_decode(s.skip((k1 + k2) as int)) {
                    Err(e) => Err(e),
                    Ok((port, k3)) => match ProtocolState::spec_decode(s.skip((k1 + k2 + k3) as int)) {
                        Err(e) => Err(e),
                        Ok((intent, k4)) => Ok(
                            ((version, address, port, intent), (k1 + k2 + k3 + k4) as nat),
                        ),
                    },
                },
            },
        }
    }

    fn decode(input: &[u8]) -> (r: Result<(Handshake, usize), DecodeError>) {
        assert(input@.skip(0) == input@);
        let (protocol_version, after_version) = match decode_at::<VarInt>(input, 0) {
            Ok(x) => x,
            Err(e) => return Err(e),
        };
        let (server_address, after_address) = match decode_at::<String>(input, after_version) {
            Ok(x) => x,
            Err(e) => return Err(e),
        };
        let (server_port, after_port) = match decode_at::<u16>(input, after_address) {
            Ok(x) => x,
            Err(e) => return Err(e),
        };
        let (intent, end) = match decode_at::<ProtocolState>(input, after_port) {
            Ok(x) => x,
            Err(e) => return Err(e),
        };
        Ok((Handshake { protocol_version, server_address, server_port, intent }, end))
    }
}

impl Encode for Handshake {
    open spec fn spec_encodable(v: (i32, Seq<char>, u16, ProtocolState)) -> bool {
        String::spec_encodable(v.1) && ProtocolState::spec_encodable(v.3)
    }

    open spec fn spec_encode(v: (i32, Seq<char>, u16, ProtocolState)) -> Seq<u8> {
        VarInt::spec_encode(v.0) + String::spec_encode(v.1) + u16::spec_encode(v.2)
            + ProtocolState::spec_encode(v.3)
    }

    fn encode(&self, out: &mut Vec<u8>) {
        self.protocol_version.encode(out);
        self.server_address.encode(out);
        self.server_port.encode(out);
        self.intent.encode(out);
    }
}

/// See: <https://minecraft.wiki/w/Java_Edition_protocol/Packets#Status_Request>
#[derive(Clone, Copy, Debug, PartialEq, Eq, Structural)]
pub struct StatusRequest;

impl View for StatusRequest {
    type V = ();

    open spec fn view(&self) -> () {
        ()
    }
}

impl Decode for StatusRequest {
    open spec fn spec_decode(s: Seq<u8>) -> Result<((), nat), DecodeError> {
        Ok(((), 0))
    }

    fn decode(input: &[u8]) -> (r: Result<(StatusRequest, usize), DecodeError>) {
        Ok((StatusRequest, 0))
    }
}

/// See: <https://minecraft.wiki/w/Java_Edition_protocol/Packets#Ping_Request>
#[derive(Clone, Copy, Debug, PartialEq, Eq, Structural)]
pub struct PingRequest {
    pub payload: i64,
}

impl View for PingRequest {
    type V = i64;

    open spec fn view(&self) -> i64 {
        self.payload
    }
}

impl Decode for PingRequest {
    open spec fn spec_decode(s: Seq<u8>) -> Result<(i64, nat), DecodeError> {
        i64::spec_decode(s)
    }

    fn decode(input: &[u8]) -> (r: Result<(PingRequest, usize), DecodeError>) {
        match i64::decode(input) {
            Ok((payload, n)) => Ok((PingRequest { payload }, n)),
            Err(e) => Err(e),
        }
    }
}

impl Encode for PingRequest {
    open spec fn spec_encodable(v: i64) -> bool {
        true
    }

    open spec fn spec_encode(v: i64) -> Seq<u8> {
        i64::spec_encode(v)
    }

    fn encode(&self, out: &mut Vec<u8>) {
        self.payload.encode(out);
    }
}

/// See: <https://minecraft.wiki/w/Java_Edition_protocol/Packets#Login_Start>
#[derive(Clone, Debug)]
pub struct LoginStart {
    pub name: String,
    pub uuid: u128,
}

impl View for LoginStart {
    type V = (Seq<char>, u128);

    open spec fn view(&self) -> (Seq<char>, u128) {
        (self.name@, self.uuid)
    }
}

impl Decode for LoginStart {
    open spec fn spec_decode(s: Seq<u8>) -> Result<((Seq<char>, u128), nat), DecodeError> {
        match String::spec_decode(s) {
            Err(e) => Err(e),
            Ok((name, k1)) => match u128::spec_decode(s.skip(k1 as int)) {
                Err(e) => Err(e),
                Ok((uuid, k2)) => Ok(((name, uuid), (k1 + k2) as nat)),
            },
        }
    }

    fn decode(input: &[u8]) -> (r: Result<(LoginStart, usize), DecodeError>) {
        assert(input@.skip(0) == input@);
        let (name, after_name) = match decode_at::<String>(input, 0) {
            Ok(x) => x,
            Err(e) => return Err(e),
        };
        let (uuid, end) = match decode_at::<u128>(input, after_name) {
            Ok(x) => x,
            Err(e) => return Err(e),
        };
        Ok((LoginStart { name, uuid }, end))
    }
}

/// See: <https://minecraft.wiki/w/Java_Edition_protocol/Packets#Status_Response>
///
/// The payload is the status document, already serialised as JSON text.
#[derive(Clone, Debug)]
pub struct StatusResponse {
    pub json: String,
}

impl View for StatusResponse {
    type V = Seq<char>;

    open spec fn view(&self) -> Seq<char> {
        self.json@
    }
}

impl Encode for StatusResponse {
    open spec fn spec_encodable(v: Seq<char>) -> bool {
        String::spec_encodable(v)
    }

    open spec fn spec_encode(v: Seq<char>) -> Seq<u8> {
        String::spec_encode(v)
    }

    fn encode(&self, out: &mut Vec<u8>) {
        self.json.encode(out);
    }
}

/// See: <https://minecraft.wiki/w/Java_Edition_protocol/Packets#Ping_Response>
#[derive(Clone, Copy, Debug, PartialEq, Eq, Structural)]
pub struct PongResponse {
    pub payload: i64,
}

impl View for PongResponse {
    type V = i64;

    open spec fn view(&self) -> i64 {
        self.payload
    }
}

impl Encode for PongResponse {
    open spec fn spec_encodable(v: i64) -> bool {
        true
    }

    open spec fn spec_encode(v: i64) -> Seq<u8> {
        i64::spec_encode(v)
    }

    fn encode(&self, out: &mut Vec<u8>) {
        self.payload.encode(out);
    }
}

impl PongResponse {
    /// The answer to a ping: the same payload, echoed.
    pub fn from(request: PingRequest) -> (r: PongResponse)
        ensures
            r.payload == request.payload,
    {
        PongResponse { payload: request.payload }
    }

    /// This packet as a raw packet with the pong id.
    pub fn raw(&self, ids: &PacketIds) -> (r: RawPacket)
        ensures
            r.id.0 == ids.pong_response,
            r.data@ == i64::spec_encode(self.payload),
    {
        let mut data: Vec<u8> = Vec::new();
        self.encode(&mut data);
        RawPacket { id: VarInt(ids.pong_response), data }
    }
}

impl StatusResponse {
    /// This packet as a raw packet with the status response id, or `None`
    /// where the JSON text is too long for a string.
    pub fn raw(&self, ids: &PacketIds) -> (r: Option<RawPacket>)
        ensures
            r matches Some(p) ==> String::spec_encodable(self.json@) && p.id.0
                == ids.status_response && p.data@ == String::spec_encode(self.json@),
            r is None ==> !String::spec_encodable(self.json@),
    {
        let bytes = self.json.as_str().as_bytes_vec();
        if bytes.len() > MAX_STRING_BYTES {
            return None;
        }
        let mut data: Vec<u8> = Vec::new();
        self.encode(&mut data);
        Some(RawPacket { id: VarInt(ids.status_response), data })
    }
}

/// All serverbound packets.
#[derive(Clone, Debug)]
pub enum ServerboundPacket {
    Handshake(Handshake),
    StatusRequest(StatusRequest),
    PingRequest(PingRequest),
    LoginStart(LoginStart),
}

/// Whether `r` is what decoding the payload `data` as `kind` gives: the packet
/// of that kind with the decoded fields, or the decoding error.
pub open spec fn decoded_as(
    r: Result<Option<ServerboundPacket>, DecodeError>,
    kind: PacketKind,
    data: Seq<u8>,
) -> bool {
    match kind {
        PacketKind::Handshake => match r {
            Ok(Some(ServerboundPacket::Handshake(h))) => decodes_to(h, Handshake::spec_decode(data)),
            Err(e) => Handshake::spec_decode(data) == Err::<(<Handshake as View>::V, nat), DecodeError>(e),
            _ => false,
        },
        PacketKind::StatusRequest => r matches Ok(Some(ServerboundPacket::StatusRequest(_))),
        PacketKind::PingRequest => match r {
            Ok(Some(ServerboundPacket::PingRequest(p))) => decodes_to(p, PingRequest::spec_decode(data)),
            Err(e) => PingRequest::spec_decode(data) == Err::<(i64, nat), DecodeError>(e),
            _ => false,
        },
        PacketKind::LoginStart => match r {
            Ok(Some(ServerboundPacket::LoginStart(l))) => decodes_to(l, LoginStart::spec_decode(data)),
            Err(e) => LoginStart::spec_decode(data) == Err::<(<LoginStart as View>::V, nat), DecodeError>(e),
            _ => false,
        },
        _ => false,
    }
}

/// Decodes a raw packet under `state`: `Ok(None)` where `(state, id)` names no
/// serverbound packet, else the packet that the payload decodes to.
pub fn decode_serverbound(ids: &PacketIds, state: ProtocolState, packet: &RawPacket) -> (r: Result<
    Option<ServerboundPacket>,
    DecodeError,
>)
    ensures
        match ids.spec_serverbound(state, packet.id.0) {
            None => r matches Ok(None),
            Some(kind) => decoded_as(r, kind, packet.data@),
        },
{
    match ids.serverbound(state, packet.id) {
        None => Ok(None),
        Some(PacketKind::Handshake) => match Handshake::decode(packet.data.as_slice()) {
            Ok((h, _)) => Ok(Some(ServerboundPacket::Handshake(h))),
            Err(e) => Err(e),
        },
        Some(PacketKind::StatusRequest) => Ok(Some(ServerboundPacket::StatusRequest(StatusRequest))),
        Some(PacketKind::PingRequest) => match PingRequest::decode(packet.data.as_slice()) {
            Ok((p, _)) => Ok(Some(ServerboundPacket::PingRequest(p))),
            Err(e) => Err(e),
        },
        Some(PacketKind::LoginStart) => match LoginStart::decode(packet.data.as_slice()) {
            Ok((l, _)) => Ok(Some(ServerboundPacket::LoginStart(l))),
            Err(e) => Err(e),
        },
        Some(_) => Ok(None),
    }
}

} // verus!
