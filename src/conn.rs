//! A connection and the handling of the packets it receives.
use vstd::prelude::*;

use crate::codec::{Decode, Encode};
use crate::frame::RawPacket;
use crate::packets::{decode_serverbound, Handshake, LoginStart, PingRequest, PongResponse, ServerboundPacket};
use crate::registry::{PacketIds, PacketKind};
use crate::state::{is_step, ProtocolState};
use crate::status::{build_status, status_view, Settings, StatusResponsePayload, StatusView};

verus! {

/// The capacity of a connection's inbound and outbound queues.
pub const QUEUE_CAPACITY: usize = 1024;

/// What the server sends to a connection: a packet, or the status document,
/// which is serialised to JSON and framed as a status response on its way out.
#[derive(Clone, Debug)]
pub enum Outgoing {
    Packet(RawPacket),
    Status(StatusResponsePayload),
}

/// What an outgoing item says.
pub enum OutgoingView {
    Packet((i32, Seq<u8>)),
    Status(StatusView),
}

impl View for Outgoing {
    type V = OutgoingView;

    open spec fn view(&self) -> OutgoingView {
        match self {
            Outgoing::Packet(p) => OutgoingView::Packet(p@),
            Outgoing::Status(s) => OutgoingView::Status(s@),
        }
    }
}

/// The player's identity, containing their username and UUID.
#[derive(Clone, Debug)]
pub struct PlayerIdentity {
    /// The player's username.
    pub name: String,
    /// The player's UUID.
    pub uuid: u128,
}

/// A connection to the server.
#[derive(Debug)]
pub struct Connection {
    pub id: u64,
    pub state: ProtocolState,
    pub inbound: Vec<RawPacket>,
    pub outbound: Vec<Outgoing>,
    pub player: Option<PlayerIdentity>,
    pub cancelled: bool,
}

/// What a connection holds.
pub struct ConnView {
    pub id: u64,
    pub state: ProtocolState,
    pub inbound: Seq<(i32, Seq<u8>)>,
    pub outbound: Seq<OutgoingView>,
    pub player: Option<(Seq<char>, u128)>,
    pub cancelled: bool,
}

impl View for Connection {
    type V = ConnView;

    open spec fn view(&self) -> ConnView {
        ConnView {
            id: self.id,
            state: self.state,
            inbound: self.inbound@.map_values(|p: RawPacket| p@),
            outbound: self.outbound@.map_values(|o: Outgoing| o@),
            player: match self.player {
                Some(p) => Some((p.name@, p.uuid)),
                None => None,
            },
            cancelled: self.cancelled,
        }
    }
}

/// The connection `c` with its cancel flag set.
pub open spec fn cancelled(c: ConnView) -> ConnView {
    ConnView { cancelled: true, ..c }
}

/// The effect of handling packet `p` on connection `c`: an unknown `(state, id)`
/// is skipped; a decode error cancels the connection; a Handshake moves it to
/// its intent; a status or ping request is answered, or cancels the connection
/// where status is disabled; a Login Start records the player.
pub open spec fn spec_dispatch(
    ids: PacketIds,
    settings: Settings,
    online: u32,
    c: ConnView,
    p: (i32, Seq<u8>),
) -> ConnView {
    match ids.spec_serverbound(c.state, p.0) {
        None => c,
        Some(PacketKind::Handshake) => match Handshake::spec_decode(p.1) {
            Ok((h, _)) => ConnView { state: h.3, ..c },
            Err(_) => cancelled(c),
        },
        Some(PacketKind::StatusRequest) => {
            if settings.status {
                ConnView {
                    outbound: c.outbound.push(OutgoingView::Status(status_view(settings, online))),
                    ..c
                }
            } else {
                cancelled(c)
            }
        },
        Some(PacketKind::PingRequest) => match PingRequest::spec_decode(p.1) {
            Ok((v, _)) => {
                if settings.status {
                    ConnView {
                        outbound: c.outbound.push(
                            OutgoingView::Packet((ids.pong_response, i64::spec_encode(v))),
                        ),
                        ..c
                    }
                } else {
                    cancelled(c)
                }
            },
            Err(_) => cancelled(c),
        },
        Some(PacketKind::LoginStart) => match LoginStart::spec_decode(p.1) {
            Ok((l, _)) => ConnView { player: Some(l), ..c },
            Err(_) => cancelled(c),
        },
        Some(_) => c,
    }
}

/// Whether packet `p` is a Handshake for a connection in `state`.
pub open spec fn is_handshake(ids: PacketIds, state: ProtocolState, p: (i32, Seq<u8>)) -> bool {
    ids.spec_serverbound(state, p.0) == Some(PacketKind::Handshake)
}

/// The effect of one tick's drain of `c`'s inbound queue: packets are handled
/// first to last; the drain stops once the connection is cancelled, and right
/// after a Handshake, so that its transition is committed before any further
/// packet of the connection is read.
pub open spec fn spec_drain(ids: PacketIds, settings: Settings, online: u32, c: ConnView) -> ConnView
    decreases c.inbound.len(),
{
    if c.cancelled || c.inbound.len() == 0 {
        c
    } else {
        let p = c.inbound[0];
        let next = spec_dispatch(
            ids,
            settings,
            online,
            ConnView { inbound: c.inbound.drop_first(), ..c },
            p,
        );
        if is_handshake(ids, c.state, p) {
            next
        } else {
            spec_drain(ids, settings, online, next)
        }
    }
}

/// Draining keeps the connection's id, never grows its inbound queue, never
/// clears its cancel flag, and moves its state only along the transition table.
pub proof fn lemma_drain_frame(ids: PacketIds, settings: Settings, online: u32, c: ConnView)
    ensures
        spec_drain(ids, settings, online, c).id == c.id,
        spec_drain(ids, settings, online, c).inbound.len() <= c.inbound.len(),
        c.cancelled ==> spec_drain(ids, settings, online, c) == c,
        is_step(c.state, spec_drain(ids, settings, online, c).state),
    decreases c.inbound.len(),
{
    if !(c.cancelled || c.inbound.len() == 0) {
        let p = c.inbound[0];
        let next = spec_dispatch(
            ids,
            settings,
            online,
            ConnView { inbound: c.inbound.drop_first(), ..c },
            p,
        );
        if !is_handshake(ids, c.state, p) {
            assert(next.state == c.state);
            lemma_drain_frame(ids, settings, online, next);
        }
    }
}

/// When a connection's queue opens with a Handshake, a drain handles that
/// packet alone: every packet after it stays queued for a later tick.
pub proof fn lemma_handshake_drained_alone(
    ids: PacketIds,
    settings: Settings,
    online: u32,
    c: ConnView,
)
    requires
        !c.cancelled,
        c.inbound.len() > 0,
        is_handshake(ids, c.state, c.inbound[0]),
    ensures
        spec_drain(ids, settings, online, c).inbound == c.inbound.drop_first(),
        spec_drain(ids, settings, online, c).outbound == c.outbound,
{
}

impl Connection {
    /// A new connection in the Handshake state, with empty queues.
    pub fn new(id: u64) -> (r: Connection)
        ensures
            r@.id == id,
            r@.state == ProtocolState::Handshake,
            r@.inbound.len() == 0,
            r@.outbound.len() == 0,
            r@.player is None,
            !r@.cancelled,
    {
        let r = Connection {
            id,
            state: ProtocolState::Handshake,
            inbound: Vec::new(),
            outbound: Vec::new(),
            player: None,
            cancelled: false,
        };
        assert(r@.inbound.len() == 0);
        assert(r@.outbound.len() == 0);
        r
    }

    /// Handles one packet; returns whether it was a Handshake.
    fn dispatch(&mut self, ids: &PacketIds, settings: &Settings, online: u32, packet: RawPacket) -> (r:
        bool)
        ensures
            final(self)@ == spec_dispatch(*ids, *settings, online, old(self)@, packet@),
            r == is_handshake(*ids, old(self)@.state, packet@),
    {
        let ghost before = self@;
        let is_hs = match ids.serverbound(self.state, packet.id) {
            Some(PacketKind::Handshake) => true,
            _ => false,
        };
        match decode_serverbound(ids, self.state, &packet) {
            Ok(None) => {},
            Ok(Some(ServerboundPacket::Handshake(h))) => {
                self.state = h.intent;
            },
            Ok(Some(ServerboundPacket::StatusRequest(_))) => {
                if settings.status {
                    let payload = build_status(settings, online);
                    self.outbound.push(Outgoing::Status(payload));
                    assert(self@.outbound == before.outbound.push(
                        OutgoingView::Status(status_view(*settings, online)),
                    ));
                } else {
                    self.cancelled = true;
                }
            },
            Ok(Some(ServerboundPacket::PingRequest(ping))) => {
                if settings.status {
                    let pong = PongResponse::from(ping).raw(ids);
                    self.outbound.push(Outgoing::Packet(pong));
                    assert(self@.outbound == before.outbound.push(
                        OutgoingView::Packet((ids.pong_response, i64::spec_encode(ping.payload))),
                    ));
                } else {
                    self.cancelled = true;
                }
            },
            Ok(Some(ServerboundPacket::LoginStart(l))) => {
                self.player = Some(PlayerIdentity { name: l.name, uuid: l.uuid });
            },
            Err(_) => {
                self.cancelled = true;
            },
        }
        proof {
            assert(self@.inbound == before.inbound);
        }
        is_hs
    }

    /// Drains the inbound queue as one tick's listen does for this connection.
    pub fn drain(&mut self, ids: &PacketIds, settings: &Settings, online: u32)
        ensures
            final(self)@ == spec_drain(*ids, *settings, online, old(self)@),
    {
        loop
            invariant
                spec_drain(*ids, *settings, online, old(self)@) == spec_drain(
                    *ids,
                    *settings,
                    online,
                    self@,
                ),
            decreases self.inbound@.len(),
        {
            if self.cancelled || self.inbound.len() == 0 {
                return;
            }
            let ghost before = self@;
            let packet = self.inbound.remove(0);
            proof {
                assert(self@.inbound == before.inbound.drop_first());
                assert(packet@ == before.inbound[0]);
                assert(self@ == ConnView { inbound: before.inbound.drop_first(), ..before });
            }
            let handshake = self.dispatch(ids, settings, online, packet);
            if handshake {
                return;
            }
        }
    }

    /// The connection's id.
    pub fn id(&self) -> (r: u64)
        ensures
            r == self@.id,
    {
        self.id
    }

    /// The connection's protocol state.
    pub fn state(&self) -> (r: ProtocolState)
        ensures
            r == self@.state,
    {
        self.state
    }

    /// Whether the connection's cancel flag is set.
    pub fn is_cancelled(&self) -> (r: bool)
        ensures
            r == self@.cancelled,
    {
        self.cancelled
    }
}

} // verus!
