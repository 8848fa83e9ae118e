//! The packet registry: which numeric id each packet has in each state.
use vstd::prelude::*;
use vstd::string::StringExecFns;

use crate::state::ProtocolState;
use crate::varint::VarInt;

verus! {

/// Which way a packet travels.
#[derive(Clone, Copy, Debug, PartialEq, Eq, Structural)]
pub enum Direction {
    /// Server to client.
    Clientbound,
    /// Client to server.
    Serverbound,
}

/// One entry of the packet identity table: in `state`, the packet named
/// `resource` (such as `"minecraft:intention"`) travelling in `direction` has
/// id `protocol_id`.
#[derive(Clone, Debug)]
pub struct PacketEntry {
    pub state: ProtocolState,
    pub direction: Direction,
    pub resource: String,
    pub protocol_id: i32,
}

/// The packet identity table, as read from its JSON document.
#[derive(Clone, Debug)]
pub struct PacketTable {
    pub entries: Vec<PacketEntry>,
}

/// The state under which the table lists a state's packets: a transferred
/// connection speaks the Login packets.
pub open spec fn table_state(s: ProtocolState) -> ProtocolState {
    if s is Transfer {
        ProtocolState::Login
    } else {
        s
    }
}

/// The direction that a flag names.
pub open spec fn direction_of(clientbound: bool) -> Direction {
    if clientbound {
        Direction::Clientbound
    } else {
        Direction::Serverbound
    }
}

/// The table key of a resource: its name in the `minecraft` namespace.
pub open spec fn resource_key(resource: Seq<char>) -> Seq<char> {
    "minecraft:"@ + resource
}

/// Whether `e` is the entry for `key` in `state` and `direction`.
pub open spec fn entry_is(e: PacketEntry, key: Seq<char>, state: ProtocolState, direction: Direction) -> bool {
    e.state == table_state(state) && e.direction == direction && e.resource@ == key
}

/// The id of the first entry for `key` in `state` and `direction`, if any.
pub open spec fn spec_lookup(
    entries: Seq<PacketEntry>,
    key: Seq<char>,
    state: ProtocolState,
    direction: Direction,
) -> Option<i32>
    decreases entries.len(),
{
    if entries.len() == 0 {
        None
    } else if entry_is(entries[0], key, state, direction) {
        Some(entries[0].protocol_id)
    } else {
        spec_lookup(entries.drop_first(), key, state, direction)
    }
}

/// A packet type that the engine reads or writes.
#[derive(Clone, Copy, Debug, PartialEq, Eq, Structural)]
pub enum PacketKind {
    Handshake,
    StatusRequest,
    PingRequest,
    LoginStart,
    StatusResponse,
    PongResponse,
}

impl PacketKind {
    /// The resource name of the packet in the identity table.
    pub open spec fn spec_resource(self) -> Seq<char> {
        match self {
            PacketKind::Handshake => "intention"@,
            PacketKind::StatusRequest => "status_request"@,
            PacketKind::PingRequest => "ping_request"@,
            PacketKind::LoginStart => "hello"@,
            PacketKind::StatusResponse => "status_response"@,
            PacketKind::PongResponse => "pong_response"@,
        }
    }

    /// The state in which the packet is valid.
    pub open spec fn spec_state(self) -> ProtocolState {
        match self {
            PacketKind::Handshake => ProtocolState::Handshake,
            PacketKind::LoginStart => ProtocolState::Login,
            _ => ProtocolState::Status,
        }
    }

    /// Whether the server writes the packet (else it reads it).
    pub open spec fn spec_clientbound(self) -> bool {
        self is StatusResponse || self is PongResponse
    }

    pub fn resource(&self) -> (r: &'static str)
        ensures
            r@ == self.spec_resource(),
    {
        match self {
            PacketKind::Handshake => "intention",
            PacketKind::StatusRequest => "status_request",
            PacketKind::PingRequest => "ping_request",
            PacketKind::LoginStart => "hello",
            PacketKind::StatusResponse => "status_response",
            PacketKind::PongResponse => "pong_response",
        }
    }

    pub fn state(&self) -> (r: ProtocolState)
        ensures
            r == self.spec_state(),
    {
        match self {
            PacketKind::Handshake => ProtocolState::Handshake,
            PacketKind::LoginStart => ProtocolState::Login,
            _ => ProtocolState::Status,
        }
    }

    pub fn clientbound(&self) -> (r: bool)
        ensures
            r == self.spec_clientbound(),
    {
        match self {
            PacketKind::StatusResponse | PacketKind::PongResponse => true,
            _ => false,
        }
    }
}

impl PacketTable {
    /// Find the packet id for a given resource and state, and boundedness.
    pub fn find_packet(&self, resource: &str, state: ProtocolState, clientbound: bool) -> (r: Option<
        i32,
    >)
        ensures
            r == spec_lookup(
                self.entries@,
                resource_key(resource@),
                state,
                direction_of(clientbound),
            ),
    {
        let mut key = String::from_str("minecraft:");
        key.append(resource);
        let table_st = match state {
            ProtocolState::Transfer => ProtocolState::Login,
            other => other,
        };
        let direction = if clientbound {
            Direction::Clientbound
        } else {
            Direction::Serverbound
        };
        let ghost k = resource_key(resource@);
        let mut i: usize = 0;
        assert(self.entries@.skip(0) == self.entries@);
        while i < self.entries.len()
            invariant
                i <= self.entries@.len(),
                key@ == k,
                k == resource_key(resource@),
                table_st == table_state(state),
                direction == direction_of(clientbound),
                spec_lookup(self.entries@, k, state, direction) == spec_lookup(
                    self.entries@.skip(i as int),
                    k,
                    state,
                    direction,
                ),
            decreases self.entries@.len() - i,
        {
            let e = &self.entries[i];
            proof {
                assert(self.entries@.skip(i as int)[0] == self.entries@[i as int]);
                assert(self.entries@.skip(i as int).drop_first() == self.entries@.skip(i + 1));
            }
            if e.state == table_st && e.direction == direction && e.resource == key {
                return Some(e.protocol_id);
            }
            i = i + 1;
        }
        None
    }
}

/// The id that the table gives `kind`, if it lists it.
pub open spec fn spec_id_of(entries: Seq<PacketEntry>, kind: PacketKind) -> Option<i32> {
    spec_lookup(
        entries,
        resource_key(kind.spec_resource()),
        kind.spec_state(),
        direction_of(kind.spec_clientbound()),
    )
}

/// The ids of the packets that the engine reads and writes, resolved from the table.
#[derive(Clone, Copy, Debug, PartialEq, Eq, Structural)]
pub struct PacketIds {
    pub handshake: i32,
    pub status_request: i32,
    pub ping_request: i32,
    pub login_start: i32,
    pub status_response: i32,
    pub pong_response: i32,
}

impl PacketIds {
    /// The id of `kind`.
    pub open spec fn spec_id(self, kind: PacketKind) -> i32 {
        match kind {
            PacketKind::Handshake => self.handshake,
            PacketKind::StatusRequest => self.status_request,
            PacketKind::PingRequest => self.ping_request,
            PacketKind::LoginStart => self.login_start,
            PacketKind::StatusResponse => self.status_response,
            PacketKind::PongResponse => self.pong_response,
        }
    }

    /// The serverbound packet that id `id` names in `state`.
    pub open spec fn spec_serverbound(self, state: ProtocolState, id: i32) -> Option<PacketKind> {
        if state is Handshake && id == self.handshake {
            Some(PacketKind::Handshake)
        } else if state is Status && id == self.status_request {
            Some(PacketKind::StatusRequest)
        } else if state is Status && id == self.ping_request {
            Some(PacketKind::PingRequest)
        } else if (state is Login || state is Transfer) && id == self.login_start {
            Some(PacketKind::LoginStart)
        } else {
            None
        }
    }

    fn lookup(table: &PacketTable, kind: PacketKind) -> (r: Result<i32, PacketKind>)
        ensures
            r matches Ok(id) ==> spec_id_of(table.entries@, kind) == Some(id),
            r matches Err(k) ==> k == kind && spec_id_of(table.entries@, kind) is None,
    {
        match table.find_packet(kind.resource(), kind.state(), kind.clientbound()) {
            Some(id) => Ok(id),
            None => Err(kind),
        }
    }

    /// Resolves every packet through the table; fails with the first packet
    /// that the table does not list.
    pub fn resolve(table: &PacketTable) -> (r: Result<PacketIds, PacketKind>)
        ensures
            r matches Ok(ids) ==> forall|k: PacketKind|
                spec_id_of(table.entries@, k) == Some(#[trigger] ids.spec_id(k)),
            r matches Err(k) ==> spec_id_of(table.entries@, k) is None,
    {
        let handshake = match Self::lookup(table, PacketKind::Handshake) {
            Ok(id) => id,
            Err(k) => return Err(k),
        };
        let status_request = match Self::lookup(table, PacketKind::StatusRequest) {
            Ok(id) => id,
            Err(k) => return Err(k),
        };
        let ping_request = match Self::lookup(table, PacketKind::PingRequest) {
            Ok(id) => id,
            Err(k) => return Err(k),
        };
        let login_start = match Self::lookup(table, PacketKind::LoginStart) {
            Ok(id) => id,
            Err(k) => return Err(k),
        };
        let status_response = match Self::lookup(table, PacketKind::StatusResponse) {
            Ok(id) => id,
            Err(k) => return Err(k),
        };
        let pong_response = match Self::lookup(table, PacketKind::PongResponse) {
            Ok(id) => id,
            Err(k) => return Err(k),
        };
        let ids = PacketIds {
            handshake,
            status_request,
            ping_request,
            login_start,
            status_response,
            pong_response,
        };
        assert forall|k: PacketKind| spec_id_of(table.entries@, k) == Some(#[trigger] ids.spec_id(k)) by {
            match k {
                PacketKind::Handshake => {},
                PacketKind::StatusRequest => {},
                PacketKind::PingRequest => {},
                PacketKind::LoginStart => {},
                PacketKind::StatusResponse => {},
                PacketKind::PongResponse => {},
            }
        }
        Ok(ids)
    }

    /// The serverbound packet that `id` names in `state`, if any: the dispatch
    /// table keyed by `(state, id)`.
    pub fn serverbound(&self, state: ProtocolState, id: VarInt) -> (r: Option<PacketKind>)
        ensures
            r == self.spec_serverbound(state, id.0),
    {
        let id = id.0;
        match state {
            ProtocolState::Handshake => {
                if id == self.handshake {
                    Some(PacketKind::Handshake)
                } else {
                    None
                }
            },
            ProtocolState::Status => {
                if id == self.status_request {
                    Some(PacketKind::StatusRequest)
                } else if id == self.ping_request {
                    Some(PacketKind::PingRequest)
                } else {
                    None
                }
            },
            ProtocolState::Login | ProtocolState::Transfer => {
                if id == self.login_start {
                    Some(PacketKind::LoginStart)
                } else {
                    None
                }
            },
            _ => None,
        }
    }
}

} // verus!
