//! The per-connection protocol state machine.
use vstd::prelude::*;

use crate::codec::{Decode, Encode};
use crate::error::DecodeError;
use crate::varint::{spec_varint_decode, spec_varint_encode, VarInt};

verus! {

/// The protocol state of a connection, which determines which packets can be sent and received.
#[derive(Clone, Copy, Debug, PartialEq, Eq, Structural)]
pub enum ProtocolState {
    /// Initial state after connection: the only state in which a Handshake is read.
    Handshake,
    /// Server List Ping.
    Status,
    /// Authentication, encryption, etc.
    Login,
    /// Like Login, but the client connected because of a Transfer packet.
    Transfer,
    /// Share resource packs, registry data, etc.
    Configuration,
    /// Playing the game.
    Play,
}

impl View for ProtocolState {
    type V = ProtocolState;

    open spec fn view(&self) -> ProtocolState {
        *self
    }
}

impl Default for ProtocolState {
    fn default() -> (r: ProtocolState)
        ensures
            r == ProtocolState::Handshake,
    {
        ProtocolState::Handshake
    }
}

/// The state that a handshake intent selects: 1 Status, 2 Login, 3 Transfer.
pub open spec fn spec_intent(v: i32) -> Option<ProtocolState> {
    if v == 1 {
        Some(ProtocolState::Status)
    } else if v == 2 {
        Some(ProtocolState::Login)
    } else if v == 3 {
        Some(ProtocolState::Transfer)
    } else {
        None
    }
}

/// The intent number of a state that a handshake can select.
pub open spec fn spec_intent_id(s: ProtocolState) -> i32 {
    match s {
        ProtocolState::Status => 1,
        ProtocolState::Login => 2,
        ProtocolState::Transfer => 3,
        _ => 0,
    }
}

/// Whether a handshake can select `s`.
pub open spec fn is_intent(s: ProtocolState) -> bool {
    s is Status || s is Login || s is Transfer
}

/// The transitions of the protocol: a Handshake selects Status, Login or
/// Transfer; Login (and Transfer) lead to Configuration, and that to Play.
pub open spec fn is_transition(from: ProtocolState, to: ProtocolState) -> bool {
    match from {
        ProtocolState::Handshake => is_intent(to),
        ProtocolState::Login | ProtocolState::Transfer => to is Configuration,
        ProtocolState::Configuration => to is Play,
        _ => false,
    }
}

/// Whether a connection observed in `from` may next be observed in `to`.
pub open spec fn is_step(from: ProtocolState, to: ProtocolState) -> bool {
    from == to || is_transition(from, to)
}

/// Whether `states` is a path through the transition table from the initial state.
pub open spec fn is_valid_path(states: Seq<ProtocolState>) -> bool {
    &&& states.len() > 0
    &&& states[0] == ProtocolState::Handshake
    &&& forall|i: int| 0 <= i < states.len() - 1 ==> #[trigger] is_step(states[i], states[i + 1])
}

/// The rank of a state along the transition table; every transition raises it.
pub open spec fn rank(s: ProtocolState) -> nat {
    match s {
        ProtocolState::Handshake => 0,
        ProtocolState::Status | ProtocolState::Login | ProtocolState::Transfer => 1,
        ProtocolState::Configuration => 2,
        ProtocolState::Play => 3,
    }
}

/// A valid path extended by one step is a valid path.
pub proof fn lemma_path_extend(states: Seq<ProtocolState>, next: ProtocolState)
    requires
        is_valid_path(states),
        is_step(states.last(), next),
    ensures
        is_valid_path(states.push(next)),
{
    let s = states.push(next);
    assert forall|i: int| 0 <= i < s.len() - 1 implies #[trigger] is_step(s[i], s[i + 1]) by {
        if i < states.len() - 1 {
            assert(is_step(states[i], states[i + 1]));
        }
    }
}

/// Along a valid path a connection never moves backward: the rank never falls,
/// and a state once left is never seen again.
pub proof fn lemma_path_monotone(states: Seq<ProtocolState>, i: int, j: int)
    requires
        is_valid_path(states),
        0 <= i <= j < states.len(),
    ensures
        rank(states[i]) <= rank(states[j]),
        states[i] != states[j] ==> rank(states[i]) < rank(states[j]),
    decreases j - i,
{
    if i < j {
        lemma_path_monotone(states, i, j - 1);
        let k = j - 1;
        assert(is_step(states[k], states[k + 1]));
    }
}

impl ProtocolState {
    /// Whether the transition table allows moving from `self` to `to`.
    pub fn can_transition(&self, to: ProtocolState) -> (r: bool)
        ensures
            r == is_transition(*self, to),
    {
        match self {
            ProtocolState::Handshake => match to {
                ProtocolState::Status | ProtocolState::Login | ProtocolState::Transfer => true,
                _ => false,
            },
            ProtocolState::Login | ProtocolState::Transfer => to == ProtocolState::Configuration,
            ProtocolState::Configuration => to == ProtocolState::Play,
            _ => false,
        }
    }

    /// The state that a handshake intent selects.
    pub fn from_intent(v: i32) -> (r: Option<ProtocolState>)
        ensures
            r == spec_intent(v),
    {
        if v == 1 {
            Some(ProtocolState::Status)
        } else if v == 2 {
            Some(ProtocolState::Login)
        } else if v == 3 {
            Some(ProtocolState::Transfer)
        } else {
            None
        }
    }
}

impl Encode for ProtocolState {
    open spec fn spec_encodable(v: ProtocolState) -> bool {
        is_intent(v)
    }

    open spec fn spec_encode(v: ProtocolState) -> Seq<u8> {
        spec_varint_encode(spec_intent_id(v))
    }

    fn encode(&self, out: &mut Vec<u8>) {
        let id: i32 = match self {
            ProtocolState::Status => 1,
            ProtocolState::Login => 2,
            _ => 3,
        };
        VarInt(id).encode(out);
    }
}

impl Decode for ProtocolState {
    open spec fn spec_decode(s: Seq<u8>) -> Result<(ProtocolState, nat), DecodeError> {
        match spec_varint_decode(s) {
            Err(e) => Err(e),
            Ok((v, k)) => match spec_intent(v) {
                Some(st) => Ok((st, k)),
                None => Err(DecodeError::InvalidProtocolState(VarInt(v))),
            },
        }
    }

    fn decode(input: &[u8]) -> (r: Result<(ProtocolState, usize), DecodeError>) {
        let (v, k) = match VarInt::decode(input) {
            Ok(x) => x,
            Err(e) => return Err(e),
        };
        match ProtocolState::from_intent(v.0) {
            Some(st) => Ok((st, k)),
            None => Err(DecodeError::InvalidProtocolState(v)),
        }
    }
}

} // verus!
