use vstd::prelude::*;

use crate::varint::VarInt;

verus! {

/// A failure of the underlying byte stream.
#[derive(Clone, Copy, Debug, PartialEq, Eq, Structural)]
pub enum IoError {
    /// The input ended before the value was complete.
    UnexpectedEof,
    /// The bytes read are not a valid value (for strings: not UTF-8).
    InvalidData,
}

/// Error that can occur during decoding.
#[derive(Clone, Copy, Debug, PartialEq, Eq, Structural)]
pub enum DecodeError {
    /// The bytes could not be read.
    Io(IoError),
    /// A VarInt needed more than 5 bytes, or a frame header is malformed.
    VarIntTooBig,
    /// A handshake intent other than 1 (Status), 2 (Login) or 3 (Transfer).
    InvalidProtocolState(VarInt),
}

} // verus!
