//! The packet frame: `VarInt length ‖ VarInt id ‖ payload`.
use vstd::prelude::*;
use vstd::slice::{slice_subrange, slice_to_vec};

use crate::codec::{Decode, Encode};
use crate::error::{DecodeError, IoError};
use crate::varint::{
    lemma_varint_round_trip, lemma_varint_size_bound, spec_varint_decode, spec_varint_encode,
    VarInt,
};

verus! {

/// The largest value that a frame's length prefix can hold.
pub const MAX_FRAME_LENGTH: usize = 0x7FFF_FFFF;

/// A raw packet, before any processing is done: its id and its opaque payload.
#[derive(Clone, Debug)]
pub struct RawPacket {
    /// The packet id.
    pub id: VarInt,
    /// The payload that follows the id.
    pub data: Vec<u8>,
}

impl View for RawPacket {
    type V = (i32, Seq<u8>);

    open spec fn view(&self) -> (i32, Seq<u8>) {
        (self.id.0, self.data@)
    }
}

/// The frame at the front of `s`: the id and payload, and the bytes it takes.
/// A length prefix shorter than the id it covers is a malformed header.
pub open spec fn spec_frame_decode(s: Seq<u8>) -> Result<((i32, Seq<u8>), nat), DecodeError> {
    match spec_varint_decode(s) {
        Err(e) => Err(e),
        Ok((len, k1)) => match spec_varint_decode(s.skip(k1 as int)) {
            Err(e) => Err(e),
            Ok((id, k2)) => {
                if len < k2 {
                    Err(DecodeError::VarIntTooBig)
                } else if s.len() < k1 + len {
                    Err(DecodeError::Io(IoError::UnexpectedEof))
                } else {
                    Ok(((id, s.subrange((k1 + k2) as int, k1 + len)), (k1 + len) as nat))
                }
            },
        },
    }
}

/// The length prefix of a frame: the id's size plus the payload's.
pub open spec fn spec_frame_length(id: i32, payload: Seq<u8>) -> int {
    (spec_varint_encode(id).len() + payload.len()) as int
}

/// The bytes of the frame of `id` and `payload`.
pub open spec fn spec_frame_encode(id: i32, payload: Seq<u8>) -> Seq<u8> {
    spec_varint_encode(spec_frame_length(id, payload) as i32) + spec_varint_encode(id) + payload
}

impl RawPacket {
    /// Whether the packet's frame length fits its VarInt prefix.
    pub open spec fn fits(&self) -> bool {
        spec_frame_length(self.id.0, self.data@) <= MAX_FRAME_LENGTH
    }

    /// The frame length that encoding this packet writes, or `None` where the
    /// payload is too long for any frame.
    pub fn frame_length(&self) -> (r: Option<usize>)
        ensures
            r matches Some(n) ==> self.fits() && n == spec_frame_length(self.id.0, self.data@),
            r is None ==> !self.fits(),
    {
        let size = self.id.size();
        if self.data.len() > MAX_FRAME_LENGTH - size {
            None
        } else {
            Some(size + self.data.len())
        }
    }
}

impl Encode for RawPacket {
    open spec fn spec_encodable(v: (i32, Seq<u8>)) -> bool {
        spec_frame_length(v.0, v.1) <= MAX_FRAME_LENGTH
    }

    open spec fn spec_encode(v: (i32, Seq<u8>)) -> Seq<u8> {
        spec_frame_encode(v.0, v.1)
    }

    fn encode(&self, out: &mut Vec<u8>) {
        // the length prefix covers both the id and the payload
        let mut buf: Vec<u8> = Vec::new();
        self.id.encode(&mut buf);
        let mut i: usize = 0;
        while i < self.data.len()
            invariant
                i <= self.data@.len(),
                buf@ == spec_varint_encode(self.id.0) + self.data@.take(i as int),
            decreases self.data@.len() - i,
        {
            buf.push(self.data[i]);
            i = i + 1;
            assert(self.data@.take(i as int) == self.data@.take(i - 1).push(self.data@[i - 1]));
        }
        assert(self.data@.take(self.data@.len() as int) == self.data@);
        let length = VarInt(buf.len() as i32);
        length.encode(out);
        out.append(&mut buf);
    }
}

impl Decode for RawPacket {
    open spec fn spec_decode(s: Seq<u8>) -> Result<((i32, Seq<u8>), nat), DecodeError> {
        spec_frame_decode(s)
    }

    fn decode(input: &[u8]) -> (r: Result<(RawPacket, usize), DecodeError>) {
        // read header
        let (length, k1) = match VarInt::decode(input) {
            Ok(x) => x,
            Err(e) => return Err(e),
        };
        let rest = slice_subrange(input, k1, input.len());
        assert(rest@ == input@.skip(k1 as int));
        let (id, k2) = match VarInt::decode(rest) {
            Ok(x) => x,
            Err(e) => return Err(e),
        };
        if length.0 < 0 || (length.0 as usize) < k2 {
            return Err(DecodeError::VarIntTooBig);
        }
        // read data
        let len = length.0 as usize;
        if input.len() - k1 < len {
            return Err(DecodeError::Io(IoError::UnexpectedEof));
        }
        let data = slice_to_vec(slice_subrange(input, k1 + k2, k1 + len));
        Ok((RawPacket { id, data }, k1 + len))
    }
}

impl RawPacket {
    /// The bytes of this packet's frame, or `None` where the payload is too long
    /// for any frame.
    pub fn to_frame(&self) -> (r: Option<Vec<u8>>)
        ensures
            r matches Some(b) ==> self.fits() && b@ == spec_frame_encode(self.id.0, self.data@),
            r is None ==> !self.fits(),
    {
        match self.frame_length() {
            None => None,
            Some(_) => {
                let mut out: Vec<u8> = Vec::new();
                self.encode(&mut out);
                assert(out@ =~= spec_frame_encode(self.id.0, self.data@));
                Some(out)
            },
        }
    }
}

/// The bytes a connection has received but not yet framed.
#[derive(Clone, Debug)]
pub struct FrameReader {
    buffer: Vec<u8>,
}

impl View for FrameReader {
    type V = Seq<u8>;

    closed spec fn view(&self) -> Seq<u8> {
        self.buffer@
    }
}

impl FrameReader {
    /// A reader with nothing buffered.
    pub fn new() -> (r: FrameReader)
        ensures
            r@ == Seq::<u8>::empty(),
    {
        FrameReader { buffer: Vec::new() }
    }

    /// Appends bytes read from the socket.
    pub fn push(&mut self, bytes: &[u8])
        ensures
            final(self)@ == old(self)@ + bytes@,
    {
        let mut i: usize = 0;
        while i < bytes.len()
            invariant
                i <= bytes@.len(),
                self@ == old(self)@ + bytes@.take(i as int),
            decreases bytes@.len() - i,
        {
            self.buffer.push(bytes[i]);
            i = i + 1;
            assert(bytes@.take(i as int) == bytes@.take(i - 1).push(bytes@[i - 1]));
            assert(self@ =~= old(self)@ + bytes@.take(i as int));
        }
        assert(bytes@.take(bytes@.len() as int) == bytes@);
    }

    /// Takes the next complete frame off the front of the buffer: `Ok(None)`
    /// where more bytes are needed, an error where the buffer cannot start a
    /// frame (the buffer is then left as it was).
    pub fn next_frame(&mut self) -> (r: Result<Option<RawPacket>, DecodeError>)
        ensures
            match spec_frame_decode(old(self)@) {
                Ok((v, n)) => {
                    &&& r matches Ok(Some(p)) && p@ == v
                    &&& final(self)@ == old(self)@.skip(n as int)
                },
                Err(DecodeError::Io(IoError::UnexpectedEof)) => {
                    &&& r matches Ok(None)
                    &&& final(self)@ == old(self)@
                },
                Err(e) => {
                    &&& r == Err::<Option<RawPacket>, DecodeError>(e)
                    &&& final(self)@ == old(self)@
                },
            },
    {
        match RawPacket::decode(self.buffer.as_slice()) {
            Ok((packet, n)) => {
                let len = self.buffer.len();
                let rest = slice_to_vec(slice_subrange(self.buffer.as_slice(), n, len));
                self.buffer = rest;
                Ok(Some(packet))
            },
            Err(DecodeError::Io(IoError::UnexpectedEof)) => Ok(None),
            Err(e) => Err(e),
        }
    }
}

/// Decoding the frame of `(id, payload)`, followed by anything, gives back the
/// id and the payload; its length prefix is the id's size plus the payload's.
pub proof fn lemma_frame_round_trip(id: i32, payload: Seq<u8>, rest: Seq<u8>)
    requires
        spec_frame_length(id, payload) <= MAX_FRAME_LENGTH,
    ensures
        spec_frame_decode(spec_frame_encode(id, payload) + rest) == Ok::<
            ((i32, Seq<u8>), nat),
            DecodeError,
        >(((id, payload), spec_frame_encode(id, payload).len())),
        spec_varint_decode(spec_frame_encode(id, payload) + rest) == Ok::<(i32, nat), DecodeError>(
            (
                spec_frame_length(id, payload) as i32,
                spec_varint_encode(spec_frame_length(id, payload) as i32).len(),
            ),
        ),
{
    let len = spec_frame_length(id, payload) as i32;
    let head = spec_varint_encode(len);
    let idb = spec_varint_encode(id);
    let s = spec_frame_encode(id, payload) + rest;
    assert(s == head + (idb + payload + rest));
    lemma_varint_round_trip(len, idb + payload + rest);
    let k1 = head.len();
    assert(s.skip(k1 as int) == idb + (payload + rest));
    lemma_varint_round_trip(id, payload + rest);
    lemma_varint_size_bound(id);
    let k2 = idb.len();
    assert(s.subrange((k1 + k2) as int, k1 + len) == payload);
}

} // verus!
