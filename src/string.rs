//! See: <https://minecraft.wiki/w/Java_Edition_protocol/Data_types#Type:String>
use vstd::prelude::*;
use vstd::slice::{slice_subrange, slice_to_vec};
use vstd::string::StrSliceExecFns;
use vstd::utf8::{decode_utf8, encode_utf8, encode_utf8_decode_utf8, encode_utf8_valid_utf8, valid_utf8};

use crate::codec::{Decode, Encode};
use crate::error::{DecodeError, IoError};
use crate::varint::{lemma_varint_round_trip, spec_varint_decode, spec_varint_encode, VarInt};

verus! {

/// The largest byte length that a string's VarInt prefix can state.
pub const MAX_STRING_BYTES: usize = 0x7FFF_FFFF;

/// The string at the front of `s`: a VarInt byte length, then that many bytes
/// of UTF-8. A negative length or bytes that are not UTF-8 are invalid data.
pub open spec fn spec_string_decode(s: Seq<u8>) -> Result<(Seq<char>, nat), DecodeError> {
    match spec_varint_decode(s) {
        Err(e) => Err(e),
        Ok((len, k)) => {
            if len < 0 {
                Err(DecodeError::Io(IoError::InvalidData))
            } else if s.len() < k + len {
                Err(DecodeError::Io(IoError::UnexpectedEof))
            } else if valid_utf8(s.subrange(k as int, k + len)) {
                Ok((decode_utf8(s.subrange(k as int, k + len)), (k + len) as nat))
            } else {
                Err(DecodeError::Io(IoError::InvalidData))
            }
        },
    }
}

/// The bytes that a string is written as: its UTF-8 byte length, then its UTF-8 bytes.
pub open spec fn spec_string_encode(chars: Seq<char>) -> Seq<u8> {
    spec_varint_encode(encode_utf8(chars).len() as i32) + encode_utf8(chars)
}

/// Relies on std's `String::from_utf8`: it returns the string that the bytes
/// spell when they are valid UTF-8, and an error otherwise.
#[verifier::external_body]
fn string_from_utf8(bytes: Vec<u8>) -> (r: Option<String>)
    ensures
        r is Some <==> valid_utf8(bytes@),
        r matches Some(s) ==> s@ == decode_utf8(bytes@),
{
    String::from_utf8(bytes).ok()
}

impl Encode for String {
    open spec fn spec_encodable(v: Seq<char>) -> bool {
        encode_utf8(v).len() <= MAX_STRING_BYTES
    }

    open spec fn spec_encode(v: Seq<char>) -> Seq<u8> {
        spec_string_encode(v)
    }

    fn encode(&self, out: &mut Vec<u8>) {
        let mut bytes = self.as_str().as_bytes_vec();
        let length = VarInt(bytes.len() as i32);
        length.encode(out);
        out.append(&mut bytes);
    }
}

impl Decode for String {
    open spec fn spec_decode(s: Seq<u8>) -> Result<(Seq<char>, nat), DecodeError> {
        spec_string_decode(s)
    }

    fn decode(input: &[u8]) -> (r: Result<(String, usize), DecodeError>) {
        let (length, k) = match VarInt::decode(input) {
            Ok(v) => v,
            Err(e) => return Err(e),
        };
        if length.0 < 0 {
            return Err(DecodeError::Io(IoError::InvalidData));
        }
        let len = length.0 as usize;
        if input.len() - k < len {
            return Err(DecodeError::Io(IoError::UnexpectedEof));
        }
        let bytes = slice_to_vec(slice_subrange(input, k, k + len));
        match string_from_utf8(bytes) {
            Some(s) => Ok((s, k + len)),
            None => Err(DecodeError::Io(IoError::InvalidData)),
        }
    }
}

/// Decoding an encoded string, followed by anything, gives the string back; its
/// prefix is its UTF-8 byte length.
pub proof fn lemma_string_round_trip(chars: Seq<char>, rest: Seq<u8>)
    requires
        encode_utf8(chars).len() <= MAX_STRING_BYTES,
    ensures
        spec_string_decode(spec_string_encode(chars) + rest) == Ok::<(Seq<char>, nat), DecodeError>(
            (chars, spec_string_encode(chars).len()),
        ),
        spec_varint_decode(spec_string_encode(chars) + rest) == Ok::<(i32, nat), DecodeError>(
            (
                encode_utf8(chars).len() as i32,
                spec_varint_encode(encode_utf8(chars).len() as i32).len(),
            ),
        ),
{
    let bytes = encode_utf8(chars);
    let n = bytes.len() as i32;
    let prefix = spec_varint_encode(n);
    let s = spec_string_encode(chars) + rest;
    assert(s == prefix + (bytes + rest));
    lemma_varint_round_trip(n, bytes + rest);
    let k = prefix.len();
    assert(s.subrange(k as int, k + n) == bytes);
    encode_utf8_valid_utf8(chars);
    encode_utf8_decode_utf8(chars);
}

} // verus!
