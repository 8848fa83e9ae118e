use vstd::prelude::*;

use crate::error::DecodeError;

verus! {

/// Whether an executable decoding result agrees with its specification: the
/// same value and byte count on success, the same error on failure.
pub open spec fn decode_matches<T: View>(
    r: Result<(T, usize), DecodeError>,
    s: Result<(T::V, nat), DecodeError>,
) -> bool {
    match r {
        Ok((v, n)) => s == Ok::<(T::V, nat), DecodeError>((v@, n as nat)),
        Err(e) => s == Err::<(T::V, nat), DecodeError>(e),
    }
}

/// A type that can be read from the front of a byte sequence.
pub trait Decode: Sized + View {
    /// What the bytes at the front of `s` decode to, with the number of bytes read.
    spec fn spec_decode(s: Seq<u8>) -> Result<(Self::V, nat), DecodeError>;

    /// Decodes a value from the front of `input`, returning it with the number of
    /// bytes it took.
    fn decode(input: &[u8]) -> (r: Result<(Self, usize), DecodeError>)
        ensures
            decode_matches(r, Self::spec_decode(input@)),
            r matches Ok((_, n)) ==> n <= input@.len(),
    ;
}

/// A type that can be written as bytes.
pub trait Encode: View {
    /// Whether `v` can be written at all (a string must have a length that fits a VarInt).
    spec fn spec_encodable(v: Self::V) -> bool;

    /// The bytes that `v` is written as.
    spec fn spec_encode(v: Self::V) -> Seq<u8>;

    /// Appends the encoding of `self` to `out`.
    fn encode(&self, out: &mut Vec<u8>)
        requires
            Self::spec_encodable(self@),
        ensures
            final(out)@ == old(out)@ + Self::spec_encode(self@),
    ;
}

} // verus!
