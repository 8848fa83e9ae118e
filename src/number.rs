//! Fixed-width integers, written big-endian.
use vstd::prelude::*;

use crate::codec::{Decode, Encode};
use crate::error::{DecodeError, IoError};

verus! {

/// 256 to the power `k`.
pub open spec fn byte_weight(k: nat) -> nat
    decreases k,
{
    if k == 0 {
        1
    } else {
        256 * byte_weight((k - 1) as nat)
    }
}

/// The `k` low bytes of `v`, most significant first.
pub open spec fn be_bytes(v: nat, k: nat) -> Seq<u8>
    decreases k,
{
    if k == 0 {
        seq![]
    } else {
        be_bytes(v / 256, (k - 1) as nat).push((v % 256) as u8)
    }
}

/// The number that `s` denotes, most significant byte first.
pub open spec fn be_value(s: Seq<u8>) -> nat
    decreases s.len(),
{
    if s.len() == 0 {
        0
    } else {
        be_value(s.drop_last()) * 256 + s.last() as nat
    }
}

/// The number held by the first `k` bytes of `s`, or a short read.
pub open spec fn spec_be_decode(s: Seq<u8>, k: nat) -> Result<(nat, nat), DecodeError> {
    if s.len() < k {
        Err(DecodeError::Io(IoError::UnexpectedEof))
    } else {
        Ok((be_value(s.take(k as int)), k))
    }
}

/// The two's complement pattern of `n` as an unsigned 64-bit number.
pub open spec fn i64_pattern(n: i64) -> nat {
    if n >= 0 {
        n as nat
    } else {
        (n + 0x1_0000_0000_0000_0000) as nat
    }
}

/// The signed 64-bit integer with pattern `p` (`p` below 2^64).
pub open spec fn i64_of_pattern(p: nat) -> i64 {
    if p < 0x8000_0000_0000_0000 {
        p as i64
    } else {
        (p - 0x1_0000_0000_0000_0000) as i64
    }
}

proof fn lemma_byte_weights()
    ensures
        byte_weight(2) == 0x1_0000,
        byte_weight(8) == 0x1_0000_0000_0000_0000,
        byte_weight(16) == 0x1_0000_0000_0000_0000_0000_0000_0000_0000,
{
    reveal_with_fuel(byte_weight, 17);
}

proof fn lemma_be_bytes_len(v: nat, k: nat)
    ensures
        be_bytes(v, k).len() == k,
    decreases k,
{
    if k > 0 {
        lemma_be_bytes_len(v / 256, (k - 1) as nat);
    }
}

/// Reading back the `k` bytes of a number below 256^k gives the number.
pub proof fn lemma_be_round_trip(v: nat, k: nat)
    requires
        v < byte_weight(k),
    ensures
        be_value(be_bytes(v, k)) == v,
        be_bytes(v, k).len() == k,
    decreases k,
{
    lemma_be_bytes_len(v, k);
    if k > 0 {
        let w = byte_weight((k - 1) as nat);
        assert(v / 256 < w) by (nonlinear_arith)
            requires
                v < 256 * w,
        ;
        lemma_be_round_trip(v / 256, (k - 1) as nat);
        let s = be_bytes(v, k);
        assert(s.drop_last() == be_bytes(v / 256, (k - 1) as nat));
    }
}

/// Decoding `k` big-endian bytes of `v`, followed by anything, gives `v` back.
pub proof fn lemma_be_decode_round_trip(v: nat, k: nat, rest: Seq<u8>)
    requires
        v < byte_weight(k),
    ensures
        spec_be_decode(be_bytes(v, k) + rest, k) == Ok::<(nat, nat), DecodeError>((v, k)),
{
    lemma_be_round_trip(v, k);
    assert((be_bytes(v, k) + rest).take(k as int) == be_bytes(v, k));
}

/// Appends the `k` low bytes of `v`, most significant first.
fn put_be(out: &mut Vec<u8>, v: u128, k: usize)
    ensures
        final(out)@ == old(out)@ + be_bytes(v as nat, k as nat),
    decreases k,
{
    if k == 0 {
        assert(old(out)@ + be_bytes(v as nat, 0) == old(out)@);
        return;
    }
    put_be(out, v / 256, k - 1);
    out.push((v % 256) as u8);
    assert(old(out)@ + be_bytes(v as nat, k as nat) == (old(out)@ + be_bytes(
        (v / 256) as nat,
        (k - 1) as nat,
    )).push((v % 256) as u8));
}

/// Reads a `k`-byte big-endian number from the front of `input`.
fn get_be(input: &[u8], k: usize) -> (r: Result<u128, DecodeError>)
    requires
        k <= 16,
    ensures
        match (r, spec_be_decode(input@, k as nat)) {
            (Ok(v), Ok((w, n))) => v as nat == w && n == k,
            (Err(e), Err(f)) => e == f,
            _ => false,
        },
{
    if input.len() < k {
        return Err(DecodeError::Io(IoError::UnexpectedEof));
    }
    let mut acc: u128 = 0;
    let mut i: usize = 0;
    proof {
        lemma_byte_weights();
        assert(input@.take(0) == Seq::<u8>::empty());
    }
    while i < k
        invariant
            i <= k <= 16,
            k <= input@.len(),
            acc as nat == be_value(input@.take(i as int)),
            acc < byte_weight(i as nat),
            byte_weight(16) == 0x1_0000_0000_0000_0000_0000_0000_0000_0000,
        decreases k - i,
    {
        proof {
            lemma_byte_weights();
            lemma_byte_weight_monotone(i as nat, 15);
            assert(input@.take(i + 1).drop_last() == input@.take(i as int));
        }
        let b = input[i];
        assert(acc * 256 + b < 256 * byte_weight(i as nat)) by (nonlinear_arith)
            requires
                acc < byte_weight(i as nat),
                b < 256,
        ;
        acc = acc * 256 + b as u128;
        i = i + 1;
    }
    proof {
        lemma_byte_weights();
    }
    Ok(acc)
}

proof fn lemma_byte_weight_monotone(i: nat, j: nat)
    requires
        i <= j,
    ensures
        byte_weight(i) <= byte_weight(j),
        byte_weight(i) >= 1,
    decreases j - i,
{
    if i < j {
        lemma_byte_weight_monotone(i, (j - 1) as nat);
    } else {
        lemma_byte_weight_positive(i);
    }
}

proof fn lemma_byte_weight_positive(i: nat)
    ensures
        byte_weight(i) >= 1,
    decreases i,
{
    if i > 0 {
        lemma_byte_weight_positive((i - 1) as nat);
    }
}

impl Encode for u16 {
    open spec fn spec_encodable(v: u16) -> bool {
        true
    }

    open spec fn spec_encode(v: u16) -> Seq<u8> {
        be_bytes(v as nat, 2)
    }

    fn encode(&self, out: &mut Vec<u8>) {
        put_be(out, *self as u128, 2);
    }
}

impl Decode for u16 {
    open spec fn spec_decode(s: Seq<u8>) -> Result<(u16, nat), DecodeError> {
        match spec_be_decode(s, 2) {
            Ok((v, n)) => Ok((v as u16, n)),
            Err(e) => Err(e),
        }
    }

    fn decode(input: &[u8]) -> (r: Result<(u16, usize), DecodeError>) {
        proof {
            lemma_byte_weights();
        }
        match get_be(input, 2) {
            Ok(v) => {
                proof {
                    assert(v < byte_weight(2)) by {
                        lemma_be_value_bound(input@.take(2));
                    }
                }
                Ok((v as u16, 2))
            },
            Err(e) => Err(e),
        }
    }
}

impl Encode for u128 {
    open spec fn spec_encodable(v: u128) -> bool {
        true
    }

    open spec fn spec_encode(v: u128) -> Seq<u8> {
        be_bytes(v as nat, 16)
    }

    fn encode(&self, out: &mut Vec<u8>) {
        put_be(out, *self, 16);
    }
}

impl Decode for u128 {
    open spec fn spec_decode(s: Seq<u8>) -> Result<(u128, nat), DecodeError> {
        match spec_be_decode(s, 16) {
            Ok((v, n)) => Ok((v as u128, n)),
            Err(e) => Err(e),
        }
    }

    fn decode(input: &[u8]) -> (r: Result<(u128, usize), DecodeError>) {
        match get_be(input, 16) {
            Ok(v) => Ok((v, 16)),
            Err(e) => Err(e),
        }
    }
}

impl Encode for i64 {
    open spec fn spec_encodable(v: i64) -> bool {
        true
    }

    open spec fn spec_encode(v: i64) -> Seq<u8> {
        be_bytes(i64_pattern(v), 8)
    }

    fn encode(&self, out: &mut Vec<u8>) {
        let p: u128 = if *self >= 0 {
            *self as u128
        } else {
            (*self as i128 + 0x1_0000_0000_0000_0000i128) as u128
        };
        put_be(out, p, 8);
    }
}

impl Decode for i64 {
    open spec fn spec_decode(s: Seq<u8>) -> Result<(i64, nat), DecodeError> {
        match spec_be_decode(s, 8) {
            Ok((v, n)) => Ok((i64_of_pattern(v), n)),
            Err(e) => Err(e),
        }
    }

    fn decode(input: &[u8]) -> (r: Result<(i64, usize), DecodeError>) {
        proof {
            lemma_byte_weights();
        }
        match get_be(input, 8) {
            Ok(p) => {
                proof {
                    lemma_be_value_bound(input@.take(8));
                }
                let n: i64 = if p < 0x8000_0000_0000_0000 {
                    p as i64
                } else {
                    (p as i128 - 0x1_0000_0000_0000_0000i128) as i64
                };
                Ok((n, 8))
            },
            Err(e) => Err(e),
        }
    }
}

/// A sequence of `k` bytes denotes a number below 256^k.
proof fn lemma_be_value_bound(s: Seq<u8>)
    ensures
        be_value(s) < byte_weight(s.len()),
    decreases s.len(),
{
    if s.len() > 0 {
        lemma_be_value_bound(s.drop_last());
        let w = byte_weight(s.drop_last().len());
        let a = be_value(s.drop_last());
        let b = s.last() as nat;
        assert(a * 256 + b < 256 * w) by (nonlinear_arith)
            requires
                a < w,
                b < 256,
        ;
    }
}

/// Decoding the big-endian bytes of an `i64` gives it back.
pub proof fn lemma_i64_round_trip(n: i64, rest: Seq<u8>)
    ensures
        <i64 as Decode>::spec_decode(<i64 as Encode>::spec_encode(n) + rest)
            == Ok::<(i64, nat), DecodeError>((n, 8)),
{
    lemma_byte_weights();
    lemma_be_decode_round_trip(i64_pattern(n), 8, rest);
}

} // verus!
