//! See: <https://minecraft.wiki/w/Java_Edition_protocol/Data_types#VarInt_and_VarLong>
use vstd::prelude::*;

use crate::codec::{Decode, Encode};
use crate::error::{DecodeError, IoError};

verus! {

/// Number of distinct 32-bit patterns.
pub const PATTERNS: u64 = 0x1_0000_0000;

/// Variable-length data encoding a two's complement signed 32-bit integer.
#[derive(Clone, Copy, Debug, PartialEq, Eq, Structural)]
pub struct VarInt(pub i32);

impl View for VarInt {
    type V = i32;

    open spec fn view(&self) -> i32 {
        self.0
    }
}

/// The unsigned 32-bit pattern of `n` (its two's complement bits).
pub open spec fn bit_pattern(n: i32) -> nat {
    if n >= 0 {
        n as nat
    } else {
        (n + PATTERNS) as nat
    }
}

/// The signed 32-bit integer whose pattern is the low 32 bits of `u`.
pub open spec fn from_bit_pattern(u: nat) -> i32 {
    let p = u % (PATTERNS as nat);
    if p < 0x8000_0000 {
        p as i32
    } else {
        (p - PATTERNS) as i32
    }
}

/// 128 to the power `i`: the weight of the `i`-th seven-bit group.
pub open spec fn group_weight(i: nat) -> nat
    decreases i,
{
    if i == 0 {
        1
    } else {
        128 * group_weight((i - 1) as nat)
    }
}

/// The seven-bit groups of `u`, least significant first; every byte but the
/// last carries the continuation bit (0x80).
pub open spec fn varint_groups(u: nat) -> Seq<u8>
    decreases u,
{
    if u < 128 {
        seq![u as u8]
    } else {
        seq![(u % 128 + 128) as u8] + varint_groups(u / 128)
    }
}

/// The bytes that `n` is encoded as.
pub open spec fn spec_varint_encode(n: i32) -> Seq<u8> {
    varint_groups(bit_pattern(n))
}

/// Reads groups of `s` from index `i` on, `acc` being the value of the groups
/// before `i`: the value read and the index after the last group, or the error.
pub open spec fn read_groups(s: Seq<u8>, i: nat, acc: nat) -> Result<(nat, nat), DecodeError>
    decreases 5 - i,
{
    if i >= 5 {
        Err(DecodeError::VarIntTooBig)
    } else if i >= s.len() {
        Err(DecodeError::Io(IoError::UnexpectedEof))
    } else if s[i as int] < 128 {
        Ok((acc + s[i as int] as nat * group_weight(i), i + 1))
    } else {
        read_groups(s, i + 1, acc + (s[i as int] - 128) as nat * group_weight(i))
    }
}

/// The integer that the VarInt at the front of `s` denotes, with its byte count.
/// A sixth byte is never read: five bytes that all carry the continuation bit
/// are `VarIntTooBig`; input that ends before the last byte is a short read.
pub open spec fn spec_varint_decode(s: Seq<u8>) -> Result<(i32, nat), DecodeError> {
    match read_groups(s, 0, 0) {
        Ok((v, n)) => Ok((from_bit_pattern(v), n)),
        Err(e) => Err(e),
    }
}

proof fn lemma_group_weights()
    ensures
        group_weight(0) == 1,
        group_weight(1) == 128,
        group_weight(2) == 16384,
        group_weight(3) == 2097152,
        group_weight(4) == 268435456,
        group_weight(5) == 34359738368,
{
    reveal_with_fuel(group_weight, 6);
}

proof fn lemma_group_weight_positive(i: nat)
    ensures
        group_weight(i) >= 1,
    decreases i,
{
    if i > 0 {
        lemma_group_weight_positive((i - 1) as nat);
    }
}

/// The number of groups of a 32-bit pattern, by its magnitude.
proof fn lemma_groups_len(u: nat)
    requires
        u < PATTERNS,
    ensures
        varint_groups(u).len() == if u < 0x80 {
            1nat
        } else if u < 0x4000 {
            2nat
        } else if u < 0x20_0000 {
            3nat
        } else if u < 0x1000_0000 {
            4nat
        } else {
            5nat
        },
{
    reveal_with_fuel(varint_groups, 6);
    if u >= 128 {
        assert(u / 128 < 128 <==> u < 0x4000);
        assert(u / 128 / 128 < 128 <==> u < 0x20_0000);
        assert(u / 128 / 128 / 128 < 128 <==> u < 0x1000_0000);
        assert(u / 128 / 128 / 128 / 128 < 128);
    }
}

proof fn lemma_split_group(u: nat, w: nat)
    ensures
        (u % 128) * w + (u / 128) * (128 * w) == u * w,
{
    assert((u % 128) * w + (u / 128) * (128 * w) == u * w) by (nonlinear_arith);
}

/// Reading the groups of `u` placed at index `i` of `s` gives back `u`.
proof fn lemma_read_groups(s: Seq<u8>, i: nat, acc: nat, u: nat)
    requires
        i < 5,
        u < group_weight((5 - i) as nat),
        i + varint_groups(u).len() <= s.len(),
        forall|j: int|
            0 <= j < varint_groups(u).len() ==> s[i + j] == #[trigger] varint_groups(u)[j],
    ensures
        read_groups(s, i, acc) == Ok::<(nat, nat), DecodeError>(
            (acc + u * group_weight(i), i + varint_groups(u).len()),
        ),
    decreases u,
{
    let g = varint_groups(u);
    assert(s[i as int] == g[0]);
    if u >= 128 {
        let rest = varint_groups(u / 128);
        assert(g == seq![(u % 128 + 128) as u8] + rest);
        assert(s[i as int] == (u % 128 + 128) as u8);
        if i == 4 {
            reveal_with_fuel(group_weight, 2);
            assert(false);
        }
        let k = (5 - i) as nat;
        assert(group_weight(k) == 128 * group_weight((k - 1) as nat));
        assert(u / 128 < group_weight((4 - i) as nat)) by (nonlinear_arith)
            requires
                u < 128 * group_weight((4 - i) as nat),
        ;
        assert forall|j: int| 0 <= j < rest.len() implies s[(i + 1) + j] == #[trigger] rest[j] by {
            assert(g[j + 1] == rest[j]);
        }
        lemma_read_groups(s, i + 1, acc + (u % 128) * group_weight(i), u / 128);
        lemma_split_group(u, group_weight(i));
    }
}

/// Decoding the encoding of `n`, followed by anything, gives back `n` and the
/// length of the encoding.
pub proof fn lemma_varint_round_trip(n: i32, rest: Seq<u8>)
    ensures
        spec_varint_decode(spec_varint_encode(n) + rest) == Ok::<(i32, nat), DecodeError>(
            (n, spec_varint_encode(n).len()),
        ),
{
    let u = bit_pattern(n);
    let s = spec_varint_encode(n) + rest;
    lemma_group_weights();
    lemma_groups_len(u);
    lemma_read_groups(s, 0, 0, u);
    assert(from_bit_pattern(u) == n);
}

/// Every VarInt takes between one and five bytes.
pub proof fn lemma_varint_size_bound(n: i32)
    ensures
        1 <= spec_varint_encode(n).len() <= 5,
{
    lemma_groups_len(bit_pattern(n));
}

/// The signed integer whose pattern is the low 32 bits of `v`.
fn from_pattern(v: u64) -> (r: i32)
    ensures
        r == from_bit_pattern(v as nat),
{
    let p = v % PATTERNS;
    if p < 0x8000_0000 {
        p as i32
    } else {
        (p as i64 - PATTERNS as i64) as i32
    }
}

impl VarInt {
    /// The unsigned 32-bit pattern of this integer.
    fn pattern(&self) -> (r: u32)
        ensures
            r as nat == bit_pattern(self.0),
    {
        if self.0 >= 0 {
            self.0 as u32
        } else {
            (self.0 as i64 + PATTERNS as i64) as u32
        }
    }

    /// Returns the size of the VarInt when encoded.
    pub fn size(&self) -> (r: usize)
        ensures
            r == spec_varint_encode(self.0).len(),
            1 <= r <= 5,
    {
        let u = self.pattern();
        proof {
            lemma_groups_len(u as nat);
        }
        if u < 0x80 {
            1
        } else if u < 0x4000 {
            2
        } else if u < 0x20_0000 {
            3
        } else if u < 0x1000_0000 {
            4
        } else {
            5
        }
    }
}

impl Encode for VarInt {
    open spec fn spec_encodable(v: i32) -> bool {
        true
    }

    open spec fn spec_encode(v: i32) -> Seq<u8> {
        spec_varint_encode(v)
    }

    fn encode(&self, out: &mut Vec<u8>) {
        let mut value: u32 = self.pattern();
        loop
            invariant
                old(out)@ + spec_varint_encode(self.0) == out@ + varint_groups(value as nat),
            decreases value,
        {
            if value < 128 {
                let ghost before = out@;
                out.push(value as u8);
                proof {
                    assert(varint_groups(value as nat) == seq![value as u8]);
                    assert(before.push(value as u8) == before + seq![value as u8]);
                    assert(out@ == old(out)@ + spec_varint_encode(self.0));
                    assert(<VarInt as Encode>::spec_encode(self@) == spec_varint_encode(self.0));
                }
                return;
            }
            let byte = (value % 128) as u8 + 128;
            proof {
                let g = varint_groups(value as nat);
                assert(g == seq![byte] + varint_groups((value / 128) as nat));
                assert(out@.push(byte) + varint_groups((value / 128) as nat) == out@ + g);
            }
            out.push(byte);
            value = value / 128;
        }
    }
}

impl Decode for VarInt {
    open spec fn spec_decode(s: Seq<u8>) -> Result<(i32, nat), DecodeError> {
        spec_varint_decode(s)
    }

    fn decode(input: &[u8]) -> (r: Result<(VarInt, usize), DecodeError>) {
        let mut value: u64 = 0;
        let mut weight: u64 = 1;
        let mut i: usize = 0;
        proof {
            lemma_group_weights();
        }
        while i < 5
            invariant
                i <= 5,
                weight as nat == group_weight(i as nat),
                value < weight,
                group_weight(5) == 34359738368,
                group_weight(4) == 268435456,
                read_groups(input@, 0, 0) == read_groups(input@, i as nat, value as nat),
            decreases 5 - i,
        {
            if i >= input.len() {
                return Err(DecodeError::Io(IoError::UnexpectedEof));
            }
            let b = input[i];
            proof {
                lemma_group_weight_monotone(i as nat, 4);
            }
            if b < 128 {
                assert(value + (b as u64) * weight < 128 * weight) by (nonlinear_arith)
                    requires
                        value < weight,
                        b < 128,
                ;
                let v = value + (b as u64) * weight;
                return Ok((VarInt(from_pattern(v)), i + 1));
            }
            let digit = (b - 128) as u64;
            assert(value + digit * weight < 128 * weight) by (nonlinear_arith)
                requires
                    value < weight,
                    digit < 128,
            ;
            value = value + digit * weight;
            weight = weight * 128;
            i = i + 1;
        }
        Err(DecodeError::VarIntTooBig)
    }
}

proof fn lemma_group_weight_monotone(i: nat, j: nat)
    requires
        i <= j,
    ensures
        group_weight(i) <= group_weight(j),
    decreases j - i,
{
    if i < j {
        lemma_group_weight_monotone(i, (j - 1) as nat);
        lemma_group_weight_positive((j - 1) as nat);
    }
}

} // verus!
