//! The legacy Server List Ping, answered with a single kick packet.
//!
//! Pre-1.4 clients send `FE`; 1.4 to 1.6 clients send `FE 01`. Neither is a
//! modern frame: the probe must look at the first bytes before any VarInt is read.
use vstd::prelude::*;
use vstd::string::{StrSliceExecFns, StringExecFns};

use crate::codec::Encode;
use crate::data::{decimal, latest_supported_version, push_decimal, spec_latest_version, version_text, PROTOCOL_VERSION};
use crate::number::be_bytes;

verus! {

/// The byte that opens a legacy ping, and the kick packet that answers it.
pub const LEGACY_PING: u8 = 0xFE;

/// The id of the kick packet.
pub const KICK: u8 = 0xFF;

/// The most code units that the kick packet's `u16` count can state.
pub const MAX_KICK_UNITS: u16 = 0xFFFF;

/// The UTF-16 code units of one character.
pub open spec fn utf16_of_char(c: char) -> Seq<u16> {
    let v = c as u32;
    if v < 0x10000 {
        seq![v as u16]
    } else {
        seq![(0xD800 + (v - 0x10000) / 0x400) as u16, (0xDC00 + (v - 0x10000) % 0x400) as u16]
    }
}

/// The UTF-16 code units of a string.
pub open spec fn utf16_units(s: Seq<char>) -> Seq<u16>
    decreases s.len(),
{
    if s.len() == 0 {
        seq![]
    } else {
        utf16_units(s.drop_last()) + utf16_of_char(s.last())
    }
}

/// Code units written big-endian, two bytes each.
pub open spec fn be16_bytes(units: Seq<u16>) -> Seq<u8>
    decreases units.len(),
{
    if units.len() == 0 {
        seq![]
    } else {
        be16_bytes(units.drop_last()) + seq![
            (units.last() / 256) as u8,
            (units.last() % 256) as u8,
        ]
    }
}

/// The reply text of a 1.4 to 1.6 client:
/// `§1 ⟂ protocol ⟂ latest version ⟂ MOTD ⟂ online ⟂ max`, `⟂` being U+0000.
pub open spec fn legacy_v2_text(motd: Seq<char>, online: u32, max_players: u32) -> Seq<char> {
    seq!['\u{a7}', '1', '\0'] + decimal(PROTOCOL_VERSION as nat) + seq!['\0'] + version_text(
        spec_latest_version(),
    ) + seq!['\0'] + motd + seq!['\0'] + decimal(online as nat) + seq!['\0'] + decimal(
        max_players as nat,
    )
}

/// The reply text of a pre-1.4 client: `MOTD§online§max`.
pub open spec fn legacy_v1_text(motd: Seq<char>, online: u32, max_players: u32) -> Seq<char> {
    motd + seq!['\u{a7}'] + decimal(online as nat) + seq!['\u{a7}'] + decimal(max_players as nat)
}

/// The reply text for either dialect.
pub open spec fn legacy_text(v2: bool, motd: Seq<char>, online: u32, max_players: u32) -> Seq<char> {
    if v2 {
        legacy_v2_text(motd, online, max_players)
    } else {
        legacy_v1_text(motd, online, max_players)
    }
}

/// The kick packet carrying `text`: `FF ‖ u16(code-unit count) ‖ UTF-16BE(text)`.
pub open spec fn kick_packet(text: Seq<char>) -> Seq<u8> {
    seq![KICK] + be_bytes(utf16_units(text).len(), 2) + be16_bytes(utf16_units(text))
}

/// What the first bytes of a socket say: `Some(v2)` for a legacy ping, `v2`
/// telling the 1.4 to 1.6 dialect (`FE 01`) from the older one; `None` for a
/// modern client.
pub open spec fn spec_probe(peeked: Seq<u8>) -> Option<bool> {
    if peeked.len() >= 1 && peeked[0] == LEGACY_PING {
        Some(peeked.len() >= 2 && peeked[1] == 0x01)
    } else {
        None
    }
}

/// Looks at the first (at most two) bytes that a client sent.
pub fn probe(peeked: &[u8]) -> (r: Option<bool>)
    ensures
        r == spec_probe(peeked@),
{
    if peeked.len() >= 1 && peeked[0] == LEGACY_PING {
        Some(peeked.len() >= 2 && peeked[1] == 0x01)
    } else {
        None
    }
}

proof fn lemma_units_grow(s: Seq<char>, i: int)
    requires
        0 <= i <= s.len(),
    ensures
        utf16_units(s.take(i)).len() <= utf16_units(s).len(),
    decreases s.len() - i,
{
    if i < s.len() {
        lemma_units_grow(s, i + 1);
        assert(s.take(i + 1).drop_last() == s.take(i));
    } else {
        assert(s.take(i) == s);
    }
}

/// Appends the UTF-16BE bytes of `s`, returning the number of code units;
/// `None` where there are more than a kick packet can count.
fn push_utf16_be(out: &mut Vec<u8>, s: &str) -> (r: Option<u16>)
    ensures
        r matches Some(n) ==> n == utf16_units(s@).len() && final(out)@ == old(out)@
            + be16_bytes(utf16_units(s@)),
        r is None ==> utf16_units(s@).len() > MAX_KICK_UNITS,
{
    let n = s.unicode_len();
    let mut count: usize = 0;
    let mut i: usize = 0;
    assert(s@.take(0) == Seq::<char>::empty());
    while i < n
        invariant
            n == s@.len(),
            i <= n,
            count == utf16_units(s@.take(i as int)).len(),
            count <= MAX_KICK_UNITS,
            out@ == old(out)@ + be16_bytes(utf16_units(s@.take(i as int))),
        decreases n - i,
    {
        let c = s.get_char(i);
        let v = c as u32;
        let ghost before = out@;
        let ghost prefix = s@.take(i as int);
        proof {
            assert(s@.take(i + 1).drop_last() == prefix);
            assert(s@.take(i + 1).last() == c);
        }
        if v < 0x10000 {
            let u = v as u16;
            out.push((u / 256) as u8);
            out.push((u % 256) as u8);
            count = count + 1;
            proof {
                let units = utf16_units(s@.take(i + 1));
                assert(units == utf16_units(prefix).push(u));
                assert(units.drop_last() == utf16_units(prefix));
                let tail = seq![(u / 256) as u8, (u % 256) as u8];
                assert(be16_bytes(units) == be16_bytes(utf16_units(prefix)) + tail);
                assert(out@ == before + tail);
                assert(old(out)@ + be16_bytes(utf16_units(prefix)) + tail == old(out)@ + (
                be16_bytes(utf16_units(prefix)) + tail));
            }
        } else {
            let hi = (0xD800 + (v - 0x10000) / 0x400) as u16;
            let lo = (0xDC00 + (v - 0x10000) % 0x400) as u16;
            out.push((hi / 256) as u8);
            out.push((hi % 256) as u8);
            proof {
                let units = utf16_units(s@.take(i + 1));
                assert(units == utf16_units(prefix).push(hi).push(lo));
                assert(units.drop_last() == utf16_units(prefix).push(hi));
                assert(units.drop_last().drop_last() == utf16_units(prefix));
            }
            out.push((lo / 256) as u8);
            out.push((lo % 256) as u8);
            count = count + 2;
            proof {
                let units = utf16_units(s@.take(i + 1));
                let t1 = seq![(hi / 256) as u8, (hi % 256) as u8];
                let t2 = seq![(lo / 256) as u8, (lo % 256) as u8];
                assert(be16_bytes(units.drop_last()) == be16_bytes(utf16_units(prefix)) + t1);
                assert(be16_bytes(units) == be16_bytes(units.drop_last()) + t2);
                assert(out@ == before + t1 + t2);
                assert(old(out)@ + be16_bytes(utf16_units(prefix)) + t1 + t2 == old(out)@ + (
                be16_bytes(utf16_units(prefix)) + t1 + t2));
            }
        }
        i = i + 1;
        if count > MAX_KICK_UNITS as usize {
            proof {
                lemma_units_grow(s@, i as int);
            }
            return None;
        }
    }
    assert(s@.take(n as int) == s@);
    Some(count as u16)
}

/// The kick packet that answers a legacy ping, or `None` where its text has
/// more code units than the packet can count.
pub fn handle(v2: bool, motd: &str, online: u32, max_players: u32) -> (r: Option<Vec<u8>>)
    ensures
        r matches Some(bytes) ==> bytes@ == kick_packet(legacy_text(v2, motd@, online, max_players)),
        r is None ==> utf16_units(legacy_text(v2, motd@, online, max_players)).len() > MAX_KICK_UNITS,
{
    proof {
        reveal_strlit("\u{a7}1\0");
        reveal_strlit("\0");
        reveal_strlit("\u{a7}");
    }
    let text = if v2 {
        // 1.4-1.6
        let mut t = String::from_str("\u{a7}1\0");
        push_decimal(&mut t, PROTOCOL_VERSION as u32);
        t.append("\0");
        let version = latest_supported_version().name();
        t.append(version.as_str());
        t.append("\0");
        t.append(motd);
        t.append("\0");
        push_decimal(&mut t, online);
        t.append("\0");
        push_decimal(&mut t, max_players);
        t
    } else {
        // pre-1.4
        let mut t = String::from_str(motd);
        t.append("\u{a7}");
        push_decimal(&mut t, online);
        t.append("\u{a7}");
        push_decimal(&mut t, max_players);
        t
    };
    assert(text@ == legacy_text(v2, motd@, online, max_players));
    let mut payload: Vec<u8> = Vec::new();
    let count = match push_utf16_be(&mut payload, text.as_str()) {
        Some(n) => n,
        None => return None,
    };
    let mut buf: Vec<u8> = Vec::new();
    buf.push(KICK);
    count.encode(&mut buf);
    buf.append(&mut payload);
    Some(buf)
}

} // verus!
