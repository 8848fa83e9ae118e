//! Versions and the decimal text of numbers.
use vstd::prelude::*;
use vstd::string::StringExecFns;

verus! {

/// The version of the Minecraft protocol that the server speaks.
///
/// See: <https://minecraft.wiki/w/Protocol_version>
pub const PROTOCOL_VERSION: u16 = 774;

/// A Minecraft version number `1.minor.patch`.
#[derive(Clone, Copy, Debug, PartialEq, Eq, Structural)]
pub struct Version(pub u8, pub u8);

/// The minor number of the latest version of Minecraft that the server supports.
pub const LATEST_MINOR: u8 = 21;

/// The patch number of the latest version of Minecraft that the server supports.
pub const LATEST_PATCH: u8 = 11;

/// The latest version of Minecraft that the server supports.
pub open spec fn spec_latest_version() -> Version {
    Version(LATEST_MINOR, LATEST_PATCH)
}

/// The latest version of Minecraft that the server supports.
pub fn latest_supported_version() -> (r: Version)
    ensures
        r == spec_latest_version(),
{
    Version(LATEST_MINOR, LATEST_PATCH)
}

/// The character of a decimal digit.
pub open spec fn digit_char(d: nat) -> char {
    if d == 0 {
        '0'
    } else if d == 1 {
        '1'
    } else if d == 2 {
        '2'
    } else if d == 3 {
        '3'
    } else if d == 4 {
        '4'
    } else if d == 5 {
        '5'
    } else if d == 6 {
        '6'
    } else if d == 7 {
        '7'
    } else if d == 8 {
        '8'
    } else {
        '9'
    }
}

/// The decimal digits of `n`, without leading zeros.
pub open spec fn decimal(n: nat) -> Seq<char>
    decreases n,
{
    if n < 10 {
        seq![digit_char(n)]
    } else {
        decimal(n / 10).push(digit_char(n % 10))
    }
}

/// The text of a version: `1.minor.patch`.
pub open spec fn version_text(v: Version) -> Seq<char> {
    seq!['1', '.'] + decimal(v.0 as nat) + seq!['.'] + decimal(v.1 as nat)
}

fn digit_str(d: u32) -> (r: &'static str)
    requires
        d < 10,
    ensures
        r@ == seq![digit_char(d as nat)],
{
    proof {
        reveal_strlit("0");
        reveal_strlit("1");
        reveal_strlit("2");
        reveal_strlit("3");
        reveal_strlit("4");
        reveal_strlit("5");
        reveal_strlit("6");
        reveal_strlit("7");
        reveal_strlit("8");
        reveal_strlit("9");
    }
    if d == 0 {
        "0"
    } else if d == 1 {
        "1"
    } else if d == 2 {
        "2"
    } else if d == 3 {
        "3"
    } else if d == 4 {
        "4"
    } else if d == 5 {
        "5"
    } else if d == 6 {
        "6"
    } else if d == 7 {
        "7"
    } else if d == 8 {
        "8"
    } else {
        "9"
    }
}

/// Appends the decimal digits of `n` to `s`.
pub fn push_decimal(s: &mut String, n: u32)
    ensures
        final(s)@ == old(s)@ + decimal(n as nat),
    decreases n,
{
    if n >= 10 {
        push_decimal(s, n / 10);
    }
    s.append(digit_str(n % 10));
    proof {
        if n >= 10 {
            assert(old(s)@ + decimal((n / 10) as nat) + seq![digit_char((n % 10) as nat)] == old(s)@
                + decimal(n as nat));
        } else {
            assert(n % 10 == n);
        }
    }
}

impl Version {
    /// The text of this version, such as `1.21.11`.
    pub fn name(&self) -> (r: String)
        ensures
            r@ == version_text(*self),
    {
        proof {
            reveal_strlit("1.");
            reveal_strlit(".");
        }
        let mut s = String::from_str("1.");
        push_decimal(&mut s, self.0 as u32);
        s.append(".");
        push_decimal(&mut s, self.1 as u32);
        proof {
            assert(s@ == version_text(*self));
        }
        s
    }
}

} // verus!
