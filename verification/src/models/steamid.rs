//! The stable identity of a player.

use vstd::prelude::*;
use vstd::string::*;

verus! {

/// The account number of the first individual account of the public
/// universe: every 32-bit account id is an offset from it.
pub const STEAM_ID64_BASE: u64 = 0x0110_0001_0000_0000;

/// A player's stable identity: the 64-bit account number.
///
/// Two identities are equal exactly when their numbers are equal, whichever
/// textual form they were read from.
#[derive(Clone, Copy, Debug, PartialEq, Eq, Hash, Structural)]
pub struct SteamID(pub u64);

/// Whether `c` is one of the decimal digits `0` to `9`.
pub open spec fn is_digit(c: char) -> bool {
    '0' <= c <= '9'
}

/// The number that the decimal digit `c` stands for.
pub open spec fn digit_value(c: char) -> nat {
    (c as nat - '0' as nat) as nat
}

/// Whether every character of `s` is a decimal digit.
pub open spec fn all_digits(s: Seq<char>) -> bool {
    forall|i: int| 0 <= i < s.len() ==> is_digit(#[trigger] s[i])
}

/// The number written by the decimal digits `s`, most significant first.
pub open spec fn decimal_value(s: Seq<char>) -> nat
    decreases s.len(),
{
    if s.len() == 0 {
        0
    } else {
        decimal_value(s.drop_last()) * 10 + digit_value(s.last())
    }
}

/// The number that `s` writes, where `s` is a non-empty run of decimal
/// digits whose value is at most `limit`.
pub open spec fn parse_decimal(s: Seq<char>, limit: nat) -> Option<nat> {
    if s.len() >= 1 && all_digits(s) && decimal_value(s) <= limit {
        Some(decimal_value(s))
    } else {
        None
    }
}

/// The opening of the 32-bit textual form, up to the account id.
pub open spec fn steam_id32_prefix() -> Seq<char> {
    seq!['[', 'U', ':', '1', ':']
}

/// The identity written by the 32-bit form `[U:1:<account id>]`, where the
/// account id is a non-empty run of decimal digits that fits in 32 bits.
pub open spec fn parse_steam_id32(s: Seq<char>) -> Option<SteamID> {
    if s.len() >= 6 && s.subrange(0, 5) == steam_id32_prefix() && s.last() == ']' {
        match parse_decimal(s.subrange(5, s.len() - 1), u32::MAX as nat) {
            Some(account) => Some(SteamID((STEAM_ID64_BASE + account) as u64)),
            None => None,
        }
    } else {
        None
    }
}

/// The identity written by the 64-bit form: a non-empty run of decimal
/// digits that fits in 64 bits.
pub open spec fn parse_u64_string(s: Seq<char>) -> Option<SteamID> {
    match parse_decimal(s, u64::MAX as nat) {
        Some(n) => Some(SteamID(n as u64)),
        None => None,
    }
}

/// A longer run of digits never writes a smaller number than its beginning.
proof fn lemma_decimal_value_prefix(s: Seq<char>, k: int)
    requires
        0 <= k <= s.len(),
    ensures
        decimal_value(s.take(k)) <= decimal_value(s),
    decreases s.len() - k,
{
    if k < s.len() {
        let t = s.take(k + 1);
        assert(t.drop_last() =~= s.take(k));
        lemma_decimal_value_prefix(s, k + 1);
    } else {
        assert(s.take(k) =~= s);
    }
}

/// Reads the decimal number written by the characters `from..to` of the
/// ASCII text `s`.
fn read_decimal(s: &str, from: usize, to: usize, limit: u64) -> (r: Option<u64>)
    requires
        is_ascii(s),
        from <= to <= s@.len(),
    ensures
        match r {
            Some(n) => parse_decimal(s@.subrange(from as int, to as int), limit as nat) == Some(
                n as nat,
            ),
            None => parse_decimal(s@.subrange(from as int, to as int), limit as nat) is None,
        },
{
    let bytes = s.as_bytes();
    let ghost digits = s@.subrange(from as int, to as int);
    proof {
        is_ascii_spec_bytes(s);
    }
    if from == to {
        return None;
    }
    let mut acc: u64 = 0;
    let mut i: usize = from;
    while i < to
        invariant
            from <= i <= to <= s@.len(),
            is_ascii(s),
            bytes@ == s.spec_bytes(),
            bytes@.len() == s@.len(),
            digits == s@.subrange(from as int, to as int),
            all_digits(digits.take(i - from)),
            acc as nat == decimal_value(digits.take(i - from)),
            acc <= limit,
        decreases to - i,
    {
        let b = bytes[i];
        let ghost c = s@[i as int];
        let ghost next = digits.take(i - from + 1);
        proof {
            is_ascii_spec_bytes(s);
            assert(c == digits[i - from]);
            assert(next.drop_last() =~= digits.take(i - from));
            assert(next.last() == c);
            assert(c as u8 == b);
        }
        if b < 48 || b > 57 {
            assert(!is_digit(c));
            return None;
        }
        assert(is_digit(c));
        let d: u64 = (b - 48) as u64;
        assert(digit_value(c) == d as nat);
        proof {
            lemma_decimal_value_prefix(digits, i - from + 1);
        }
        if d > limit || acc > (limit - d) / 10 {
            assert(decimal_value(next) > limit);
            return None;
        }
        acc = acc * 10 + d;
        assert forall|j: int| 0 <= j < next.len() implies is_digit(#[trigger] next[j]) by {
            if j < i - from {
                assert(next[j] == digits.take(i - from)[j]);
            }
        }
        i += 1;
    }
    assert(digits.take(to - from) =~= digits);
    Some(acc)
}

impl SteamID {
    /// The identity with the account number `steamid64`.
    pub fn from_u64(steamid64: u64) -> (r: SteamID)
        ensures
            r == SteamID(steamid64),
    {
        SteamID(steamid64)
    }

    /// The account number.
    pub fn to_u64(&self) -> (r: u64)
        ensures
            r == self.0,
    {
        self.0
    }

    /// Reads an identity from its 64-bit textual form, a decimal number.
    pub fn from_u64_string(s: &str) -> (r: Option<SteamID>)
        ensures
            r == parse_u64_string(s@),
    {
        if !s.is_ascii() {
            proof {
                let i = choose|i: int| 0 <= i < s@.len() && !('\0' <= #[trigger] s@[i] <= '\u{7f}');
                assert(!is_digit(s@[i]));
            }
            return None;
        }
        let n = s.as_bytes().len();
        proof {
            is_ascii_spec_bytes(s);
            assert(s@.subrange(0, n as int) =~= s@);
        }
        match read_decimal(s, 0, n, u64::MAX) {
            Some(n) => Some(SteamID(n)),
            None => None,
        }
    }

    /// Reads an identity from its 32-bit textual form, `[U:1:<account id>]`.
    pub fn from_steam_id32(steamid32: &str) -> (r: Option<SteamID>)
        ensures
            r == parse_steam_id32(steamid32@),
    {
        let s = steamid32;
        if !s.is_ascii() {
            proof {
                let i = choose|i: int| 0 <= i < s@.len() && !('\0' <= #[trigger] s@[i] <= '\u{7f}');
                if s@.len() >= 6 {
                    if i < 5 {
                        assert(s@.subrange(0, 5)[i] == s@[i]);
                        assert(s@.subrange(0, 5) != steam_id32_prefix());
                    } else if i < s@.len() - 1 {
                        let digits = s@.subrange(5, s@.len() - 1);
                        assert(digits[i - 5] == s@[i]);
                        assert(!is_digit(digits[i - 5]));
                    }
                }
            }
            return None;
        }
        let bytes = s.as_bytes();
        proof {
            is_ascii_spec_bytes(s);
        }
        let n = bytes.len();
        if n < 6 {
            return None;
        }
        if bytes[0] != 91 || bytes[1] != 85 || bytes[2] != 58 || bytes[3] != 49 || bytes[4] != 58
            || bytes[n - 1] != 93 {
            proof {
                let p = s@.subrange(0, 5);
                assert(p[0] == s@[0] && p[1] == s@[1] && p[2] == s@[2] && p[3] == s@[3] && p[4]
                    == s@[4]);
            }
            return None;
        }
        proof {
            assert(s@.subrange(0, 5) =~= steam_id32_prefix());
        }
        match read_decimal(s, 5, n - 1, 0xffff_ffff) {
            Some(account) => Some(SteamID(STEAM_ID64_BASE + account)),
            None => None,
        }
    }
}

impl Default for SteamID {
    /// The identity with account number zero, which no player has.
    fn default() -> (r: SteamID)
        ensures
            r == SteamID(0),
    {
        SteamID(0)
    }
}

} // verus!
