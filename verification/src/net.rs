//! Hardware (MAC) and IPv4 address representations, and the textual form of
//! hardware addresses (lowercase colon-separated hex pairs).

use vstd::prelude::*;
use vstd::string::StringExecFns;
use vstd::string::StrSliceExecFns;

verus! {

/// A 48-bit Ethernet hardware address.
#[derive(Clone, Copy, PartialEq, Eq, Structural, Debug)]
pub struct Mac {
    pub b0: u8,
    pub b1: u8,
    pub b2: u8,
    pub b3: u8,
    pub b4: u8,
    pub b5: u8,
}

impl Mac {
    /// The six octets of the address, in transmission order.
    pub open spec fn bytes(self) -> Seq<u8> {
        seq![self.b0, self.b1, self.b2, self.b3, self.b4, self.b5]
    }

    pub fn new(b0: u8, b1: u8, b2: u8, b3: u8, b4: u8, b5: u8) -> (m: Mac)
        ensures
            m == (Mac { b0, b1, b2, b3, b4, b5 }),
    {
        Mac { b0, b1, b2, b3, b4, b5 }
    }

    /// The all-ones broadcast address `ff:ff:ff:ff:ff:ff`.
    pub fn broadcast() -> (m: Mac)
        ensures
            m == broadcast_mac(),
    {
        Mac { b0: 0xff, b1: 0xff, b2: 0xff, b3: 0xff, b4: 0xff, b5: 0xff }
    }

    /// The all-zero placeholder used as the ARP target of a discovery probe.
    pub fn zero() -> (m: Mac)
        ensures
            m == zero_mac(),
    {
        Mac { b0: 0, b1: 0, b2: 0, b3: 0, b4: 0, b5: 0 }
    }
}

/// The all-ones broadcast hardware address.
pub open spec fn broadcast_mac() -> Mac {
    Mac { b0: 0xff, b1: 0xff, b2: 0xff, b3: 0xff, b4: 0xff, b5: 0xff }
}

/// The all-zero placeholder hardware address.
pub open spec fn zero_mac() -> Mac {
    Mac { b0: 0, b1: 0, b2: 0, b3: 0, b4: 0, b5: 0 }
}

/// The lowercase hex digit for a value below sixteen.
pub open spec fn hex_char(n: u8) -> char {
    if n == 0 {
        '0'
    } else if n == 1 {
        '1'
    } else if n == 2 {
        '2'
    } else if n == 3 {
        '3'
    } else if n == 4 {
        '4'
    } else if n == 5 {
        '5'
    } else if n == 6 {
        '6'
    } else if n == 7 {
        '7'
    } else if n == 8 {
        '8'
    } else if n == 9 {
        '9'
    } else if n == 10 {
        'a'
    } else if n == 11 {
        'b'
    } else if n == 12 {
        'c'
    } else if n == 13 {
        'd'
    } else if n == 14 {
        'e'
    } else {
        'f'
    }
}

/// The value of a hex digit, accepting both cases; `None` for any other character.
pub open spec fn hex_val(c: char) -> Option<u8> {
    if c == '0' {
        Some(0u8)
    } else if c == '1' {
        Some(1u8)
    } else if c == '2' {
        Some(2u8)
    } else if c == '3' {
        Some(3u8)
    } else if c == '4' {
        Some(4u8)
    } else if c == '5' {
        Some(5u8)
    } else if c == '6' {
        Some(6u8)
    } else if c == '7' {
        Some(7u8)
    } else if c == '8' {
        Some(8u8)
    } else if c == '9' {
        Some(9u8)
    } else if c == 'a' || c == 'A' {
        Some(10u8)
    } else if c == 'b' || c == 'B' {
        Some(11u8)
    } else if c == 'c' || c == 'C' {
        Some(12u8)
    } else if c == 'd' || c == 'D' {
        Some(13u8)
    } else if c == 'e' || c == 'E' {
        Some(14u8)
    } else if c == 'f' || c == 'F' {
        Some(15u8)
    } else {
        None
    }
}

/// Two lowercase hex digits for one octet.
pub open spec fn byte_text(b: u8) -> Seq<char> {
    seq![hex_char(b >> 4), hex_char(b & 0xf)]
}

/// The canonical text of a hardware address: six hex pairs joined by colons.
pub open spec fn mac_text_spec(m: Mac) -> Seq<char> {
    byte_text(m.b0) + seq![':'] + byte_text(m.b1) + seq![':'] + byte_text(m.b2) + seq![':']
        + byte_text(m.b3) + seq![':'] + byte_text(m.b4) + seq![':'] + byte_text(m.b5)
}

fn hex_digit_str(n: u8) -> (r: &'static str)
    requires
        n < 16,
    ensures
        r@ == seq![hex_char(n)],
{
    if n == 0 {
        proof {
            reveal_strlit("0");
            assert("0"@ =~= seq![hex_char(n)]);
        }
        "0"
    } else if n == 1 {
        proof {
            reveal_strlit("1");
            assert("1"@ =~= seq![hex_char(n)]);
        }
        "1"
    } else if n == 2 {
        proof {
            reveal_strlit("2");
            assert("2"@ =~= seq![hex_char(n)]);
        }
        "2"
    } else if n == 3 {
        proof {
            reveal_strlit("3");
            assert("3"@ =~= seq![hex_char(n)]);
        }
        "3"
    } else if n == 4 {
        proof {
            reveal_strlit("4");
            assert("4"@ =~= seq![hex_char(n)]);
        }
        "4"
    } else if n == 5 {
        proof {
            reveal_strlit("5");
            assert("5"@ =~= seq![hex_char(n)]);
        }
        "5"
    } else if n == 6 {
        proof {
            reveal_strlit("6");
            assert("6"@ =~= seq![hex_char(n)]);
        }
        "6"
    } else if n == 7 {
        proof {
            reveal_strlit("7");
            assert("7"@ =~= seq![hex_char(n)]);
        }
        "7"
    } else if n == 8 {
        proof {
            reveal_strlit("8");
            assert("8"@ =~= seq![hex_char(n)]);
        }
        "8"
    } else if n == 9 {
        proof {
            reveal_strlit("9");
            assert("9"@ =~= seq![hex_char(n)]);
        }
        "9"
    } else if n == 10 {
        proof {
            reveal_strlit("a");
            assert("a"@ =~= seq![hex_char(n)]);
        }
        "a"
    } else if n == 11 {
        proof {
            reveal_strlit("b");
            assert("b"@ =~= seq![hex_char(n)]);
        }
        "b"
    } else if n == 12 {
        proof {
            reveal_strlit("c");
            assert("c"@ =~= seq![hex_char(n)]);
        }
        "c"
    } else if n == 13 {
        proof {
            reveal_strlit("d");
            assert("d"@ =~= seq![hex_char(n)]);
        }
        "d"
    } else if n == 14 {
        proof {
            reveal_strlit("e");
            assert("e"@ =~= seq![hex_char(n)]);
        }
        "e"
    } else {
        proof {
            reveal_strlit("f");
            assert("f"@ =~= seq![hex_char(n)]);
        }
        "f"
    }
}

fn push_byte_hex(s: &mut String, b: u8)
    ensures
        final(s)@ == old(s)@ + byte_text(b),
{
    proof {
        assert(b >> 4 < 16 && b & 0xf < 16) by (bit_vector);
    }
    s.append(hex_digit_str(b >> 4));
    s.append(hex_digit_str(b & 0xf));
    proof {
        assert(final(s)@ =~= old(s)@ + byte_text(b));
    }
}

fn push_colon(s: &mut String)
    ensures
        final(s)@ == old(s)@ + seq![':'],
{
    proof {
        reveal_strlit(":");
        assert(":"@ =~= seq![':']);
    }
    s.append(":");
}

/// Format a hardware address as its canonical lowercase colon-separated text.
pub fn mac_text(m: &Mac) -> (r: String)
    ensures
        r@ == mac_text_spec(*m),
{
    let mut s = String::new();
    push_byte_hex(&mut s, m.b0);
    push_colon(&mut s);
    push_byte_hex(&mut s, m.b1);
    push_colon(&mut s);
    push_byte_hex(&mut s, m.b2);
    push_colon(&mut s);
    push_byte_hex(&mut s, m.b3);
    push_colon(&mut s);
    push_byte_hex(&mut s, m.b4);
    push_colon(&mut s);
    push_byte_hex(&mut s, m.b5);
    proof {
        assert(s@ =~= mac_text_spec(*m));
    }
    s
}

/// One octet read from two hex digits, or `None` if either is not a hex digit.
pub open spec fn pair_val(hi: char, lo: char) -> Option<u8> {
    match (hex_val(hi), hex_val(lo)) {
        (Some(h), Some(l)) => Some(((h * 16 + l)) as u8),
        _ => None,
    }
}

/// The hardware address denoted by seventeen characters of colon-separated
/// hex pairs, or `None` if the text is not of that shape.
pub open spec fn spec_parse_mac(s: Seq<char>) -> Option<Mac> {
    if s.len() != 17 {
        None
    } else if s[2] != ':' || s[5] != ':' || s[8] != ':' || s[11] != ':' || s[14] != ':' {
        None
    } else {
        match (
            pair_val(s[0], s[1]),
            pair_val(s[3], s[4]),
            pair_val(s[6], s[7]),
            pair_val(s[9], s[10]),
            pair_val(s[12], s[13]),
            pair_val(s[15], s[16]),
        ) {
            (Some(b0), Some(b1), Some(b2), Some(b3), Some(b4), Some(b5)) => Some(
                Mac { b0, b1, b2, b3, b4, b5 },
            ),
            _ => None,
        }
    }
}

fn hex_char_val(c: char) -> (r: Option<u8>)
    ensures
        r == hex_val(c),
{
    if c == '0' {
        Some(0u8)
    } else if c == '1' {
        Some(1u8)
    } else if c == '2' {
        Some(2u8)
    } else if c == '3' {
        Some(3u8)
    } else if c == '4' {
        Some(4u8)
    } else if c == '5' {
        Some(5u8)
    } else if c == '6' {
        Some(6u8)
    } else if c == '7' {
        Some(7u8)
    } else if c == '8' {
        Some(8u8)
    } else if c == '9' {
        Some(9u8)
    } else if c == 'a' || c == 'A' {
        Some(10u8)
    } else if c == 'b' || c == 'B' {
        Some(11u8)
    } else if c == 'c' || c == 'C' {
        Some(12u8)
    } else if c == 'd' || c == 'D' {
        Some(13u8)
    } else if c == 'e' || c == 'E' {
        Some(14u8)
    } else if c == 'f' || c == 'F' {
        Some(15u8)
    } else {
        None
    }
}

fn parse_pair(s: &str, i: usize) -> (r: Option<u8>)
    requires
        i <= 15,
        i + 2 <= s@.len(),
    ensures
        r == pair_val(s@[i as int], s@[i as int + 1]),
{
    let hi = match hex_char_val(s.get_char(i)) {
        Some(h) => h,
        None => {
            return None;
        },
    };
    let lo = match hex_char_val(s.get_char(i + 1)) {
        Some(l) => l,
        None => {
            return None;
        },
    };
    Some(hi * 16 + lo)
}

/// Parse the canonical colon-separated hex text of a hardware address.
/// Accepts either case of hex digit; anything else yields `None`.
pub fn parse_mac(s: &str) -> (r: Option<Mac>)
    ensures
        r == spec_parse_mac(s@),
{
    if s.unicode_len() != 17 {
        return None;
    }
    if s.get_char(2) != ':' || s.get_char(5) != ':' || s.get_char(8) != ':' || s.get_char(11)
        != ':' || s.get_char(14) != ':' {
        return None;
    }
    let b0 = match parse_pair(s, 0) {
        Some(b) => b,
        None => {
            return None;
        },
    };
    let b1 = match parse_pair(s, 3) {
        Some(b) => b,
        None => {
            return None;
        },
    };
    let b2 = match parse_pair(s, 6) {
        Some(b) => b,
        None => {
            return None;
        },
    };
    let b3 = match parse_pair(s, 9) {
        Some(b) => b,
        None => {
            return None;
        },
    };
    let b4 = match parse_pair(s, 12) {
        Some(b) => b,
        None => {
            return None;
        },
    };
    let b5 = match parse_pair(s, 15) {
        Some(b) => b,
        None => {
            return None;
        },
    };
    Some(Mac { b0, b1, b2, b3, b4, b5 })
}

/// The canonical text of a hardware address always parses back to the same
/// address: formatting and parsing round-trip.
pub proof fn lemma_mac_text_round_trip(m: Mac)
    ensures
        spec_parse_mac(mac_text_spec(m)) == Some(m),
{
    let s = mac_text_spec(m);
    assert(s =~= seq![
        hex_char(m.b0 >> 4),
        hex_char(m.b0 & 0xf),
        ':',
        hex_char(m.b1 >> 4),
        hex_char(m.b1 & 0xf),
        ':',
        hex_char(m.b2 >> 4),
        hex_char(m.b2 & 0xf),
        ':',
        hex_char(m.b3 >> 4),
        hex_char(m.b3 & 0xf),
        ':',
        hex_char(m.b4 >> 4),
        hex_char(m.b4 & 0xf),
        ':',
        hex_char(m.b5 >> 4),
        hex_char(m.b5 & 0xf),
    ]);
    assert forall|n: u8| n < 16 implies #[trigger] hex_val(hex_char(n)) == Some(n) by {
        assert(hex_char(n) != ':');
    }
    assert forall|b: u8| #[trigger] pair_val(hex_char(b >> 4), hex_char(b & 0xf)) == Some(b) by {
        assert(b >> 4 < 16 && b & 0xf < 16 && (b >> 4) * 16 + (b & 0xf) == b) by (bit_vector);
        assert(hex_val(hex_char(b >> 4)) == Some(b >> 4));
        assert(hex_val(hex_char(b & 0xf)) == Some(b & 0xf));
    }
    assert forall|n: u8| n < 16 implies #[trigger] hex_char(n) != ':' by {}
    assert(s[2] == ':' && s[5] == ':' && s[8] == ':' && s[11] == ':' && s[14] == ':');
}

} // verus!
