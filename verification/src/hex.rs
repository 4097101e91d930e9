//! Bytes written as text in base 16.

use vstd::prelude::*;
use crate::names::chars_of;

verus! {

/// Why a text is no sequence of bytes in base 16.
#[derive(Debug, Clone, Copy, PartialEq, Eq, Structural)]
pub enum HexError {
    /// The text has an odd number of characters.
    OddLength,
    /// Two characters are no byte in base 16.
    InvalidDigit,
}

/// The value of a digit of base 16, in either case.
pub open spec fn hex_digit(c: char) -> Option<int> {
    if '0' <= c <= '9' {
        Some(c as int - 48)
    } else if 'a' <= c <= 'f' {
        Some(c as int - 87)
    } else if 'A' <= c <= 'F' {
        Some(c as int - 55)
    } else {
        None
    }
}

/// The byte that two characters stand for in base 16: two digits, or a plus
/// sign and one digit.
pub open spec fn byte_of(a: char, b: char) -> Option<u8> {
    match (hex_digit(a), hex_digit(b)) {
        (Some(high), Some(low)) => Some((16 * high + low) as u8),
        (None, Some(low)) => if a == '+' {
            Some(low as u8)
        } else {
            None
        },
        _ => None,
    }
}

/// The bytes that the first `count` pairs of characters stand for, where
/// each of them stands for a byte.
pub open spec fn pairs_decoded(text: Seq<char>, count: nat) -> Option<Seq<u8>>
    decreases count,
{
    if count == 0 {
        Some(Seq::empty())
    } else {
        match (
            pairs_decoded(text, (count - 1) as nat),
            byte_of(text[2 * (count - 1)], text[2 * (count - 1) + 1]),
        ) {
            (Some(front), Some(byte)) => Some(front.push(byte)),
            _ => None,
        }
    }
}

/// The bytes that a text stands for in base 16, two characters to the
/// byte.
pub open spec fn hex_decoded(text: Seq<char>) -> Result<Seq<u8>, HexError> {
    if text.len() % 2 != 0 {
        Err(HexError::OddLength)
    } else {
        match pairs_decoded(text, text.len() / 2) {
            Some(bytes) => Ok(bytes),
            None => Err(HexError::InvalidDigit),
        }
    }
}

proof fn lemma_pairs_break(text: Seq<char>, at: nat, count: nat)
    requires
        at <= count,
        pairs_decoded(text, at) is None,
    ensures
        pairs_decoded(text, count) is None,
    decreases count,
{
    if at < count {
        lemma_pairs_break(text, at, (count - 1) as nat);
    }
}

/// Calls `u8::from_str_radix` with radix 16 on the text of two characters.
/// It takes digits of base 16 in either case, and a plus sign in front of
/// them; anything else is an error.
#[verifier::external_body]
fn parse_pair(a: char, b: char) -> (r: Option<u8>)
    ensures
        r == byte_of(a, b),
{
    let mut pair = String::new();
    pair.push(a);
    pair.push(b);
    u8::from_str_radix(&pair, 16).ok()
}

/// Reads bytes written in base 16, two characters to the byte.
pub fn decode_hex(s: &str) -> (r: Result<Vec<u8>, HexError>)
    ensures
        match hex_decoded(s@) {
            Ok(bytes) => r matches Ok(v) && v@ == bytes,
            Err(e) => r matches Err(f) && f == e,
        },
{
    let chars = chars_of(s);
    if chars.len() % 2 != 0 {
        return Err(HexError::OddLength);
    }
    let count: usize = chars.len() / 2;
    let mut bytes: Vec<u8> = Vec::new();
    let mut i: usize = 0;
    while i < count
        invariant
            i <= count,
            count == chars.len() / 2,
            chars.len() % 2 == 0,
            chars@ == s@,
            pairs_decoded(chars@, i as nat) == Some(bytes@),
        decreases count - i,
    {
        match parse_pair(chars[2 * i], chars[2 * i + 1]) {
            Some(byte) => {
                bytes.push(byte);
            },
            None => {
                proof {
                    assert(pairs_decoded(chars@, (i + 1) as nat) is None);
                    lemma_pairs_break(chars@, (i + 1) as nat, count as nat);
                }
                return Err(HexError::InvalidDigit);
            },
        }
        i = i + 1;
    }
    Ok(bytes)
}

} // verus!
