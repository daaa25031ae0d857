//! Hexadecimal text: the grammar the parsers of addresses, byte strings and
//! hexadecimal integers accept, and the values they give.

use vstd::prelude::*;
use ethers_core::types::{Address, Bytes, I256, U128, U256};
use crate::uint::Uint256;

verus! {

/// Whether a character is a hexadecimal digit, in either case.
pub open spec fn is_hex_digit(c: char) -> bool {
    ('0' <= c <= '9') || ('a' <= c <= 'f') || ('A' <= c <= 'F')
}

/// The value of a hexadecimal digit.
pub open spec fn hex_digit_value(c: char) -> nat {
    if '0' <= c <= '9' {
        (c as nat - '0' as nat) as nat
    } else if 'a' <= c <= 'f' {
        (c as nat - 'a' as nat + 10) as nat
    } else {
        (c as nat - 'A' as nat + 10) as nat
    }
}

/// Whether every character of `s` is a hexadecimal digit.
pub open spec fn all_hex(s: Seq<char>) -> bool {
    forall|i: int| 0 <= i < s.len() ==> is_hex_digit(#[trigger] s[i])
}

/// The bytes written by `s`, two digits each, high digit first.
pub open spec fn hex_pairs(s: Seq<char>) -> Seq<u8>
    decreases s.len(),
{
    if s.len() < 2 {
        seq![]
    } else {
        seq![(hex_digit_value(s[0]) * 16 + hex_digit_value(s[1])) as u8] + hex_pairs(
            s.subrange(2, s.len() as int),
        )
    }
}

/// The number written by the hexadecimal digits `s` (zero when empty).
pub open spec fn hex_value(s: Seq<char>) -> nat
    decreases s.len(),
{
    if s.len() == 0 {
        0
    } else {
        hex_value(s.drop_last()) * 16 + hex_digit_value(s.last())
    }
}

/// `s` without one leading `0x`.
pub open spec fn strip_0x(s: Seq<char>) -> Seq<char> {
    if s.len() >= 2 && s[0] == '0' && s[1] == 'x' {
        s.subrange(2, s.len() as int)
    } else {
        s
    }
}

/// `s` without one leading `0x` or `0X`.
pub open spec fn strip_0x_any_case(s: Seq<char>) -> Seq<char> {
    if s.len() >= 2 && s[0] == '0' && (s[1] == 'x' || s[1] == 'X') {
        s.subrange(2, s.len() as int)
    } else {
        s
    }
}

/// Whether a character is one that the address parser skips.
pub open spec fn is_skipped_space(c: char) -> bool {
    c == ' ' || c == '\r' || c == '\n' || c == '\t'
}

/// `s` without the characters that the address parser skips.
pub open spec fn without_skipped_space(s: Seq<char>) -> Seq<char> {
    s.filter(|c: char| !is_skipped_space(c))
}

/// The address that the text `s` writes, if it writes one: after one
/// leading `0x`, only hexadecimal digits and skipped spaces, with exactly
/// forty digits.
pub open spec fn address_of_text(s: Seq<char>) -> Option<Seq<u8>> {
    let body = strip_0x(s);
    let digits = without_skipped_space(body);
    if (forall|i: int| 0 <= i < body.len() ==> is_hex_digit(#[trigger] body[i]) || is_skipped_space(body[i]))
        && digits.len() == 40 {
        Some(hex_pairs(digits))
    } else {
        None
    }
}

/// The bytes that `hex::decode` gives for `s`: an even number of
/// hexadecimal digits, no prefix.
pub open spec fn hex_decoded(s: Seq<char>) -> Option<Seq<u8>> {
    if s.len() % 2 == 0 && all_hex(s) {
        Some(hex_pairs(s))
    } else {
        None
    }
}

/// The bytes that a `Bytes` parses from `s`: an even number of characters,
/// which after one leading `0x` or `0X` are all hexadecimal digits.
pub open spec fn prefixed_hex_decoded(s: Seq<char>) -> Option<Seq<u8>> {
    if s.len() % 2 == 0 && all_hex(strip_0x_any_case(s)) {
        Some(hex_pairs(strip_0x_any_case(s)))
    } else {
        None
    }
}

/// The number that a hexadecimal unsigned integer of `digits_max` digits
/// parses from `s`: after one leading `0x`, at most `digits_max` hexadecimal
/// digits (none is zero).
pub open spec fn hex_uint_of_text(s: Seq<char>, digits_max: nat) -> Option<nat> {
    let body = strip_0x(s);
    if body.len() <= digits_max && all_hex(body) {
        Some(hex_value(body))
    } else {
        None
    }
}

/// Parses an address: `Address::from_str`.
#[verifier::external_body]
pub(crate) fn parse_address(s: &str) -> (r: Option<[u8; 20]>)
    ensures
        match r {
            Some(a) => address_of_text(s@) == Some(a@),
            None => address_of_text(s@) is None,
        },
{
    match s.parse::<Address>() {
        Ok(a) => Some(a.0),
        Err(_) => None,
    }
}

/// Parses a byte string written in hexadecimal: `Bytes::from_str`.
#[verifier::external_body]
pub(crate) fn parse_prefixed_hex_bytes(s: &str) -> (r: Option<Vec<u8>>)
    ensures
        match r {
            Some(v) => prefixed_hex_decoded(s@) == Some(v@),
            None => prefixed_hex_decoded(s@) is None,
        },
{
    match s.parse::<Bytes>() {
        Ok(b) => Some(b.to_vec()),
        Err(_) => None,
    }
}

/// Decodes a byte string written in hexadecimal: `hex::decode`.
#[verifier::external_body]
pub(crate) fn decode_hex(s: &str) -> (r: Option<Vec<u8>>)
    ensures
        match r {
            Some(v) => hex_decoded(s@) == Some(v@),
            None => hex_decoded(s@) is None,
        },
{
    match hex::decode(s) {
        Ok(v) => Some(v),
        Err(_) => None,
    }
}

/// Parses a hexadecimal 256-bit integer: `U256::from_str`.
#[verifier::external_body]
pub(crate) fn parse_hex_u256(s: &str) -> (r: Option<Uint256>)
    ensures
        match r {
            Some(v) => hex_uint_of_text(s@, 64) == Some(v.value()),
            None => hex_uint_of_text(s@, 64) is None,
        },
{
    match s.parse::<U256>() {
        Ok(v) => Some(Uint256 { w0: v.0[0], w1: v.0[1], w2: v.0[2], w3: v.0[3] }),
        Err(_) => None,
    }
}

/// Parses a hexadecimal 128-bit integer: `U128::from_str`.
#[verifier::external_body]
pub(crate) fn parse_hex_u128(s: &str) -> (r: Option<Uint256>)
    ensures
        match r {
            Some(v) => hex_uint_of_text(s@, 32) == Some(v.value()),
            None => hex_uint_of_text(s@, 32) is None,
        },
{
    match s.parse::<U128>() {
        Ok(v) => Some(Uint256 { w0: v.0[0], w1: v.0[1], w2: 0, w3: 0 }),
        Err(_) => None,
    }
}

/// The two's complement word of the signed 256-bit integer that `I256`
/// parses from the text `s`, if it parses one.
pub uninterp spec fn i256_word_of_text(s: Seq<char>) -> Option<nat>;

/// Parses a signed 256-bit integer, written with an optional sign and
/// hexadecimal digits, to its two's complement word: `I256::from_str`.
/// What it accepts is named, not stated: each sixteen-digit group is read
/// by `u64::from_str_radix`, which admits a sign of its own.
#[verifier::external_body]
pub(crate) fn parse_hex_i256(s: &str) -> (r: Option<Uint256>)
    ensures
        match r {
            Some(v) => i256_word_of_text(s@) == Some(v.value()),
            None => i256_word_of_text(s@) is None,
        },
{
    match s.parse::<I256>() {
        Ok(v) => {
            let w = v.into_raw();
            Some(Uint256 { w0: w.0[0], w1: w.0[1], w2: w.0[2], w3: w.0[3] })
        },
        Err(_) => None,
    }
}

} // verus!
