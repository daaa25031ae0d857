//! Calldata: the ABI parameter types of a function, the tokens that the
//! command-line arguments are parsed into, and their encoding.

use vstd::prelude::*;
use vstd::pervasive::arbitrary;
use ethers_core::abi::{parse_abi_str, HumanReadableParser, ParamType, Token};
use ethers_core::types::{Address, U256};
use crate::uint::{
    decimal_value, is_decimal_digit, lemma_value_words, pow256, u256_from_dec_str, Uint256,
};
use crate::hex_text::{
    address_of_text, hex_uint_of_text, i256_word_of_text, parse_address, parse_hex_i256,
    parse_hex_u128, parse_prefixed_hex_bytes, prefixed_hex_decoded,
};
use crate::text::{chars_of, push_char};
use crate::array_sizes::{array_sizes_fit, array_sizes_fit_exec};
use vstd::slice::slice_subrange;
use crate::hex_text::{decode_hex, hex_decoded, parse_hex_u256};

verus! {

/// An ABI parameter type.
#[derive(Debug)]
pub enum ParamKind {
    Address,
    Bytes,
    Int(usize),
    Uint(usize),
    Bool,
    String,
    Array(Box<ParamKind>),
    FixedBytes(usize),
    FixedArray(Box<ParamKind>, usize),
    Tuple(Vec<ParamKind>),
}

/// An ABI value. Integers are 256-bit words; a negative integer is its
/// two's complement.
#[derive(Debug)]
pub enum AbiToken {
    Address([u8; 20]),
    Bytes(Vec<u8>),
    Int(Uint256),
    Uint(Uint256),
    Bool(bool),
    String(String),
    Array(Vec<AbiToken>),
    FixedBytes(Vec<u8>),
    FixedArray(Vec<AbiToken>),
    Tuple(Vec<AbiToken>),
}

/// Mathematical model of an [`AbiToken`].
pub enum AbiTokenView {
    Address(Seq<u8>),
    Bytes(Seq<u8>),
    Int(nat),
    Uint(nat),
    Bool(bool),
    String(Seq<char>),
    Array(Seq<AbiTokenView>),
    FixedBytes(Seq<u8>),
    FixedArray(Seq<AbiTokenView>),
    Tuple(Seq<AbiTokenView>),
}

/// The model of a token.
pub open spec fn token_view(t: AbiToken) -> AbiTokenView
    decreases t,
{
    match t {
        AbiToken::Address(a) => AbiTokenView::Address(a@),
        AbiToken::Bytes(b) => AbiTokenView::Bytes(b@),
        AbiToken::Int(w) => AbiTokenView::Int(w.value()),
        AbiToken::Uint(w) => AbiTokenView::Uint(w.value()),
        AbiToken::Bool(b) => AbiTokenView::Bool(b),
        AbiToken::String(s) => AbiTokenView::String(s@),
        AbiToken::Array(v) => AbiTokenView::Array(tokens_view(v@)),
        AbiToken::FixedBytes(b) => AbiTokenView::FixedBytes(b@),
        AbiToken::FixedArray(v) => AbiTokenView::FixedArray(tokens_view(v@)),
        AbiToken::Tuple(v) => AbiTokenView::Tuple(tokens_view(v@)),
    }
}

/// The models of a sequence of tokens.
pub open spec fn tokens_view(s: Seq<AbiToken>) -> Seq<AbiTokenView>
    decreases s,
{
    if s.len() == 0 {
        seq![]
    } else {
        tokens_view(s.drop_last()).push(token_view(s.last()))
    }
}

/// The ABI encoding of a sequence of tokens.
pub uninterp spec fn abi_encoding(tokens: Seq<AbiTokenView>) -> Seq<u8>;

/// The `ethers` token of an [`AbiToken`].
#[verifier::external_type_specification]
#[verifier::external_body]
pub struct ExToken(Token);

/// The `ethers` word of a [`Uint256`], word for word.
#[verifier::external_body]
fn ethers_word(w: &Uint256) -> U256 {
    U256([w.w0, w.w1, w.w2, w.w3])
}

/// The [`Uint256`] of an `ethers` word, word for word.
#[verifier::external_body]
fn word_of_ethers(u: &U256) -> Uint256 {
    Uint256 { w0: u.0[0], w1: u.0[1], w2: u.0[2], w3: u.0[3] }
}

/// The `ethers` tokens of a sequence of [`AbiToken`]s, one for one.
#[verifier::external_body]
fn to_ethabi_tokens(v: &[AbiToken]) -> Vec<Token> {
    v.iter().map(to_ethabi_token).collect()
}

/// The `ethers` token of an [`AbiToken`], field for field.
#[verifier::external_body]
fn to_ethabi_token(t: &AbiToken) -> Token {
    match t {
        AbiToken::Address(a) => Token::Address(Address::from(*a)),
        AbiToken::Bytes(b) => Token::Bytes(b.clone()),
        AbiToken::Int(w) => Token::Int(ethers_word(w)),
        AbiToken::Uint(w) => Token::Uint(ethers_word(w)),
        AbiToken::Bool(b) => Token::Bool(*b),
        AbiToken::String(s) => Token::String(s.clone()),
        AbiToken::Array(v) => Token::Array(to_ethabi_tokens(v)),
        AbiToken::FixedBytes(b) => Token::FixedBytes(b.clone()),
        AbiToken::FixedArray(v) => Token::FixedArray(to_ethabi_tokens(v)),
        AbiToken::Tuple(v) => Token::Tuple(to_ethabi_tokens(v)),
    }
}

/// The [`AbiToken`]s of a sequence of `ethers` tokens, one for one.
#[verifier::external_body]
fn abi_tokens_of(v: &[Token]) -> Vec<AbiToken> {
    v.iter().map(abi_token_of).collect()
}

/// The [`AbiToken`] of an `ethers` token, variant for variant.
#[verifier::external_body]
fn abi_token_of(t: &Token) -> AbiToken {
    match t {
        Token::Address(a) => AbiToken::Address(a.0),
        Token::Bytes(b) => AbiToken::Bytes(b.clone()),
        Token::Int(u) => AbiToken::Int(word_of_ethers(u)),
        Token::Uint(u) => AbiToken::Uint(word_of_ethers(u)),
        Token::Bool(b) => AbiToken::Bool(*b),
        Token::String(s) => AbiToken::String(s.clone()),
        Token::Array(v) => AbiToken::Array(abi_tokens_of(v)),
        Token::FixedBytes(b) => AbiToken::FixedBytes(b.clone()),
        Token::FixedArray(v) => AbiToken::FixedArray(abi_tokens_of(v)),
        Token::Tuple(v) => AbiToken::Tuple(abi_tokens_of(v)),
    }
}

/// The ABI encoding of `tokens`: `ethers_core::abi::encode`.
#[verifier::external_body]
fn encode_tokens(tokens: &Vec<AbiToken>) -> (r: Vec<u8>)
    ensures
        r@ == abi_encoding(tokens_view(tokens@)),
{
    let converted = to_ethabi_tokens(tokens);
    ethers_core::abi::encode(&converted)
}

// ------------------------------------------------------------------------
// Integers written in decimal, as the integer types of Rust parse them.

/// The sign and digits of a decimal integer: one leading `+`, or (for a
/// signed type) one leading `-`, then the digits.
pub open spec fn int_sign_and_digits(s: Seq<char>, signed: bool) -> (bool, Seq<char>) {
    if s.len() > 0 && s[0] == '+' {
        (false, s.subrange(1, s.len() as int))
    } else if signed && s.len() > 0 && s[0] == '-' {
        (true, s.subrange(1, s.len() as int))
    } else {
        (false, s)
    }
}

/// Whether every character of `s` is a decimal digit.
pub open spec fn all_decimal(s: Seq<char>) -> bool {
    forall|i: int| 0 <= i < s.len() ==> is_decimal_digit(#[trigger] s[i])
}

/// The integer that a Rust integer type with the range `lo..=hi` parses
/// from `s`: an optional sign, then at least one decimal digit, and nothing
/// else.
pub open spec fn std_int_of_text(s: Seq<char>, signed: bool, lo: int, hi: int) -> Option<int> {
    let (neg, digits) = int_sign_and_digits(s, signed);
    let v: int = if neg {
        -decimal_value(digits)
    } else {
        decimal_value(digits) as int
    };
    if digits.len() > 0 && all_decimal(digits) && lo <= v <= hi {
        Some(v)
    } else {
        None
    }
}

proof fn lemma_decimal_prefix_le(s: Seq<char>, j: int)
    requires
        0 <= j <= s.len(),
    ensures
        decimal_value(s.subrange(0, j)) <= decimal_value(s),
    decreases s.len() - j,
{
    if j < s.len() {
        lemma_decimal_prefix_le(s, j + 1);
        assert(s.subrange(0, j + 1).drop_last() == s.subrange(0, j));
    } else {
        assert(s.subrange(0, j) == s);
    }
}

/// Parses a decimal integer of the range `lo..=hi` as `str::parse` does for
/// the Rust integer type of that range.
fn parse_std_int(s: &str, signed: bool, lo: i128, hi: i128) -> (r: Option<i128>)
    requires
        lo <= 0 <= hi,
        signed ==> lo < 0,
        !signed ==> lo == 0,
    ensures
        match r {
            Some(v) => std_int_of_text(s@, signed, lo as int, hi as int) == Some(v as int),
            None => std_int_of_text(s@, signed, lo as int, hi as int) is None,
        },
{
    let cs = chars_of(s);
    let n = cs.len();
    let mut neg = false;
    let mut start: usize = 0;
    if n > 0 && cs[0] == '+' {
        start = 1;
    } else if signed && n > 0 && cs[0] == '-' {
        neg = true;
        start = 1;
    }
    let ghost digits = cs@.subrange(start as int, n as int);
    assert(int_sign_and_digits(s@, signed) == (neg, digits));
    if start == n {
        return None;
    }
    let bound: u128 = if neg {
        let m: i128 = lo + 1;
        assert(m <= 0);
        let p: i128 = -m;
        let b: u128 = p as u128;
        assert(b == -(lo as int) - 1);
        b + 1
    } else {
        let b: u128 = hi as u128;
        assert(b == hi as int);
        b
    };
    assert(bound as int == if neg { -(lo as int) } else { hi as int });
    let mut v: u128 = 0;
    let mut i = start;
    while i < n
        invariant
            start <= i <= n == cs@.len(),
            cs@ == s@,
            digits == cs@.subrange(start as int, n as int),
            bound <= 0x8000_0000_0000_0000_0000_0000_0000_0000u128,
            bound as int == if neg { -(lo as int) } else { hi as int },
            int_sign_and_digits(s@, signed) == (neg, digits),
            lo <= 0 <= hi,
            v <= bound,
            forall|k: int| start <= k < i ==> is_decimal_digit(#[trigger] cs@[k]),
            v == decimal_value(cs@.subrange(start as int, i as int)),
        decreases n - i,
    {
        let c = cs[i];
        if !('0' <= c && c <= '9') {
            assert(!is_decimal_digit(digits[i - start]));
            return None;
        }
        let d: u128 = (c as u32 - '0' as u32) as u128;
        let ghost prefix = cs@.subrange(start as int, i + 1);
        assert(prefix.drop_last() == cs@.subrange(start as int, i as int));
        assert(decimal_value(prefix) == v * 10 + d);
        if v > bound / 10 {
            proof {
                assert(decimal_value(prefix) > bound);
                if all_decimal(digits) {
                    assert(prefix == digits.subrange(0, i + 1 - start));
                    lemma_decimal_prefix_le(digits, i + 1 - start);
                    assert(decimal_value(digits) > bound);
                }
            }
            return None;
        }
        v = v * 10 + d;
        i = i + 1;
        if v > bound {
            proof {
                if all_decimal(digits) {
                    assert(prefix == digits.subrange(0, i - start));
                    lemma_decimal_prefix_le(digits, i - start);
                    assert(decimal_value(digits) > bound);
                }
            }
            return None;
        }
    }
    assert(cs@.subrange(start as int, i as int) == digits);
    assert(all_decimal(digits));
    if neg {
        if v == 0 {
            Some(0)
        } else {
            Some(-((v - 1) as i128) - 1)
        }
    } else {
        Some(v as i128)
    }
}


// ------------------------------------------------------------------------
// Integers as 256-bit words.

/// The 256-bit word of an integer: a negative one in two's complement.
pub open spec fn twos_complement(v: int) -> nat {
    if v < 0 {
        (pow256() + v) as nat
    } else {
        v as nat
    }
}

proof fn lemma_split_u128(u: u128)
    ensures
        u == (u as u64) as int + 0x1_0000_0000_0000_0000 * ((u >> 64u128) as u64) as int,
{
    assert(u == (u as u64) as int + 0x1_0000_0000_0000_0000 * ((u >> 64u128) as u64) as int)
        by (bit_vector);
}

/// The word of a signed integer, as `ethers` makes the token of a Rust
/// signed integer.
fn int_word(x: i128) -> (r: Uint256)
    ensures
        r.value() == twos_complement(x as int),
{
    if x >= 0 {
        let u: u128 = x as u128;
        proof { lemma_split_u128(u); }
        let r = Uint256 { w0: u as u64, w1: (u >> 64u128) as u64, w2: 0, w3: 0 };
        proof { lemma_value_words(r); }
        assert(r.value() == u);
        r
    } else {
        let p: i128 = -(x + 1);
        assert(p >= 0);
        let q: u128 = p as u128;
        assert(q as int == -(x as int) - 1);
        let m: u128 = u128::MAX - q;
        assert(m as int == 0x1_0000_0000_0000_0000_0000_0000_0000_0000 + x as int);
        assert(m as int == 0x1_0000_0000_0000_0000_0000_0000_0000_0000 + x);
        proof { lemma_split_u128(m); }
        let r = Uint256 { w0: m as u64, w1: (m >> 64u128) as u64, w2: u64::MAX, w3: u64::MAX };
        proof { lemma_value_words(r); }
        assert(r.w0 + 0x1_0000_0000_0000_0000int * r.w1 == m);
        assert(r.w2 == 0xffff_ffff_ffff_ffff && r.w3 == 0xffff_ffff_ffff_ffff);
        assert(r.value() == m + 0x1_0000_0000_0000_0000_0000_0000_0000_0000int * 0xffff_ffff_ffff_ffffint
            + 0x1_0000_0000_0000_0000_0000_0000_0000_0000_0000_0000_0000_0000int * 0xffff_ffff_ffff_ffffint);
        assert(0x1_0000_0000_0000_0000_0000_0000_0000_0000int * 0xffff_ffff_ffff_ffffint
            + 0x1_0000_0000_0000_0000_0000_0000_0000_0000_0000_0000_0000_0000int * 0xffff_ffff_ffff_ffffint
            + 0x1_0000_0000_0000_0000_0000_0000_0000_0000int
            == 0x1_0000_0000_0000_0000_0000_0000_0000_0000_0000_0000_0000_0000_0000_0000_0000_0000int);
        assert(pow256() == 0x1_0000_0000_0000_0000_0000_0000_0000_0000_0000_0000_0000_0000_0000_0000_0000_0000int);
        assert(r.value() == pow256() + x);
        r
    }
}

/// The word of an unsigned integer.
fn uint_word(x: u128) -> (r: Uint256)
    ensures
        r.value() == x,
{
    proof { lemma_split_u128(x); }
    let r = Uint256 { w0: x as u64, w1: (x >> 64u128) as u64, w2: 0, w3: 0 };
    proof { lemma_value_words(r); }
    r
}

// ------------------------------------------------------------------------
// Parameters parsed from the command line.

/// Why a command-line argument could not be parsed as a parameter.
#[derive(Clone, Copy, Debug, PartialEq, Eq, Structural)]
pub enum ParamParseError {
    InvalidAddress,
    InvalidBytes,
    InvalidInt,
    InvalidUint,
    InvalidBool,
}

/// The range of the Rust signed integer type of `size` bits (8 to 128).
pub open spec fn int_range(size: usize) -> (int, int) {
    if size == 8 {
        (-0x80, 0x7f)
    } else if size == 16 {
        (-0x8000, 0x7fff)
    } else if size == 32 {
        (-0x8000_0000, 0x7fff_ffff)
    } else if size == 64 {
        (-0x8000_0000_0000_0000, 0x7fff_ffff_ffff_ffff)
    } else {
        (-0x8000_0000_0000_0000_0000_0000_0000_0000, 0x7fff_ffff_ffff_ffff_ffff_ffff_ffff_ffff)
    }
}

/// The largest value of the Rust unsigned integer type of `size` bits
/// (8 to 64).
pub open spec fn uint_max(size: usize) -> int {
    if size == 8 {
        0xff
    } else if size == 16 {
        0xffff
    } else if size == 32 {
        0xffff_ffff
    } else {
        0xffff_ffff_ffff_ffff
    }
}

/// Whether `size` is the width of an integer type that arguments are
/// parsed into.
pub open spec fn supported_size(size: usize) -> bool {
    size == 8 || size == 16 || size == 32 || size == 64 || size == 128 || size == 256
}

/// Whether arguments can be parsed for a parameter type: arrays and fixed
/// byte strings cannot, anywhere in it.
pub open spec fn supported_kind(k: ParamKind) -> bool
    decreases k,
{
    match k {
        ParamKind::Int(n) => supported_size(n),
        ParamKind::Uint(n) => supported_size(n),
        ParamKind::Array(_) => false,
        ParamKind::FixedBytes(_) => false,
        ParamKind::FixedArray(_, _) => false,
        ParamKind::Tuple(ks) => supported_kinds(ks@),
        _ => true,
    }
}

/// Whether arguments can be parsed for each of a sequence of types.
pub open spec fn supported_kinds(ks: Seq<ParamKind>) -> bool
    decreases ks,
{
    if ks.len() == 0 {
        true
    } else {
        supported_kinds(ks.drop_last()) && supported_kind(ks.last())
    }
}

/// The number that `U256::from_dec_str` parses from `s`.
pub open spec fn dec_u256_of_text(s: Seq<char>) -> Option<nat> {
    if all_decimal(s) && decimal_value(s) < pow256() {
        Some(decimal_value(s))
    } else {
        None
    }
}

/// The text `true`.
pub open spec fn true_text() -> Seq<char> {
    seq!['t', 'r', 'u', 'e']
}

/// The text `false`.
pub open spec fn false_text() -> Seq<char> {
    seq!['f', 'a', 'l', 's', 'e']
}

/// The token that the argument `raw` gives for a parameter of type `kind`:
/// an address, a hexadecimal byte string, a decimal integer of the type's
/// width (a hexadecimal one for `int256` and `uint128`), `true` or `false`,
/// any text, or, for a tuple, the same argument parsed for each member.
pub open spec fn param_token_spec(kind: ParamKind, raw: Seq<char>) -> Result<
    AbiTokenView,
    ParamParseError,
>
    decreases kind,
{
    match kind {
        ParamKind::Address => match address_of_text(raw) {
            Some(a) => Ok(AbiTokenView::Address(a)),
            None => Err(ParamParseError::InvalidAddress),
        },
        ParamKind::Bytes => match prefixed_hex_decoded(raw) {
            Some(b) => Ok(AbiTokenView::Bytes(b)),
            None => Err(ParamParseError::InvalidBytes),
        },
        ParamKind::Int(size) => {
            if size == 256 {
                match i256_word_of_text(raw) {
                    Some(w) => Ok(AbiTokenView::Int(w)),
                    None => Err(ParamParseError::InvalidInt),
                }
            } else {
                match std_int_of_text(raw, true, int_range(size).0, int_range(size).1) {
                    Some(v) => Ok(AbiTokenView::Int(twos_complement(v))),
                    None => Err(ParamParseError::InvalidInt),
                }
            }
        },
        ParamKind::Uint(size) => {
            let parsed = if size == 256 {
                dec_u256_of_text(raw)
            } else if size == 128 {
                hex_uint_of_text(raw, 32)
            } else {
                match std_int_of_text(raw, false, 0, uint_max(size)) {
                    Some(v) => Some(v as nat),
                    None => None,
                }
            };
            match parsed {
                Some(v) => Ok(AbiTokenView::Uint(v)),
                None => Err(ParamParseError::InvalidUint),
            }
        },
        ParamKind::Bool => {
            if raw == true_text() {
                Ok(AbiTokenView::Bool(true))
            } else if raw == false_text() {
                Ok(AbiTokenView::Bool(false))
            } else {
                Err(ParamParseError::InvalidBool)
            }
        },
        ParamKind::String => Ok(AbiTokenView::String(raw)),
        ParamKind::Tuple(ks) => match param_tokens_spec(ks@, raw) {
            Ok(ts) => Ok(AbiTokenView::Tuple(ts)),
            Err(e) => Err(e),
        },
        _ => arbitrary(),
    }
}

/// The tokens that the argument `raw` gives for each of a sequence of
/// types, or the error of the first that fails.
pub open spec fn param_tokens_spec(ks: Seq<ParamKind>, raw: Seq<char>) -> Result<
    Seq<AbiTokenView>,
    ParamParseError,
>
    decreases ks,
{
    if ks.len() == 0 {
        Ok(seq![])
    } else {
        match param_tokens_spec(ks.drop_last(), raw) {
            Err(e) => Err(e),
            Ok(ts) => match param_token_spec(ks.last(), raw) {
                Err(e) => Err(e),
                Ok(t) => Ok(ts.push(t)),
            },
        }
    }
}

/// Parses a command-line argument for a parameter of the given type.
pub fn parse_param_into_token(param_kind: &ParamKind, raw_param: &str) -> (r: Result<
    AbiToken,
    ParamParseError,
>)
    requires
        supported_kind(*param_kind),
    ensures
        match r {
            Ok(t) => param_token_spec(*param_kind, raw_param@) == Ok::<
                AbiTokenView,
                ParamParseError,
            >(token_view(t)),
            Err(e) => param_token_spec(*param_kind, raw_param@) == Err::<
                AbiTokenView,
                ParamParseError,
            >(e),
        },
    decreases param_kind,
{
    match param_kind {
        ParamKind::Address => match parse_address(raw_param) {
            Some(a) => Ok(AbiToken::Address(a)),
            None => Err(ParamParseError::InvalidAddress),
        },
        ParamKind::Bytes => match parse_prefixed_hex_bytes(raw_param) {
            Some(b) => Ok(AbiToken::Bytes(b)),
            None => Err(ParamParseError::InvalidBytes),
        },
        ParamKind::Int(size) => {
            let size = *size;
            if size == 256 {
                match parse_hex_i256(raw_param) {
                    Some(w) => Ok(AbiToken::Int(w)),
                    None => Err(ParamParseError::InvalidInt),
                }
            } else {
                let (lo, hi): (i128, i128) = if size == 8 {
                    (-0x80, 0x7f)
                } else if size == 16 {
                    (-0x8000, 0x7fff)
                } else if size == 32 {
                    (-0x8000_0000, 0x7fff_ffff)
                } else if size == 64 {
                    (-0x8000_0000_0000_0000, 0x7fff_ffff_ffff_ffff)
                } else {
                    (i128::MIN, i128::MAX)
                };
                match parse_std_int(raw_param, true, lo, hi) {
                    Some(v) => Ok(AbiToken::Int(int_word(v))),
                    None => Err(ParamParseError::InvalidInt),
                }
            }
        },
        ParamKind::Uint(size) => {
            let size = *size;
            let parsed = if size == 256 {
                u256_from_dec_str(raw_param)
            } else if size == 128 {
                parse_hex_u128(raw_param)
            } else {
                let hi: i128 = if size == 8 {
                    0xff
                } else if size == 16 {
                    0xffff
                } else if size == 32 {
                    0xffff_ffff
                } else {
                    0xffff_ffff_ffff_ffff
                };
                match parse_std_int(raw_param, false, 0, hi) {
                    Some(v) => Some(uint_word(v as u128)),
                    None => None,
                }
            };
            match parsed {
                Some(w) => Ok(AbiToken::Uint(w)),
                None => Err(ParamParseError::InvalidUint),
            }
        },
        ParamKind::Bool => {
            let raw = raw_param.to_owned();
            let true_word = "true".to_owned();
            let false_word = "false".to_owned();
            proof {
                reveal_strlit("true");
                reveal_strlit("false");
                assert("true"@ =~= true_text());
                assert("false"@ =~= false_text());
            }
            if raw == true_word {
                Ok(AbiToken::Bool(true))
            } else if raw == false_word {
                Ok(AbiToken::Bool(false))
            } else {
                Err(ParamParseError::InvalidBool)
            }
        },
        ParamKind::String => Ok(AbiToken::String(raw_param.to_owned())),
        ParamKind::Tuple(kinds) => {
            let mut tokens: Vec<AbiToken> = Vec::new();
            let mut i: usize = 0;
            while i < kinds.len()
                invariant
                    i <= kinds@.len(),
                    supported_kinds(kinds@),
                    *param_kind == ParamKind::Tuple(*kinds),
                    param_tokens_spec(kinds@.subrange(0, i as int), raw_param@) == Ok::<
                        Seq<AbiTokenView>,
                        ParamParseError,
                    >(tokens_view(tokens@)),
                decreases kinds@.len() - i,
            {
                assert(kinds@.subrange(0, i + 1).drop_last() == kinds@.subrange(0, i as int));
                assert(kinds@.subrange(0, i + 1).last() == kinds@[i as int]);
                proof {
                    lemma_supported_member(kinds@, i as int);
                    assert(*kinds == param_kind->Tuple_0);
                    assert(decreases_to!(*param_kind => param_kind->Tuple_0));
                    assert(decreases_to!(*kinds => kinds@));
                    assert(decreases_to!(kinds@ => kinds@[i as int]));
                }
                match parse_param_into_token(&kinds[i], raw_param) {
                    Ok(t) => {
                        let ghost before = tokens@;
                        tokens.push(t);
                        assert(tokens@.drop_last() == before);
                    },
                    Err(e) => {
                        proof {
                            lemma_tokens_error_extends(kinds@, raw_param@, i + 1);
                        }
                        return Err(e);
                    },
                }
                i = i + 1;
            }
            assert(kinds@.subrange(0, kinds@.len() as int) == kinds@);
            Ok(AbiToken::Tuple(tokens))
        },
        _ => {
            // Arrays and fixed byte strings are outside the supported kinds.
            proof {
                assert(false);
            }
            Err(ParamParseError::InvalidBytes)
        },
    }
}

proof fn lemma_tokens_error_extends(ks: Seq<ParamKind>, raw: Seq<char>, j: int)
    requires
        0 <= j <= ks.len(),
        param_tokens_spec(ks.subrange(0, j), raw) is Err,
    ensures
        param_tokens_spec(ks, raw) == param_tokens_spec(ks.subrange(0, j), raw),
    decreases ks.len() - j,
{
    if j < ks.len() {
        assert(ks.subrange(0, j + 1).drop_last() == ks.subrange(0, j));
        lemma_tokens_error_extends(ks, raw, j + 1);
    } else {
        assert(ks.subrange(0, j) == ks);
    }
}

proof fn lemma_supported_member(ks: Seq<ParamKind>, i: int)
    requires
        supported_kinds(ks),
        0 <= i < ks.len(),
    ensures
        supported_kind(ks[i]),
    decreases ks.len(),
{
    if i < ks.len() - 1 {
        lemma_supported_member(ks.drop_last(), i);
    }
}


// ------------------------------------------------------------------------
// Calls encoded from typed arguments.

/// Why a call could not be encoded.
#[derive(Clone, Copy, Debug, PartialEq, Eq, Structural)]
pub enum EncodeCallError {
    /// There are not as many arguments as types.
    ArgumentCountMismatch,
    /// An `address` argument is not an address.
    InvalidAddress,
    /// A `uint256` argument is not a decimal number below 2^256.
    InvalidUint256,
    /// A type is none of `address`, `uint256` and `string`.
    UnsupportedArgumentType,
    /// There are arguments but no types.
    TypesNotProvided,
}

/// The text `address`.
pub open spec fn address_text() -> Seq<char> {
    seq!['a', 'd', 'd', 'r', 'e', 's', 's']
}

/// The text `uint256`.
pub open spec fn uint256_text() -> Seq<char> {
    seq!['u', 'i', 'n', 't', '2', '5', '6']
}

/// The text `string`.
pub open spec fn string_text() -> Seq<char> {
    seq!['s', 't', 'r', 'i', 'n', 'g']
}

/// The token of one argument of a call, by its type: an address, a decimal
/// `uint256`, or a string.
pub open spec fn call_arg_spec(arg: Seq<char>, ty: Seq<char>) -> Result<AbiTokenView, EncodeCallError> {
    if ty == address_text() {
        match address_of_text(arg) {
            Some(a) => Ok(AbiTokenView::Address(a)),
            None => Err(EncodeCallError::InvalidAddress),
        }
    } else if ty == uint256_text() {
        match dec_u256_of_text(arg) {
            Some(v) => Ok(AbiTokenView::Uint(v)),
            None => Err(EncodeCallError::InvalidUint256),
        }
    } else if ty == string_text() {
        Ok(AbiTokenView::String(arg))
    } else {
        Err(EncodeCallError::UnsupportedArgumentType)
    }
}

/// The tokens of the first `n` arguments of a call, or the error of the
/// first that fails.
pub open spec fn call_args_spec(args: Seq<Seq<char>>, types: Seq<Seq<char>>, n: nat) -> Result<
    Seq<AbiTokenView>,
    EncodeCallError,
>
    decreases n,
{
    if n == 0 {
        Ok(seq![])
    } else {
        match call_args_spec(args, types, (n - 1) as nat) {
            Err(e) => Err(e),
            Ok(ts) => match call_arg_spec(args[n - 1], types[n - 1]) {
                Err(e) => Err(e),
                Ok(t) => Ok(ts.push(t)),
            },
        }
    }
}

/// The calldata of a call: the selector, else the bytecode, else nothing,
/// followed by the ABI encoding of the arguments parsed by their types.
pub open spec fn encode_call_spec(
    selector: Option<Seq<u8>>,
    bytecode: Option<Seq<u8>>,
    args: Option<Seq<Seq<char>>>,
    types: Option<Seq<Seq<char>>>,
) -> Result<Seq<u8>, EncodeCallError> {
    let prefix = match selector {
        Some(s) => s,
        None => match bytecode {
            Some(b) => b,
            None => seq![],
        },
    };
    match args {
        Some(a) => match types {
            Some(t) => {
                if a.len() != t.len() {
                    Err(EncodeCallError::ArgumentCountMismatch)
                } else {
                    match call_args_spec(a, t, a.len()) {
                        Ok(ts) => Ok(prefix + abi_encoding(ts)),
                        Err(e) => Err(e),
                    }
                }
            },
            None => Err(EncodeCallError::TypesNotProvided),
        },
        None => Ok(prefix + abi_encoding(seq![])),
    }
}

/// The bytes of an optional fixed-size selector.
pub open spec fn selector_view(s: Option<[u8; 4]>) -> Option<Seq<u8>> {
    match s {
        Some(a) => Some(a@),
        None => None,
    }
}

/// The bytes of an optional byte vector.
pub open spec fn bytes_view(b: Option<Vec<u8>>) -> Option<Seq<u8>> {
    match b {
        Some(v) => Some(v@),
        None => None,
    }
}

/// The texts of an optional vector of strings.
pub open spec fn strings_view(v: Option<Vec<String>>) -> Option<Seq<Seq<char>>> {
    match v {
        Some(x) => Some(x@.map_values(|s: String| s@)),
        None => None,
    }
}

fn append_bytes(data: &mut Vec<u8>, more: &[u8])
    ensures
        final(data)@ == old(data)@ + more@,
{
    let mut i: usize = 0;
    while i < more.len()
        invariant
            i <= more@.len(),
            data@ == old(data)@ + more@.subrange(0, i as int),
        decreases more@.len() - i,
    {
        data.push(more[i]);
        i = i + 1;
        assert(data@ == old(data)@ + more@.subrange(0, i as int));
    }
    assert(more@.subrange(0, more@.len() as int) == more@);
}

fn call_arg_token(arg: &String, arg_type: &String) -> (r: Result<AbiToken, EncodeCallError>)
    ensures
        match r {
            Ok(t) => call_arg_spec(arg@, arg_type@) == Ok::<AbiTokenView, EncodeCallError>(
                token_view(t),
            ),
            Err(e) => call_arg_spec(arg@, arg_type@) == Err::<AbiTokenView, EncodeCallError>(e),
        },
{
    proof {
        reveal_strlit("address");
        reveal_strlit("uint256");
        reveal_strlit("string");
        assert("address"@ =~= address_text());
        assert("uint256"@ =~= uint256_text());
        assert("string"@ =~= string_text());
    }
    if *arg_type == "address".to_owned() {
        match parse_address(arg.as_str()) {
            Some(address) => Ok(AbiToken::Address(address)),
            None => Err(EncodeCallError::InvalidAddress),
        }
    } else if *arg_type == "uint256".to_owned() {
        match u256_from_dec_str(arg.as_str()) {
            Some(value) => Ok(AbiToken::Uint(value)),
            None => Err(EncodeCallError::InvalidUint256),
        }
    } else if *arg_type == "string".to_owned() {
        Ok(AbiToken::String(arg.clone()))
    } else {
        Err(EncodeCallError::UnsupportedArgumentType)
    }
}

/// The calldata of a call: the selector if there is one, else the
/// bytecode if there is one, followed by the ABI encoding of the arguments,
/// each parsed by its type (`address`, `uint256` in decimal, or `string`).
pub fn encode_call(
    selector: Option<[u8; 4]>,
    bytecode: Option<Vec<u8>>,
    args: Option<Vec<String>>,
    types: Option<Vec<String>>,
) -> (r: Result<Vec<u8>, EncodeCallError>)
    ensures
        match r {
            Ok(data) => encode_call_spec(
                selector_view(selector),
                bytes_view(bytecode),
                strings_view(args),
                strings_view(types),
            ) == Ok::<Seq<u8>, EncodeCallError>(data@),
            Err(e) => encode_call_spec(
                selector_view(selector),
                bytes_view(bytecode),
                strings_view(args),
                strings_view(types),
            ) == Err::<Seq<u8>, EncodeCallError>(e),
        },
{
    let mut data: Vec<u8> = Vec::new();
    match selector {
        Some(s) => {
            append_bytes(&mut data, &s);
        },
        None => match &bytecode {
            Some(b) => {
                append_bytes(&mut data, b.as_slice());
            },
            None => {},
        },
    }
    let tokens: Vec<AbiToken> = match (args, types) {
        (Some(a), Some(t)) => {
            if a.len() != t.len() {
                return Err(EncodeCallError::ArgumentCountMismatch);
            }
            let ghost av = a@.map_values(|s: String| s@);
            let ghost tv = t@.map_values(|s: String| s@);
            let mut tokens: Vec<AbiToken> = Vec::new();
            let mut i: usize = 0;
            while i < a.len()
                invariant
                    i <= a@.len() == t@.len(),
                    av == a@.map_values(|s: String| s@),
                    tv == t@.map_values(|s: String| s@),
                    strings_view(args) == Some(av),
                    strings_view(types) == Some(tv),
                    call_args_spec(av, tv, i as nat) == Ok::<Seq<AbiTokenView>, EncodeCallError>(
                        tokens_view(tokens@),
                    ),
                decreases a@.len() - i,
            {
                assert(av[i as int] == a@[i as int]@);
                assert(tv[i as int] == t@[i as int]@);
                match call_arg_token(&a[i], &t[i]) {
                    Ok(token) => {
                        let ghost before = tokens@;
                        tokens.push(token);
                        assert(tokens@.drop_last() == before);
                    },
                    Err(e) => {
                        proof {
                            assert(call_args_spec(av, tv, (i + 1) as nat) == Err::<
                                Seq<AbiTokenView>,
                                EncodeCallError,
                            >(e));
                            lemma_call_args_error_extends(av, tv, (i + 1) as nat, a@.len());
                            assert(av.len() == a@.len());
                        }
                        return Err(e);
                    },
                }
                i = i + 1;
            }
            tokens
        },
        (Some(_), None) => {
            return Err(EncodeCallError::TypesNotProvided);
        },
        (None, _) => Vec::new(),
    };
    let encoded_args = encode_tokens(&tokens);
    append_bytes(&mut data, encoded_args.as_slice());
    Ok(data)
}

proof fn lemma_call_args_error_extends(
    args: Seq<Seq<char>>,
    types: Seq<Seq<char>>,
    j: nat,
    n: nat,
)
    requires
        j <= n,
        call_args_spec(args, types, j) is Err,
    ensures
        call_args_spec(args, types, n) == call_args_spec(args, types, j),
    decreases n - j,
{
    if j < n {
        lemma_call_args_error_extends(args, types, j + 1, n);
    }
}


// ------------------------------------------------------------------------
// Arguments parsed by type names, as the `encode` command takes them.

/// Why an argument of the `encode` command could not be parsed.
#[derive(Clone, Copy, Debug, PartialEq, Eq, Structural)]
pub enum TokenParseError {
    InvalidUint256,
    InvalidSint256,
    InvalidAddress,
    InvalidBool,
    InvalidBytes,
    /// The type is none of `uint256`, `sint256`, `address`, `bool`, `bytes`
    /// and `string`.
    UnsupportedType,
}

/// The text `sint256`.
pub open spec fn sint256_text() -> Seq<char> {
    seq!['s', 'i', 'n', 't', '2', '5', '6']
}

/// The text `bool`.
pub open spec fn bool_text() -> Seq<char> {
    seq!['b', 'o', 'o', 'l']
}

/// The text `bytes`.
pub open spec fn bytes_text() -> Seq<char> {
    seq!['b', 'y', 't', 'e', 's']
}

/// The token of an argument of the `encode` command, by its type name:
/// `uint256` and `sint256` in hexadecimal, an address, `true` or `false`,
/// bytes in hexadecimal without prefix, or a string.
pub open spec fn parse_token_spec(arg: Seq<char>, t: Seq<char>) -> Result<AbiTokenView, TokenParseError> {
    if t == uint256_text() {
        match hex_uint_of_text(arg, 64) {
            Some(v) => Ok(AbiTokenView::Uint(v)),
            None => Err(TokenParseError::InvalidUint256),
        }
    } else if t == sint256_text() {
        match hex_uint_of_text(arg, 64) {
            Some(v) => Ok(AbiTokenView::Int(v)),
            None => Err(TokenParseError::InvalidSint256),
        }
    } else if t == address_text() {
        match address_of_text(arg) {
            Some(a) => Ok(AbiTokenView::Address(a)),
            None => Err(TokenParseError::InvalidAddress),
        }
    } else if t == bool_text() {
        if arg == true_text() {
            Ok(AbiTokenView::Bool(true))
        } else if arg == false_text() {
            Ok(AbiTokenView::Bool(false))
        } else {
            Err(TokenParseError::InvalidBool)
        }
    } else if t == bytes_text() {
        match hex_decoded(arg) {
            Some(b) => Ok(AbiTokenView::Bytes(b)),
            None => Err(TokenParseError::InvalidBytes),
        }
    } else if t == string_text() {
        Ok(AbiTokenView::String(arg))
    } else {
        Err(TokenParseError::UnsupportedType)
    }
}

/// Parses an argument of the `encode` command by its type name.
pub fn parse_token(arg: &str, t: &str) -> (r: Result<AbiToken, TokenParseError>)
    ensures
        match r {
            Ok(token) => parse_token_spec(arg@, t@) == Ok::<AbiTokenView, TokenParseError>(
                token_view(token),
            ),
            Err(e) => parse_token_spec(arg@, t@) == Err::<AbiTokenView, TokenParseError>(e),
        },
{
    proof {
        reveal_strlit("uint256");
        reveal_strlit("sint256");
        reveal_strlit("address");
        reveal_strlit("bool");
        reveal_strlit("bytes");
        reveal_strlit("string");
        reveal_strlit("true");
        reveal_strlit("false");
        assert("uint256"@ =~= uint256_text());
        assert("sint256"@ =~= sint256_text());
        assert("address"@ =~= address_text());
        assert("bool"@ =~= bool_text());
        assert("bytes"@ =~= bytes_text());
        assert("string"@ =~= string_text());
        assert("true"@ =~= true_text());
        assert("false"@ =~= false_text());
    }
    let ty = t.to_owned();
    if ty == "uint256".to_owned() {
        match parse_hex_u256(arg) {
            Some(v) => Ok(AbiToken::Uint(v)),
            None => Err(TokenParseError::InvalidUint256),
        }
    } else if ty == "sint256".to_owned() {
        match parse_hex_u256(arg) {
            Some(v) => Ok(AbiToken::Int(v)),
            None => Err(TokenParseError::InvalidSint256),
        }
    } else if ty == "address".to_owned() {
        match parse_address(arg) {
            Some(a) => Ok(AbiToken::Address(a)),
            None => Err(TokenParseError::InvalidAddress),
        }
    } else if ty == "bool".to_owned() {
        let raw = arg.to_owned();
        if raw == "true".to_owned() {
            Ok(AbiToken::Bool(true))
        } else if raw == "false".to_owned() {
            Ok(AbiToken::Bool(false))
        } else {
            Err(TokenParseError::InvalidBool)
        }
    } else if ty == "bytes".to_owned() {
        match decode_hex(arg) {
            Some(b) => Ok(AbiToken::Bytes(b)),
            None => Err(TokenParseError::InvalidBytes),
        }
    } else if ty == "string".to_owned() {
        Ok(AbiToken::String(arg.to_owned()))
    } else {
        Err(TokenParseError::UnsupportedType)
    }
}

/// The tokens of the first `n` argument and type pairs, or the error of the
/// first that fails.
pub open spec fn parse_tokens_spec(args: Seq<Seq<char>>, types: Seq<Seq<char>>, n: nat) -> Result<
    Seq<AbiTokenView>,
    TokenParseError,
>
    decreases n,
{
    if n == 0 {
        Ok(seq![])
    } else {
        match parse_tokens_spec(args, types, (n - 1) as nat) {
            Err(e) => Err(e),
            Ok(ts) => match parse_token_spec(args[n - 1], types[n - 1]) {
                Err(e) => Err(e),
                Ok(t) => Ok(ts.push(t)),
            },
        }
    }
}

/// The smaller of two lengths: how many pairs a zip of the two makes.
pub open spec fn zip_len(a: nat, b: nat) -> nat {
    if a <= b {
        a
    } else {
        b
    }
}

proof fn lemma_parse_tokens_error_extends(
    args: Seq<Seq<char>>,
    types: Seq<Seq<char>>,
    j: nat,
    n: nat,
)
    requires
        j <= n,
        parse_tokens_spec(args, types, j) is Err,
    ensures
        parse_tokens_spec(args, types, n) == parse_tokens_spec(args, types, j),
    decreases n - j,
{
    if j < n {
        lemma_parse_tokens_error_extends(args, types, j + 1, n);
    }
}

/// Parses the arguments of the `encode` command, each by the type at the
/// same position; arguments or types beyond the shorter list are ignored.
pub fn parse_tokens(arguments: &Vec<String>, types: &Vec<String>) -> (r: Result<
    Vec<AbiToken>,
    TokenParseError,
>)
    ensures
        match r {
            Ok(tokens) => parse_tokens_spec(
                arguments@.map_values(|s: String| s@),
                types@.map_values(|s: String| s@),
                zip_len(arguments@.len(), types@.len()),
            ) == Ok::<Seq<AbiTokenView>, TokenParseError>(tokens_view(tokens@)),
            Err(e) => parse_tokens_spec(
                arguments@.map_values(|s: String| s@),
                types@.map_values(|s: String| s@),
                zip_len(arguments@.len(), types@.len()),
            ) == Err::<Seq<AbiTokenView>, TokenParseError>(e),
        },
{
    let ghost av = arguments@.map_values(|s: String| s@);
    let ghost tv = types@.map_values(|s: String| s@);
    let n = if arguments.len() <= types.len() {
        arguments.len()
    } else {
        types.len()
    };
    let mut tokens: Vec<AbiToken> = Vec::new();
    let mut i: usize = 0;
    while i < n
        invariant
            i <= n,
            n == zip_len(arguments@.len(), types@.len()),
            av == arguments@.map_values(|s: String| s@),
            tv == types@.map_values(|s: String| s@),
            parse_tokens_spec(av, tv, i as nat) == Ok::<Seq<AbiTokenView>, TokenParseError>(
                tokens_view(tokens@),
            ),
        decreases n - i,
    {
        assert(av[i as int] == arguments@[i as int]@);
        assert(tv[i as int] == types@[i as int]@);
        match parse_token(arguments[i].as_str(), types[i].as_str()) {
            Ok(token) => {
                let ghost before = tokens@;
                tokens.push(token);
                assert(tokens@.drop_last() == before);
            },
            Err(e) => {
                proof {
                    lemma_parse_tokens_error_extends(av, tv, (i + 1) as nat, n as nat);
                }
                return Err(e);
            },
        }
        i = i + 1;
    }
    Ok(tokens)
}

/// The lower-case hexadecimal digit of a value below 16.
pub open spec fn lower_hex_digit(v: nat) -> char {
    if v < 10 {
        ('0' as nat + v) as char
    } else {
        ('a' as nat + v - 10) as char
    }
}

/// The lower-case hexadecimal text of a byte string, two digits a byte.
pub open spec fn lower_hex(b: Seq<u8>) -> Seq<char>
    decreases b.len(),
{
    if b.len() == 0 {
        seq![]
    } else {
        lower_hex(b.drop_last()) + seq![
            lower_hex_digit((b.last() / 16) as nat),
            lower_hex_digit((b.last() % 16) as nat),
        ]
    }
}

fn hex_digit_char(v: u8) -> (c: char)
    requires
        v < 16,
    ensures
        c == lower_hex_digit(v as nat),
{
    let digits: [char; 16] = [
        '0', '1', '2', '3', '4', '5', '6', '7', '8', '9', 'a', 'b', 'c', 'd', 'e', 'f',
    ];
    let c = digits[v as usize];
    assert(c == lower_hex_digit(v as nat)) by {
        assert(digits@ =~= seq![
            '0', '1', '2', '3', '4', '5', '6', '7', '8', '9', 'a', 'b', 'c', 'd', 'e', 'f',
        ]);
    }
    c
}

/// The lower-case hexadecimal text of `bytes`, two digits a byte.
pub fn lower_hex_text(bytes: &[u8]) -> (r: String)
    ensures
        r@ == lower_hex(bytes@),
{
    let mut r = String::new();
    let mut i: usize = 0;
    while i < bytes.len()
        invariant
            i <= bytes@.len(),
            r@ == lower_hex(bytes@.subrange(0, i as int)),
        decreases bytes@.len() - i,
    {
        let b = bytes[i];
        push_char(&mut r, hex_digit_char(b / 16));
        push_char(&mut r, hex_digit_char(b % 16));
        assert(bytes@.subrange(0, i + 1).drop_last() == bytes@.subrange(0, i as int));
        i = i + 1;
        assert(r@ == lower_hex(bytes@.subrange(0, i as int)));
    }
    assert(bytes@.subrange(0, bytes@.len() as int) == bytes@);
    r
}

/// `0x` followed by the lower-case hexadecimal text of `bytes`, as the
/// commands print calldata.
pub fn prefixed_lower_hex(bytes: &[u8]) -> (r: String)
    ensures
        r@ == seq!['0', 'x'] + lower_hex(bytes@),
{
    let mut r = String::new();
    push_char(&mut r, '0');
    push_char(&mut r, 'x');
    let digits = lower_hex_text(bytes);
    r.append(digits.as_str());
    r
}

/// The calldata that a human-readable function signature and tokens give,
/// if the signature parses and the tokens fit its inputs.
pub uninterp spec fn human_readable_call_encoding(signature: Seq<char>, tokens: Seq<AbiTokenView>) -> Option<
    Seq<u8>,
>;

/// Parses a human-readable function signature and encodes a call of it
/// with `tokens`: `HumanReadableParser::parse_function`, then
/// `Function::encode_input`. The parser panics on an array size that does
/// not fit in a `usize`, so such signatures are left out.
#[verifier::external_body]
fn encode_human_readable_call(signature: &str, tokens: &Vec<AbiToken>) -> (r: Option<Vec<u8>>)
    requires
        array_sizes_fit(signature@),
    ensures
        match r {
            Some(v) => human_readable_call_encoding(signature@, tokens_view(tokens@)) == Some(v@),
            None => human_readable_call_encoding(signature@, tokens_view(tokens@)) is None,
        },
{
    let converted = to_ethabi_tokens(tokens);
    match HumanReadableParser::parse_function(signature) {
        Ok(function) => function.encode_input(&converted).ok(),
        Err(_) => None,
    }
}

/// Why the `encode` command could not encode its arguments.
#[derive(Clone, Copy, Debug, PartialEq, Eq, Structural)]
pub enum EncodeArgsError {
    /// An argument could not be parsed by its type.
    Token(TokenParseError),
    /// The function signature does not parse, or its inputs do not fit.
    Function,
    /// The function signature writes an array size that does not fit in a
    /// `usize`.
    ArraySizeTooLarge,
}

/// What the `encode` command prints: `0x` and the hexadecimal calldata of
/// the function's call with the parsed arguments, or of the arguments
/// alone when no function is given.
pub open spec fn encode_args_spec(
    function: Option<Seq<char>>,
    arguments: Seq<Seq<char>>,
    types: Seq<Seq<char>>,
) -> Result<Seq<char>, EncodeArgsError> {
    match parse_tokens_spec(arguments, types, zip_len(arguments.len(), types.len())) {
        Err(e) => Err(EncodeArgsError::Token(e)),
        Ok(ts) => match function {
            Some(f) => if !array_sizes_fit(f) {
                Err(EncodeArgsError::ArraySizeTooLarge)
            } else {
                match human_readable_call_encoding(f, ts) {
                    Some(b) => Ok(seq!['0', 'x'] + lower_hex(b)),
                    None => Err(EncodeArgsError::Function),
                }
            },
            None => Ok(seq!['0', 'x'] + lower_hex(abi_encoding(ts))),
        },
    }
}

/// The text of an optional string.
pub open spec fn opt_string_view(s: Option<String>) -> Option<Seq<char>> {
    match s {
        Some(x) => Some(x@),
        None => None,
    }
}

/// The hexadecimal calldata that the `encode` command prints for its
/// arguments.
pub fn encode_args(function: Option<String>, arguments: &Vec<String>, types: &Vec<String>) -> (r:
    Result<String, EncodeArgsError>)
    ensures
        match r {
            Ok(text) => encode_args_spec(
                opt_string_view(function),
                arguments@.map_values(|s: String| s@),
                types@.map_values(|s: String| s@),
            ) == Ok::<Seq<char>, EncodeArgsError>(text@),
            Err(e) => encode_args_spec(
                opt_string_view(function),
                arguments@.map_values(|s: String| s@),
                types@.map_values(|s: String| s@),
            ) == Err::<Seq<char>, EncodeArgsError>(e),
        },
{
    let tokens = match parse_tokens(arguments, types) {
        Ok(tokens) => tokens,
        Err(e) => {
            return Err(EncodeArgsError::Token(e));
        },
    };
    let encoded = match function {
        Some(f) => {
            if !array_sizes_fit_exec(f.as_str()) {
                return Err(EncodeArgsError::ArraySizeTooLarge);
            }
            match encode_human_readable_call(f.as_str(), &tokens) {
                Some(b) => b,
                None => {
                    return Err(EncodeArgsError::Function);
                },
            }
        },
        None => encode_tokens(&tokens),
    };
    Ok(prefixed_lower_hex(encoded.as_slice()))
}

// ------------------------------------------------------------------------
// Calldata of a function of an ABI signature.

/// The `ethers` parameter type of a [`ParamKind`].
#[verifier::external_type_specification]
#[verifier::external_body]
pub struct ExParamType(ParamType);

/// The [`ParamKind`] of an `ethers` parameter type, variant for variant.
#[verifier::external_body]
fn param_kind_of(p: &ParamType) -> ParamKind {
    match p {
        ParamType::Address => ParamKind::Address,
        ParamType::Bytes => ParamKind::Bytes,
        ParamType::Int(n) => ParamKind::Int(*n),
        ParamType::Uint(n) => ParamKind::Uint(*n),
        ParamType::Bool => ParamKind::Bool,
        ParamType::String => ParamKind::String,
        ParamType::Array(t) => ParamKind::Array(Box::new(param_kind_of(t))),
        ParamType::FixedBytes(n) => ParamKind::FixedBytes(*n),
        ParamType::FixedArray(t, n) => ParamKind::FixedArray(Box::new(param_kind_of(t)), *n),
        ParamType::Tuple(ts) => ParamKind::Tuple(ts.iter().map(param_kind_of).collect()),
    }
}

/// The input types of the first function of the human-readable ABI
/// `signature`, if it parses and has a function.
pub uninterp spec fn abi_function_inputs(signature: Seq<char>) -> Option<Seq<ParamKind>>;

/// The calldata of a call of the first function of the human-readable ABI
/// `signature` with `tokens`, if it parses, has a function, and the tokens
/// fit its inputs.
pub uninterp spec fn abi_function_call_encoding(signature: Seq<char>, tokens: Seq<AbiTokenView>) -> Option<
    Seq<u8>,
>;

/// The input types of the first function of a human-readable ABI:
/// `parse_abi_str`, then the first of `functions()`. The parser panics on
/// an array size that does not fit in a `usize`, so such signatures are
/// left out.
#[verifier::external_body]
fn function_input_kinds(signature: &str) -> (r: Option<Vec<ParamKind>>)
    requires
        array_sizes_fit(signature@),
    ensures
        match r {
            Some(v) => abi_function_inputs(signature@) == Some(v@),
            None => abi_function_inputs(signature@) is None,
        },
{
    let abi = parse_abi_str(signature).ok()?;
    let function = abi.functions().next()?;
    Some(function.inputs.iter().map(|param| param_kind_of(&param.kind)).collect())
}

/// Encodes a call of the first function of a human-readable ABI with
/// `tokens`: `parse_abi_str`, then `Function::encode_input`. The parser
/// panics on an array size that does not fit in a `usize`, so such
/// signatures are left out.
#[verifier::external_body]
fn encode_function_input(signature: &str, tokens: &Vec<AbiToken>) -> (r: Option<Vec<u8>>)
    requires
        array_sizes_fit(signature@),
    ensures
        match r {
            Some(v) => abi_function_call_encoding(signature@, tokens_view(tokens@)) == Some(v@),
            None => abi_function_call_encoding(signature@, tokens_view(tokens@)) is None,
        },
{
    let converted = to_ethabi_tokens(tokens);
    let abi = parse_abi_str(signature).ok()?;
    let function = abi.functions().next()?;
    function.encode_input(&converted).ok()
}

/// Why the `calldata` command could not encode a call.
#[derive(Clone, Copy, Debug, PartialEq, Eq, Structural)]
pub enum CalldataError {
    /// The signature writes an array size that does not fit in a `usize`.
    ArraySizeTooLarge,
    /// The signature does not parse, or holds no function.
    NoFunction,
    /// An input type is an array or a fixed byte string.
    UnsupportedParameterType,
    /// An argument could not be parsed for its input type.
    Param(ParamParseError),
    /// The arguments do not fit the function's inputs.
    Encoding,
}

/// The tokens of the first `n` inputs and arguments, or the error of the
/// first that fails.
pub open spec fn input_tokens_spec(kinds: Seq<ParamKind>, args: Seq<Seq<char>>, n: nat) -> Result<
    Seq<AbiTokenView>,
    ParamParseError,
>
    decreases n,
{
    if n == 0 {
        Ok(seq![])
    } else {
        match input_tokens_spec(kinds, args, (n - 1) as nat) {
            Err(e) => Err(e),
            Ok(ts) => match param_token_spec(kinds[n - 1], args[n - 1]) {
                Err(e) => Err(e),
                Ok(t) => Ok(ts.push(t)),
            },
        }
    }
}

proof fn lemma_input_tokens_error_extends(
    kinds: Seq<ParamKind>,
    args: Seq<Seq<char>>,
    j: nat,
    n: nat,
)
    requires
        j <= n,
        input_tokens_spec(kinds, args, j) is Err,
    ensures
        input_tokens_spec(kinds, args, n) == input_tokens_spec(kinds, args, j),
    decreases n - j,
{
    if j < n {
        lemma_input_tokens_error_extends(kinds, args, j + 1, n);
    }
}

/// Parses each argument for the input type at the same position; inputs or
/// arguments beyond the shorter list are ignored. Every input type must be
/// supported.
pub fn input_tokens(kinds: &Vec<ParamKind>, args: &Vec<String>) -> (r: Result<
    Vec<AbiToken>,
    ParamParseError,
>)
    requires
        supported_kinds(kinds@),
    ensures
        match r {
            Ok(tokens) => input_tokens_spec(
                kinds@,
                args@.map_values(|s: String| s@),
                zip_len(kinds@.len(), args@.len()),
            ) == Ok::<Seq<AbiTokenView>, ParamParseError>(tokens_view(tokens@)),
            Err(e) => input_tokens_spec(
                kinds@,
                args@.map_values(|s: String| s@),
                zip_len(kinds@.len(), args@.len()),
            ) == Err::<Seq<AbiTokenView>, ParamParseError>(e),
        },
{
    let ghost av = args@.map_values(|s: String| s@);
    let n = if kinds.len() <= args.len() {
        kinds.len()
    } else {
        args.len()
    };
    let mut tokens: Vec<AbiToken> = Vec::new();
    let mut i: usize = 0;
    while i < n
        invariant
            i <= n,
            n == zip_len(kinds@.len(), args@.len()),
            supported_kinds(kinds@),
            av == args@.map_values(|s: String| s@),
            input_tokens_spec(kinds@, av, i as nat) == Ok::<Seq<AbiTokenView>, ParamParseError>(
                tokens_view(tokens@),
            ),
        decreases n - i,
    {
        assert(av[i as int] == args@[i as int]@);
        proof {
            lemma_supported_member(kinds@, i as int);
        }
        match parse_param_into_token(&kinds[i], args[i].as_str()) {
            Ok(token) => {
                let ghost before = tokens@;
                tokens.push(token);
                assert(tokens@.drop_last() == before);
            },
            Err(e) => {
                proof {
                    lemma_input_tokens_error_extends(kinds@, av, (i + 1) as nat, n as nat);
                }
                return Err(e);
            },
        }
        i = i + 1;
    }
    Ok(tokens)
}

/// Whether arguments can be parsed for a parameter type.
pub fn is_supported_kind(kind: &ParamKind) -> (r: bool)
    ensures
        r == supported_kind(*kind),
    decreases kind,
{
    match kind {
        ParamKind::Int(n) => *n == 8 || *n == 16 || *n == 32 || *n == 64 || *n == 128 || *n == 256,
        ParamKind::Uint(n) => *n == 8 || *n == 16 || *n == 32 || *n == 64 || *n == 128 || *n == 256,
        ParamKind::Array(_) => false,
        ParamKind::FixedBytes(_) => false,
        ParamKind::FixedArray(_, _) => false,
        ParamKind::Tuple(kinds) => are_supported_kinds(kinds),
        _ => true,
    }
}

/// Whether arguments can be parsed for each of a sequence of types.
pub fn are_supported_kinds(kinds: &Vec<ParamKind>) -> (r: bool)
    ensures
        r == supported_kinds(kinds@),
    decreases kinds,
{
    let mut i: usize = 0;
    while i < kinds.len()
        invariant
            i <= kinds@.len(),
            supported_kinds(kinds@.subrange(0, i as int)),
        decreases kinds@.len() - i,
    {
        assert(kinds@.subrange(0, i + 1).drop_last() == kinds@.subrange(0, i as int));
        proof {
            assert(decreases_to!(*kinds => kinds@));
            assert(decreases_to!(kinds@ => kinds@[i as int]));
        }
        if !is_supported_kind(&kinds[i]) {
            proof {
                lemma_unsupported_extends(kinds@, i + 1);
            }
            return false;
        }
        i = i + 1;
    }
    assert(kinds@.subrange(0, kinds@.len() as int) == kinds@);
    true
}

proof fn lemma_unsupported_extends(ks: Seq<ParamKind>, j: int)
    requires
        0 <= j <= ks.len(),
        !supported_kinds(ks.subrange(0, j)),
    ensures
        !supported_kinds(ks),
    decreases ks.len() - j,
{
    if j < ks.len() {
        assert(ks.subrange(0, j + 1).drop_last() == ks.subrange(0, j));
        lemma_unsupported_extends(ks, j + 1);
    } else {
        assert(ks.subrange(0, j) == ks);
    }
}

/// The calldata of a call of the function of an ABI signature with the
/// given arguments, each parsed for the input at its position.
pub open spec fn calldata_encode_spec(signature: Seq<char>, args: Seq<Seq<char>>) -> Result<
    Seq<u8>,
    CalldataError,
> {
    if !array_sizes_fit(signature) {
        Err(CalldataError::ArraySizeTooLarge)
    } else {
    match abi_function_inputs(signature) {
        None => Err(CalldataError::NoFunction),
        Some(kinds) => {
            if !supported_kinds(kinds) {
                Err(CalldataError::UnsupportedParameterType)
            } else {
                match input_tokens_spec(kinds, args, zip_len(kinds.len(), args.len())) {
                    Err(e) => Err(CalldataError::Param(e)),
                    Ok(ts) => match abi_function_call_encoding(signature, ts) {
                        Some(b) => Ok(b),
                        None => Err(CalldataError::Encoding),
                    },
                }
            }
        },
    }
    }
}

/// The calldata of a call of the function of a human-readable ABI
/// signature (such as `function transfer(address,uint256)`) with the given
/// arguments. Signatures whose inputs hold arrays or fixed byte strings are
/// refused, and so are those that write an array size that does not fit in
/// a `usize`.
pub fn calldata_encode(signature: &str, args: &Vec<String>) -> (r: Result<Vec<u8>, CalldataError>)
    ensures
        match r {
            Ok(data) => calldata_encode_spec(signature@, args@.map_values(|s: String| s@)) == Ok::<
                Seq<u8>,
                CalldataError,
            >(data@),
            Err(e) => calldata_encode_spec(signature@, args@.map_values(|s: String| s@)) == Err::<
                Seq<u8>,
                CalldataError,
            >(e),
        },
{
    if !array_sizes_fit_exec(signature) {
        return Err(CalldataError::ArraySizeTooLarge);
    }
    let kinds = match function_input_kinds(signature) {
        Some(kinds) => kinds,
        None => {
            return Err(CalldataError::NoFunction);
        },
    };
    if !are_supported_kinds(&kinds) {
        return Err(CalldataError::UnsupportedParameterType);
    }
    let tokens = match input_tokens(&kinds, args) {
        Ok(tokens) => tokens,
        Err(e) => {
            return Err(CalldataError::Param(e));
        },
    };
    match encode_function_input(signature, &tokens) {
        Some(data) => Ok(data),
        None => Err(CalldataError::Encoding),
    }
}


/// Encoded calldata begins with the selector when one is given, else with
/// the bytecode when one is given.
pub proof fn lemma_calldata_starts_with_selector(
    selector: Option<Seq<u8>>,
    bytecode: Option<Seq<u8>>,
    args: Option<Seq<Seq<char>>>,
    types: Option<Seq<Seq<char>>>,
)
    ensures
        encode_call_spec(selector, bytecode, args, types) matches Ok(data) ==> match selector {
            Some(s) => data.subrange(0, s.len() as int) == s,
            None => match bytecode {
                Some(b) => data.subrange(0, b.len() as int) == b,
                None => true,
            },
        },
{
    match encode_call_spec(selector, bytecode, args, types) {
        Ok(data) => {
            let prefix = match selector {
                Some(s) => s,
                None => match bytecode {
                    Some(b) => b,
                    None => seq![],
                },
            };
            let tail = data.subrange(prefix.len() as int, data.len() as int);
            assert(data == prefix + tail);
            assert(data.subrange(0, prefix.len() as int) == prefix);
        },
        Err(_) => {},
    }
}


/// The selector of the function that a human-readable signature declares,
/// if it parses: the first four bytes of the Keccak-256 digest of its
/// canonical form.
pub uninterp spec fn human_readable_selector(signature: Seq<char>) -> Option<Seq<u8>>;

/// The selector of a human-readable function signature:
/// `HumanReadableParser::parse_function`, then `Function::short_signature`.
/// The parser panics on an array size that does not fit in a `usize`, so
/// such signatures are left out.
#[verifier::external_body]
fn parse_function_selector(signature: &str) -> (r: Option<[u8; 4]>)
    requires
        array_sizes_fit(signature@),
    ensures
        match r {
            Some(s) => human_readable_selector(signature@) == Some(s@),
            None => human_readable_selector(signature@) is None,
        },
{
    match HumanReadableParser::parse_function(signature) {
        Ok(function) => Some(function.short_signature()),
        Err(_) => None,
    }
}

/// What the `selector` command prints for a function signature: `0x` and
/// the selector in hexadecimal, or nothing when the signature does not
/// parse or writes an array size that does not fit in a `usize`.
pub fn selector_text(function_signature: &str) -> (r: Option<String>)
    ensures
        !array_sizes_fit(function_signature@) ==> r is None,
        array_sizes_fit(function_signature@) ==> match human_readable_selector(function_signature@) {
            Some(s) => r matches Some(t) && t@ == seq!['0', 'x'] + lower_hex(s),
            None => r is None,
        },
{
    if !array_sizes_fit_exec(function_signature) {
        return None;
    }
    match parse_function_selector(function_signature) {
        Some(selector) => Some(prefixed_lower_hex(&selector)),
        None => None,
    }
}

// ------------------------------------------------------------------------
// Decoding the calldata of a call.

/// The tokens that `data` decodes into as the inputs of the first function
/// of the human-readable ABI `signature`, if it parses, has a function, and
/// the data decodes.
pub uninterp spec fn abi_function_input_decoding(signature: Seq<char>, data: Seq<u8>) -> Option<
    Seq<AbiTokenView>,
>;

/// Decodes `data` as the inputs of the first function of a human-readable
/// ABI: `parse_abi_str`, the first of `functions()`, then
/// `Function::decode_input`. The parser panics on an array size that does
/// not fit in a `usize`, so such signatures are left out. The decoder makes
/// one token for each element of an array, whose length the data gives:
/// that this may exhaust memory is not stated, as for any allocation.
#[verifier::external_body]
fn decode_function_input(signature: &str, data: &[u8]) -> (r: Option<Vec<AbiToken>>)
    requires
        array_sizes_fit(signature@),
    ensures
        match r {
            Some(v) => abi_function_input_decoding(signature@, data@) == Some(tokens_view(v@)),
            None => abi_function_input_decoding(signature@, data@) is None,
        },
{
    let abi = parse_abi_str(signature).ok()?;
    let function = abi.functions().next()?;
    let decoded = function.decode_input(data).ok()?;
    Some(abi_tokens_of(&decoded))
}

/// Why the `calldata-decode` command could not decode calldata.
#[derive(Clone, Copy, Debug, PartialEq, Eq, Structural)]
pub enum CalldataDecodeError {
    /// The signature writes an array size that does not fit in a `usize`.
    ArraySizeTooLarge,
    /// The signature does not parse, or holds no function.
    NoFunction,
    /// The calldata is shorter than a four-byte selector.
    MissingSelector,
    /// What follows the selector does not decode as the function's inputs.
    DecodeFailed,
}

/// The tokens that calldata decodes into as the inputs of the function of
/// an ABI signature: its first four bytes are the selector, and the rest is
/// decoded.
pub open spec fn calldata_decode_spec(signature: Seq<char>, calldata: Seq<u8>) -> Result<
    Seq<AbiTokenView>,
    CalldataDecodeError,
> {
    if !array_sizes_fit(signature) {
        Err(CalldataDecodeError::ArraySizeTooLarge)
    } else if abi_function_inputs(signature) is None {
        Err(CalldataDecodeError::NoFunction)
    } else if calldata.len() < 4 {
        Err(CalldataDecodeError::MissingSelector)
    } else {
        match abi_function_input_decoding(signature, calldata.skip(4)) {
            Some(ts) => Ok(ts),
            None => Err(CalldataDecodeError::DecodeFailed),
        }
    }
}

/// The tokens of the calldata of a call of the function of a
/// human-readable ABI signature (such as `function transfer(address,uint256)`).
pub fn calldata_decode(signature: &str, calldata: &[u8]) -> (r: Result<Vec<AbiToken>, CalldataDecodeError>)
    ensures
        match r {
            Ok(tokens) => calldata_decode_spec(signature@, calldata@) == Ok::<
                Seq<AbiTokenView>,
                CalldataDecodeError,
            >(tokens_view(tokens@)),
            Err(e) => calldata_decode_spec(signature@, calldata@) == Err::<
                Seq<AbiTokenView>,
                CalldataDecodeError,
            >(e),
        },
{
    if !array_sizes_fit_exec(signature) {
        return Err(CalldataDecodeError::ArraySizeTooLarge);
    }
    if function_input_kinds(signature).is_none() {
        return Err(CalldataDecodeError::NoFunction);
    }
    if calldata.len() < 4 {
        return Err(CalldataDecodeError::MissingSelector);
    }
    let data = slice_subrange(calldata, 4, calldata.len());
    assert(data@ == calldata@.skip(4));
    match decode_function_input(signature, data) {
        Some(tokens) => Ok(tokens),
        None => Err(CalldataDecodeError::DecodeFailed),
    }
}

// ------------------------------------------------------------------------
// Booleans given as arguments.

/// The text in which Rust writes a boolean.
pub open spec fn bool_written(b: bool) -> Seq<char> {
    if b {
        "true"@
    } else {
        "false"@
    }
}

/// A boolean argument is read back as the boolean it writes, for the
/// `encode` command's `bool` type and for a `bool` input of a function; and
/// any argument read as a boolean is that boolean's text.
pub proof fn lemma_bool_arguments_read_as_written(arg: Seq<char>, b: bool)
    ensures
        parse_token_spec(bool_written(b), "bool"@) == Ok::<AbiTokenView, TokenParseError>(
            AbiTokenView::Bool(b),
        ),
        parse_token_spec(arg, "bool"@) == Ok::<AbiTokenView, TokenParseError>(AbiTokenView::Bool(b))
            ==> arg == bool_written(b),
        param_token_spec(ParamKind::Bool, bool_written(b)) == Ok::<AbiTokenView, ParamParseError>(
            AbiTokenView::Bool(b),
        ),
        param_token_spec(ParamKind::Bool, arg) == Ok::<AbiTokenView, ParamParseError>(
            AbiTokenView::Bool(b),
        ) ==> arg == bool_written(b),
{
    reveal_strlit("true");
    reveal_strlit("false");
    reveal_strlit("bool");
    reveal_strlit("uint256");
    reveal_strlit("sint256");
    reveal_strlit("address");
    assert("true"@ =~= true_text());
    assert("false"@ =~= false_text());
    assert("bool"@ =~= bool_text());
    assert(bool_text() != uint256_text());
    assert(bool_text() != sint256_text());
    assert(bool_text() != address_text());
    assert(true_text() != false_text());
}

} // verus!
