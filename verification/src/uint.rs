//! 256-bit unsigned integers (token amounts, gas, fees, nonces) as four
//! 64-bit words, least significant first, with the arithmetic of the
//! `ethers` `U256` type.

use vstd::prelude::*;
use ethers_core::types::U256;

verus! {

/// The `ethers` 256-bit unsigned integer: four 64-bit words, least
/// significant first.
#[verifier::external_type_specification]
#[verifier::external_body]
pub struct ExU256(U256);

/// 2 to the 64.
pub open spec fn pow64() -> nat {
    0x1_0000_0000_0000_0000nat
}

/// 2 to the 256: the bound of the values of a [`Uint256`].
pub open spec fn pow256() -> nat {
    0x1_0000_0000_0000_0000_0000_0000_0000_0000_0000_0000_0000_0000_0000_0000_0000_0000nat
}

/// A 256-bit unsigned integer: `w0 + w1·2^64 + w2·2^128 + w3·2^192`.
#[derive(Clone, Copy, Debug, PartialEq, Eq, Structural)]
pub struct Uint256 {
    pub w0: u64,
    pub w1: u64,
    pub w2: u64,
    pub w3: u64,
}

impl Uint256 {
    /// The number this integer stands for.
    pub open spec fn value(self) -> nat {
        self.w0 as nat + pow64() * (self.w1 as nat + pow64() * (self.w2 as nat + pow64() * (self.w3 as nat)))
    }

    /// Zero.
    pub fn zero() -> (r: Uint256)
        ensures
            r.value() == 0,
    {
        Uint256 { w0: 0, w1: 0, w2: 0, w3: 0 }
    }

    /// The integer of a `u64`.
    pub fn from_u64(n: u64) -> (r: Uint256)
        ensures
            r.value() == n,
    {
        Uint256 { w0: n, w1: 0, w2: 0, w3: 0 }
    }

    /// Whether this integer is zero.
    pub fn is_zero(&self) -> (r: bool)
        ensures
            r == (self.value() == 0),
    {
        proof {
            lemma_value_zero(*self);
        }
        self.w0 == 0 && self.w1 == 0 && self.w2 == 0 && self.w3 == 0
    }
}

/// The value of an integer as a sum of its words times their weights.
pub proof fn lemma_value_words(x: Uint256)
    ensures
        x.value() == x.w0 + 0x1_0000_0000_0000_0000 * x.w1 + 0x1_0000_0000_0000_0000_0000_0000_0000_0000
            * x.w2 + 0x1_0000_0000_0000_0000_0000_0000_0000_0000_0000_0000_0000_0000 * x.w3,
{
    assert(x.value() == x.w0 + 0x1_0000_0000_0000_0000 * x.w1 + 0x1_0000_0000_0000_0000_0000_0000_0000_0000
        * x.w2 + 0x1_0000_0000_0000_0000_0000_0000_0000_0000_0000_0000_0000_0000 * x.w3)
        by (nonlinear_arith)
        requires
            x.value() == x.w0 as nat + 0x1_0000_0000_0000_0000 * (x.w1 as nat + 0x1_0000_0000_0000_0000 * (
            x.w2 as nat + 0x1_0000_0000_0000_0000 * (x.w3 as nat))),
    ;
}

proof fn lemma_value_zero(x: Uint256)
    ensures
        x.value() == 0 <==> (x.w0 == 0 && x.w1 == 0 && x.w2 == 0 && x.w3 == 0),
{
    assert(pow64() > 0);
    assert(x.value() >= x.w0);
    if x.w1 > 0 || x.w2 > 0 || x.w3 > 0 {
        assert(x.w1 as nat + pow64() * (x.w2 as nat + pow64() * (x.w3 as nat)) > 0) by (nonlinear_arith)
            requires
                x.w1 > 0 || x.w2 > 0 || x.w3 > 0,
                pow64() > 0,
        ;
        assert(x.value() >= pow64() * (x.w1 as nat + pow64() * (x.w2 as nat + pow64() * (
        x.w3 as nat)))) by (nonlinear_arith)
            requires
                x.value() == x.w0 as nat + pow64() * (x.w1 as nat + pow64() * (x.w2 as nat + pow64()
                    * (x.w3 as nat))),
        ;
        assert(pow64() * (x.w1 as nat + pow64() * (x.w2 as nat + pow64() * (x.w3 as nat))) > 0)
            by (nonlinear_arith)
            requires
                x.w1 as nat + pow64() * (x.w2 as nat + pow64() * (x.w3 as nat)) > 0,
                pow64() > 0,
        ;
    }
}

/// The sum of two integers; the `+` of `U256`, which panics when the sum
/// does not fit.
#[verifier::external_body]
pub(crate) fn u256_add(a: Uint256, b: Uint256) -> (r: Uint256)
    requires
        a.value() + b.value() < pow256(),
    ensures
        r.value() == a.value() + b.value(),
{
    let r = U256([a.w0, a.w1, a.w2, a.w3]) + U256([b.w0, b.w1, b.w2, b.w3]);
    Uint256 { w0: r.0[0], w1: r.0[1], w2: r.0[2], w3: r.0[3] }
}

/// The quotient of two integers, rounded down; the `/` of `U256`, which
/// panics on a zero divisor.
#[verifier::external_body]
pub(crate) fn u256_div(a: Uint256, b: Uint256) -> (r: Uint256)
    requires
        b.value() > 0,
    ensures
        r.value() == a.value() / b.value(),
{
    let r = U256([a.w0, a.w1, a.w2, a.w3]) / U256([b.w0, b.w1, b.w2, b.w3]);
    Uint256 { w0: r.0[0], w1: r.0[1], w2: r.0[2], w3: r.0[3] }
}

/// The sum of two integers, capped at the largest value; `U256::saturating_add`.
#[verifier::external_body]
pub(crate) fn u256_saturating_add(a: Uint256, b: Uint256) -> (r: Uint256)
    ensures
        r.value() == if a.value() + b.value() < pow256() {
            a.value() + b.value()
        } else {
            (pow256() - 1) as nat
        },
{
    let r = U256([a.w0, a.w1, a.w2, a.w3]).saturating_add(U256([b.w0, b.w1, b.w2, b.w3]));
    Uint256 { w0: r.0[0], w1: r.0[1], w2: r.0[2], w3: r.0[3] }
}

/// The difference of two integers, floored at zero; `U256::saturating_sub`.
#[verifier::external_body]
pub(crate) fn u256_saturating_sub(a: Uint256, b: Uint256) -> (r: Uint256)
    ensures
        r.value() == if a.value() >= b.value() {
            (a.value() - b.value()) as nat
        } else {
            0
        },
{
    let r = U256([a.w0, a.w1, a.w2, a.w3]).saturating_sub(U256([b.w0, b.w1, b.w2, b.w3]));
    Uint256 { w0: r.0[0], w1: r.0[1], w2: r.0[2], w3: r.0[3] }
}

/// The product of two integers, capped at the largest value; `U256::saturating_mul`.
#[verifier::external_body]
pub(crate) fn u256_saturating_mul(a: Uint256, b: Uint256) -> (r: Uint256)
    ensures
        r.value() == if a.value() * b.value() < pow256() {
            a.value() * b.value()
        } else {
            (pow256() - 1) as nat
        },
{
    let r = U256([a.w0, a.w1, a.w2, a.w3]).saturating_mul(U256([b.w0, b.w1, b.w2, b.w3]));
    Uint256 { w0: r.0[0], w1: r.0[1], w2: r.0[2], w3: r.0[3] }
}

/// The value of a decimal digit character.
pub open spec fn digit_value(c: char) -> nat {
    (c as nat - '0' as nat) as nat
}

/// Whether a character is an ASCII decimal digit.
pub open spec fn is_decimal_digit(c: char) -> bool {
    '0' <= c <= '9'
}

/// The number written by a sequence of decimal digits (zero when empty).
pub open spec fn decimal_value(s: Seq<char>) -> nat
    decreases s.len(),
{
    if s.len() == 0 {
        0
    } else {
        decimal_value(s.drop_last()) * 10 + digit_value(s.last())
    }
}

/// The integer written in decimal digits by `s`: every character must be a
/// decimal digit (the empty text is zero) and the number must fit;
/// `U256::from_dec_str`.
#[verifier::external_body]
pub(crate) fn u256_from_dec_str(s: &str) -> (r: Option<Uint256>)
    ensures
        match r {
            Some(v) => (forall|i: int| 0 <= i < s@.len() ==> is_decimal_digit(#[trigger] s@[i]))
                && decimal_value(s@) < pow256() && v.value() == decimal_value(s@),
            None => !((forall|i: int| 0 <= i < s@.len() ==> is_decimal_digit(#[trigger] s@[i]))
                && decimal_value(s@) < pow256()),
        },
{
    match U256::from_dec_str(s) {
        Ok(v) => Some(Uint256 { w0: v.0[0], w1: v.0[1], w2: v.0[2], w3: v.0[3] }),
        Err(_) => None,
    }
}

} // verus!
