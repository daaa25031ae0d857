//! The sizes of fixed arrays written in a human-readable ABI signature,
//! such as the `3` of `uint256[3]`: the `ethers` parser takes them as
//! `usize` values and cannot take a larger one.

use vstd::prelude::*;
use crate::signature::{is_white_space, white_space};
use crate::text::chars_of;
use crate::uint::{decimal_value, digit_value, is_decimal_digit};

verus! {

/// The first index at or after `i` whose character is not white space
/// (the length of `s` when there is none).
pub open spec fn skip_white_space(s: Seq<char>, i: int) -> int
    decreases s.len() - i,
{
    if 0 <= i < s.len() && white_space(s[i]) {
        skip_white_space(s, i + 1)
    } else {
        i
    }
}

/// The first index at or after `i` whose character is not a decimal digit
/// (the length of `s` when there is none).
pub open spec fn digits_end(s: Seq<char>, i: int) -> int
    decreases s.len() - i,
{
    if 0 <= i < s.len() && is_decimal_digit(s[i]) {
        digits_end(s, i + 1)
    } else {
        i
    }
}

/// The number written by the decimal digits that start at the first
/// character after `s[i]` that is not white space (zero where no digit
/// stands there).
pub open spec fn size_after(s: Seq<char>, i: int) -> nat {
    let j = skip_white_space(s, i + 1);
    decimal_value(s.subrange(j, digits_end(s, j)))
}

/// Whether each number that follows an opening bracket `[` of `s`, with
/// nothing but white space between them, fits in a `usize`.
pub open spec fn array_sizes_fit(s: Seq<char>) -> bool {
    forall|i: int| 0 <= i < s.len() && s[i] == '[' ==> size_after(s, i) <= usize::MAX
}

proof fn lemma_skip_bounds(s: Seq<char>, i: int)
    requires
        0 <= i <= s.len(),
    ensures
        i <= skip_white_space(s, i) <= s.len(),
    decreases s.len() - i,
{
    if i < s.len() && white_space(s[i]) {
        lemma_skip_bounds(s, i + 1);
    }
}

proof fn lemma_digits_end_bounds(s: Seq<char>, i: int)
    requires
        0 <= i <= s.len(),
    ensures
        i <= digits_end(s, i) <= s.len(),
        forall|k: int| i <= k < digits_end(s, i) ==> is_decimal_digit(#[trigger] s[k]),
    decreases s.len() - i,
{
    if i < s.len() && is_decimal_digit(s[i]) {
        lemma_digits_end_bounds(s, i + 1);
    }
}

/// Digits written after more digits make the number no smaller.
proof fn lemma_decimal_value_grows(s: Seq<char>, j: int, k: int, e: int)
    requires
        0 <= j <= k <= e <= s.len(),
    ensures
        decimal_value(s.subrange(j, k)) <= decimal_value(s.subrange(j, e)),
    decreases e - k,
{
    if k < e {
        lemma_decimal_value_grows(s, j, k, e - 1);
        assert(s.subrange(j, e).drop_last() == s.subrange(j, e - 1));
        assert(decimal_value(s.subrange(j, e)) == decimal_value(s.subrange(j, e - 1)) * 10
            + digit_value(s.subrange(j, e).last()));
    }
}

/// Whether the number after the bracket at `i` fits in a `usize`.
fn size_after_fits(cs: &Vec<char>, i: usize) -> (r: bool)
    requires
        i < cs@.len(),
    ensures
        r == (size_after(cs@, i as int) <= usize::MAX),
{
    let n = cs.len();
    let mut j: usize = i + 1;
    while j < n && is_white_space(cs[j])
        invariant
            n == cs@.len(),
            i + 1 <= j <= n,
            skip_white_space(cs@, j as int) == skip_white_space(cs@, i + 1),
        decreases n - j,
    {
        j = j + 1;
    }
    proof {
        lemma_digits_end_bounds(cs@, j as int);
    }
    let start: usize = j;
    let mut value: u128 = 0;
    while j < n && '0' <= cs[j] && cs[j] <= '9'
        invariant
            n == cs@.len(),
            start <= j <= digits_end(cs@, start as int) <= n,
            digits_end(cs@, j as int) == digits_end(cs@, start as int),
            skip_white_space(cs@, i + 1) == start,
            value == decimal_value(cs@.subrange(start as int, j as int)),
            value <= usize::MAX,
        decreases n - j,
    {
        proof {
            lemma_digits_end_bounds(cs@, j + 1);
        }
        let d: u128 = (cs[j] as u32 - '0' as u32) as u128;
        assert(cs@.subrange(start as int, j + 1).drop_last() == cs@.subrange(start as int, j as int));
        let next: u128 = value * 10 + d;
        if next > usize::MAX as u128 {
            proof {
                lemma_decimal_value_grows(cs@, start as int, j + 1, digits_end(cs@, start as int));
            }
            return false;
        }
        value = next;
        j = j + 1;
    }
    assert(j == digits_end(cs@, j as int));
    true
}

/// Whether each array size written in a signature fits in a `usize`.
pub fn array_sizes_fit_exec(signature: &str) -> (r: bool)
    ensures
        r == array_sizes_fit(signature@),
{
    let cs = chars_of(signature);
    let n = cs.len();
    let mut i: usize = 0;
    while i < n
        invariant
            n == cs@.len(),
            cs@ == signature@,
            i <= n,
            forall|k: int| 0 <= k < i && cs@[k] == '[' ==> size_after(cs@, k) <= usize::MAX,
        decreases n - i,
    {
        if cs[i] == '[' && !size_after_fits(&cs, i) {
            return false;
        }
        i = i + 1;
    }
    true
}

} // verus!
