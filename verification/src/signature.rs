//! Function signatures such as `transfer(address, uint256)`: the parameter
//! types written between their parentheses, and the four-byte selector that
//! calls the function.

use vstd::prelude::*;
use ethers_core::utils::keccak256;
use crate::text::{chars_of, string_of};
use vstd::string::StringSliceAdditionalSpecFns;

verus! {

/// Whether a character has the Unicode `White_Space` property, which
/// `char::is_whitespace` and `str::trim` go by: the tab, line feed, vertical
/// tab, form feed, carriage return and space; the next line and no-break
/// space; the Ogham space mark; the spaces from the en quad to the hair
/// space; the line and paragraph separators; the narrow no-break space; the
/// medium mathematical space; and the ideographic space.
pub open spec fn white_space(c: char) -> bool {
    let n = c as u32;
    ||| 0x09 <= n <= 0x0D
    ||| n == 0x20
    ||| n == 0x85
    ||| n == 0xA0
    ||| n == 0x1680
    ||| 0x2000 <= n <= 0x200A
    ||| n == 0x2028
    ||| n == 0x2029
    ||| n == 0x202F
    ||| n == 0x205F
    ||| n == 0x3000
}

/// Whether `c` is white space, as `char::is_whitespace` tells.
pub fn is_white_space(c: char) -> (r: bool)
    ensures
        r == white_space(c),
        (c as u32) < 128 ==> (r <==> (c == ' ' || ('\t' <= c <= '\r'))),
{
    let n: u32 = c as u32;
    (0x09 <= n && n <= 0x0D) || n == 0x20 || n == 0x85 || n == 0xA0 || n == 0x1680 || (0x2000 <= n
        && n <= 0x200A) || n == 0x2028 || n == 0x2029 || n == 0x202F || n == 0x205F || n == 0x3000
}

/// `s` without its leading white space.
pub open spec fn trim_start(s: Seq<char>) -> Seq<char>
    decreases s.len(),
{
    if s.len() > 0 && white_space(s[0]) {
        trim_start(s.subrange(1, s.len() as int))
    } else {
        s
    }
}

/// `s` without its trailing white space.
pub open spec fn trim_end(s: Seq<char>) -> Seq<char>
    decreases s.len(),
{
    if s.len() > 0 && white_space(s.last()) {
        trim_end(s.drop_last())
    } else {
        s
    }
}

/// `s` without leading and trailing white space, as `str::trim` gives it.
pub open spec fn trimmed(s: Seq<char>) -> Seq<char> {
    trim_end(trim_start(s))
}

/// The pieces of `s` between the separators `sep`, as `str::split` gives
/// them: one more piece than there are separators.
pub open spec fn split_on(s: Seq<char>, sep: char) -> Seq<Seq<char>>
    decreases s.len(),
{
    if s.len() == 0 {
        seq![Seq::<char>::empty()]
    } else if s.last() == sep {
        split_on(s.drop_last(), sep).push(Seq::<char>::empty())
    } else {
        let p = split_on(s.drop_last(), sep);
        p.update(p.len() - 1, p.last().push(s.last()))
    }
}

proof fn lemma_split_on_nonempty(s: Seq<char>, sep: char)
    ensures
        split_on(s, sep).len() >= 1,
    decreases s.len(),
{
    if s.len() > 0 {
        lemma_split_on_nonempty(s.drop_last(), sep);
    }
}

/// The position of the first `c` in `s`, or -1.
pub open spec fn first_index_of(s: Seq<char>, c: char) -> int
    decreases s.len(),
{
    if s.len() == 0 {
        -1
    } else if first_index_of(s.drop_last(), c) >= 0 {
        first_index_of(s.drop_last(), c)
    } else if s.last() == c {
        s.len() - 1
    } else {
        -1
    }
}

/// The position of the last `c` in `s`, or -1.
pub open spec fn last_index_of(s: Seq<char>, c: char) -> int
    decreases s.len(),
{
    if s.len() == 0 {
        -1
    } else if s.last() == c {
        s.len() - 1
    } else {
        last_index_of(s.drop_last(), c)
    }
}

/// Why a signature could not be read.
#[derive(Clone, Copy, Debug, PartialEq, Eq, Structural)]
pub enum SignatureError {
    /// There is no `(`.
    MissingOpeningParenthesis,
    /// There is no `)`.
    MissingClosingParenthesis,
    /// The last `)` comes before the first `(`.
    ParsingError,
}

/// The parameter types of a signature: the text between its first `(` and
/// its last `)`, split at each comma, each piece trimmed.
pub open spec fn signature_types(s: Seq<char>) -> Result<Seq<Seq<char>>, SignatureError> {
    let start = first_index_of(s, '(');
    let end = last_index_of(s, ')');
    if start < 0 {
        Err(SignatureError::MissingOpeningParenthesis)
    } else if end < 0 {
        Err(SignatureError::MissingClosingParenthesis)
    } else if end < start + 1 {
        Err(SignatureError::ParsingError)
    } else {
        Ok(split_on(s.subrange(start + 1, end), ',').map_values(|p: Seq<char>| trimmed(p)))
    }
}

/// The texts of a sequence of strings.
pub open spec fn string_views(v: Seq<String>) -> Seq<Seq<char>> {
    v.map_values(|s: String| s@)
}

fn find_first(cs: &Vec<char>, c: char) -> (r: Option<usize>)
    ensures
        match r {
            Some(i) => i as int == first_index_of(cs@, c) && i < cs@.len(),
            None => first_index_of(cs@, c) < 0,
        },
{
    let mut i: usize = 0;
    while i < cs.len()
        invariant
            i <= cs@.len(),
            first_index_of(cs@.subrange(0, i as int), c) < 0,
        decreases cs@.len() - i,
    {
        assert(cs@.subrange(0, i + 1).drop_last() == cs@.subrange(0, i as int));
        if cs[i] == c {
            assert(first_index_of(cs@.subrange(0, i + 1), c) == i);
            proof { lemma_first_index_extends(cs@, c, i + 1); }
            return Some(i);
        }
        i = i + 1;
    }
    assert(cs@.subrange(0, cs@.len() as int) == cs@);
    None
}

proof fn lemma_first_index_extends(s: Seq<char>, c: char, k: int)
    requires
        0 <= k <= s.len(),
        first_index_of(s.subrange(0, k), c) >= 0,
    ensures
        first_index_of(s, c) == first_index_of(s.subrange(0, k), c),
    decreases s.len() - k,
{
    if k < s.len() {
        assert(s.subrange(0, k + 1).drop_last() == s.subrange(0, k));
        lemma_first_index_extends(s, c, k + 1);
    } else {
        assert(s.subrange(0, k) == s);
    }
}

fn find_last(cs: &Vec<char>, c: char) -> (r: Option<usize>)
    ensures
        match r {
            Some(i) => i as int == last_index_of(cs@, c) && i < cs@.len(),
            None => last_index_of(cs@, c) < 0,
        },
{
    let mut i: usize = cs.len();
    assert(cs@.subrange(0, i as int) == cs@);
    while i > 0
        invariant
            i <= cs@.len(),
            last_index_of(cs@.subrange(0, i as int), c) == last_index_of(cs@, c),
        decreases i,
    {
        assert(cs@.subrange(0, i as int).drop_last() == cs@.subrange(0, i - 1));
        if cs[i - 1] == c {
            return Some(i - 1);
        }
        i = i - 1;
    }
    None
}

/// The text of `cs[lo..hi]` without leading and trailing white space.
fn trimmed_range(cs: &Vec<char>, lo: usize, hi: usize) -> (r: String)
    requires
        lo <= hi <= cs@.len(),
    ensures
        r@ == trimmed(cs@.subrange(lo as int, hi as int)),
{
    let mut a = lo;
    while a < hi && is_white_space(cs[a])
        invariant
            lo <= a <= hi <= cs@.len(),
            trim_start(cs@.subrange(lo as int, hi as int)) == trim_start(
                cs@.subrange(a as int, hi as int),
            ),
        decreases hi - a,
    {
        assert(cs@.subrange(a as int, hi as int).subrange(1, (hi - a) as int) == cs@.subrange(
            a + 1,
            hi as int,
        ));
        a = a + 1;
    }
    let ghost start_trimmed = cs@.subrange(a as int, hi as int);
    assert(trim_start(cs@.subrange(lo as int, hi as int)) == start_trimmed);
    let mut b = hi;
    while b > a && is_white_space(cs[b - 1])
        invariant
            lo <= a <= b <= hi <= cs@.len(),
            start_trimmed == cs@.subrange(a as int, hi as int),
            trim_end(start_trimmed) == trim_end(cs@.subrange(a as int, b as int)),
        decreases b - a,
    {
        assert(cs@.subrange(a as int, b as int).drop_last() == cs@.subrange(a as int, b - 1));
        b = b - 1;
    }
    assert(trim_end(cs@.subrange(a as int, b as int)) == cs@.subrange(a as int, b as int));
    let piece = slice_chars(cs, a, b);
    string_of(&piece)
}

fn slice_chars(cs: &Vec<char>, lo: usize, hi: usize) -> (r: Vec<char>)
    requires
        lo <= hi <= cs@.len(),
    ensures
        r@ == cs@.subrange(lo as int, hi as int),
{
    let mut r: Vec<char> = Vec::new();
    let mut i = lo;
    while i < hi
        invariant
            lo <= i <= hi <= cs@.len(),
            r@ == cs@.subrange(lo as int, i as int),
        decreases hi - i,
    {
        r.push(cs[i]);
        i = i + 1;
        assert(r@ == cs@.subrange(lo as int, i as int));
    }
    r
}

/// The pieces of `cs[lo..hi]` between commas, each trimmed.
fn split_trimmed(cs: &Vec<char>, lo: usize, hi: usize) -> (r: Vec<String>)
    requires
        lo <= hi <= cs@.len(),
    ensures
        string_views(r@) == split_on(cs@.subrange(lo as int, hi as int), ',').map_values(
            |p: Seq<char>| trimmed(p),
        ),
{
    let mut out: Vec<String> = Vec::new();
    let ghost mut done: Seq<Seq<char>> = seq![];
    let mut piece_start = lo;
    let mut i = lo;
    assert(cs@.subrange(lo as int, lo as int) == Seq::<char>::empty());
    assert(done.push(cs@.subrange(piece_start as int, i as int)) == seq![Seq::<char>::empty()]);
    while i < hi
        invariant
            lo <= piece_start <= i <= hi <= cs@.len(),
            split_on(cs@.subrange(lo as int, i as int), ',') == done.push(
                cs@.subrange(piece_start as int, i as int),
            ),
            string_views(out@) == done.map_values(|p: Seq<char>| trimmed(p)),
        decreases hi - i,
    {
        let ghost prefix = cs@.subrange(lo as int, i as int);
        assert(cs@.subrange(lo as int, i + 1).drop_last() == prefix);
        assert(cs@.subrange(lo as int, i + 1).last() == cs@[i as int]);
        if cs[i] == ',' {
            let piece = trimmed_range(cs, piece_start, i);
            let ghost before = out@;
            out.push(piece);
            proof {
                let old_done = done;
                done = done.push(cs@.subrange(piece_start as int, i as int));
                assert(string_views(out@) == string_views(before).push(piece@));
                assert(done.map_values(|p: Seq<char>| trimmed(p)) == old_done.map_values(
                    |p: Seq<char>| trimmed(p),
                ).push(trimmed(cs@.subrange(piece_start as int, i as int))));
            }
            piece_start = i + 1;
            i = i + 1;
            assert(cs@.subrange(piece_start as int, i as int) == Seq::<char>::empty());
        } else {
            let ghost p = done.push(cs@.subrange(piece_start as int, i as int));
            assert(cs@.subrange(piece_start as int, i as int).push(cs@[i as int]) =~= cs@.subrange(
                piece_start as int,
                i + 1,
            ));
            assert(p.update(p.len() - 1, p.last().push(cs@[i as int])) =~= done.push(
                cs@.subrange(piece_start as int, i + 1),
            ));
            i = i + 1;
        }
    }
    let last = trimmed_range(cs, piece_start, hi);
    let ghost before = out@;
    out.push(last);
    assert(string_views(out@) == string_views(before).push(last@));
    assert(done.push(cs@.subrange(piece_start as int, hi as int)).map_values(
        |p: Seq<char>| trimmed(p),
    ) == done.map_values(|p: Seq<char>| trimmed(p)).push(
        trimmed(cs@.subrange(piece_start as int, hi as int)),
    ));
    out
}

/// The parameter types written in a function signature, between its first
/// `(` and its last `)`, split at commas and trimmed. A signature with
/// parentheses always has at least one type (an empty one where nothing
/// stands between them), so the result is never `None`.
pub fn parse_signature(signature: &str) -> (r: Result<Option<Vec<String>>, SignatureError>)
    ensures
        match signature_types(signature@) {
            Ok(types) => r matches Ok(Some(v)) && string_views(v@) == types,
            Err(e) => r == Err::<Option<Vec<String>>, SignatureError>(e),
        },
{
    let cs = chars_of(signature);
    let start = match find_first(&cs, '(') {
        Some(start) => start,
        None => {
            return Err(SignatureError::MissingOpeningParenthesis);
        },
    };
    let end = match find_last(&cs, ')') {
        Some(end) => end,
        None => {
            return Err(SignatureError::MissingClosingParenthesis);
        },
    };
    if end <= start {
        return Err(SignatureError::ParsingError);
    }
    let types = split_trimmed(&cs, start + 1, end);
    proof {
        lemma_split_on_nonempty(cs@.subrange(start + 1, end as int), ',');
        assert(types@.len() == string_views(types@).len());
    }
    if types.len() == 0 {
        return Ok(None);
    }
    Ok(Some(types))
}

/// Types joined with commas.
pub open spec fn joined_with_commas(types: Seq<Seq<char>>) -> Seq<char>
    decreases types.len(),
{
    if types.len() == 0 {
        seq![]
    } else if types.len() == 1 {
        types[0]
    } else {
        joined_with_commas(types.drop_last()) + seq![','] + types.last()
    }
}

/// Whether `c` occurs in `s`.
pub open spec fn has_char(s: Seq<char>, c: char) -> bool {
    exists|i: int| 0 <= i < s.len() && s[i] == c
}

proof fn lemma_split_without_separator(q: Seq<char>, sep: char)
    requires
        !has_char(q, sep),
    ensures
        split_on(q, sep) == seq![q],
    decreases q.len(),
{
    if q.len() > 0 {
        assert(!has_char(q.drop_last(), sep)) by {
            if has_char(q.drop_last(), sep) {
                let i = choose|i: int| 0 <= i < q.drop_last().len() && q.drop_last()[i] == sep;
                assert(q[i] == sep);
            }
        }
        lemma_split_without_separator(q.drop_last(), sep);
        assert(q.last() != sep) by {
            assert(q[q.len() - 1] == q.last());
        }
        assert(q.drop_last().push(q.last()) == q);
        assert(seq![q.drop_last()].update(0, q.drop_last().push(q.last())) =~= seq![q]);
    } else {
        assert(q =~= Seq::<char>::empty());
    }
}

proof fn lemma_split_after_separator(p: Seq<char>, q: Seq<char>, sep: char)
    requires
        !has_char(q, sep),
    ensures
        split_on(p + seq![sep] + q, sep) == split_on(p, sep).push(q),
    decreases q.len(),
{
    let x = p + seq![sep] + q;
    if q.len() == 0 {
        assert(q =~= Seq::<char>::empty());
        assert(x =~= p.push(sep));
        assert(x.drop_last() == p);
        assert(x.last() == sep);
    } else {
        assert(!has_char(q.drop_last(), sep)) by {
            if has_char(q.drop_last(), sep) {
                let i = choose|i: int| 0 <= i < q.drop_last().len() && q.drop_last()[i] == sep;
                assert(q[i] == sep);
            }
        }
        lemma_split_after_separator(p, q.drop_last(), sep);
        assert(x.drop_last() == p + seq![sep] + q.drop_last());
        assert(x.last() == q.last());
        assert(q.last() != sep) by {
            assert(q[q.len() - 1] == q.last());
        }
        lemma_split_on_nonempty(x.drop_last(), sep);
        assert(q.drop_last().push(q.last()) == q);
        let pp = split_on(p, sep).push(q.drop_last());
        assert(pp.update(pp.len() - 1, pp.last().push(x.last())) =~= split_on(p, sep).push(q));
    }
}

proof fn lemma_split_joined(types: Seq<Seq<char>>)
    requires
        types.len() > 0,
        forall|i: int| 0 <= i < types.len() ==> !has_char(#[trigger] types[i], ','),
    ensures
        split_on(joined_with_commas(types), ',') == types,
    decreases types.len(),
{
    if types.len() == 1 {
        lemma_split_without_separator(types[0], ',');
        assert(seq![types[0]] == types);
    } else {
        let init = types.drop_last();
        assert forall|i: int| 0 <= i < init.len() implies !has_char(#[trigger] init[i], ',') by {
            assert(init[i] == types[i]);
        }
        lemma_split_joined(init);
        assert(!has_char(types.last(), ',')) by {
            assert(types[types.len() - 1] == types.last());
        }
        lemma_split_after_separator(joined_with_commas(init), types.last(), ',');
        assert(init.push(types.last()) == types);
    }
}

proof fn lemma_first_index_after_prefix(p: Seq<char>, rest: Seq<char>, c: char)
    requires
        !has_char(p, c),
    ensures
        first_index_of(p + seq![c] + rest, c) == p.len(),
    decreases rest.len(),
{
    let x = p + seq![c] + rest;
    if rest.len() == 0 {
        lemma_first_index_absent(p, c);
        assert(x.drop_last() == p);
    } else {
        lemma_first_index_after_prefix(p, rest.drop_last(), c);
        assert(x.drop_last() == p + seq![c] + rest.drop_last());
    }
}

proof fn lemma_first_index_absent(p: Seq<char>, c: char)
    requires
        !has_char(p, c),
    ensures
        first_index_of(p, c) == -1,
    decreases p.len(),
{
    if p.len() > 0 {
        assert(!has_char(p.drop_last(), c)) by {
            if has_char(p.drop_last(), c) {
                let i = choose|i: int| 0 <= i < p.drop_last().len() && p.drop_last()[i] == c;
                assert(p[i] == c);
            }
        }
        lemma_first_index_absent(p.drop_last(), c);
        assert(p[p.len() - 1] == p.last());
    }
}

/// A signature written as a name without parentheses, then its types
/// joined with commas between parentheses, gives back those types, when
/// each type holds no comma and no white space around it.
pub proof fn lemma_signature_types_round_trip(name: Seq<char>, types: Seq<Seq<char>>)
    requires
        types.len() > 0,
        !has_char(name, '('),
        forall|i: int|
            0 <= i < types.len() ==> !has_char(#[trigger] types[i], ',') && trimmed(types[i])
                == types[i],
    ensures
        signature_types(name + seq!['('] + joined_with_commas(types) + seq![')']) == Ok::<
            Seq<Seq<char>>,
            SignatureError,
        >(types),
{
    let body = joined_with_commas(types);
    let s = name + seq!['('] + body + seq![')'];
    lemma_first_index_after_prefix(name, body + seq![')'], '(');
    assert(name + seq!['('] + (body + seq![')']) == s);
    assert(s.last() == ')');
    assert(last_index_of(s, ')') == s.len() - 1);
    assert(s.subrange(name.len() as int + 1, s.len() - 1) == body);
    lemma_split_joined(types);
    assert(types.map_values(|p: Seq<char>| trimmed(p)) == types);
}

/// The Keccak-256 digest of a byte string.
pub uninterp spec fn keccak256_digest(data: Seq<u8>) -> Seq<u8>;

/// The Keccak-256 digest of `data`: `ethers_core::utils::keccak256`.
#[verifier::external_body]
fn keccak(data: &[u8]) -> (r: [u8; 32])
    ensures
        r@ == keccak256_digest(data@),
{
    keccak256(data)
}

/// The selector of a function: the first four bytes of the Keccak-256
/// digest of its signature's UTF-8 bytes.
pub fn get_fn_selector(function_signature: &str) -> (r: [u8; 4])
    ensures
        r@ == keccak256_digest(function_signature.spec_bytes()).subrange(0, 4),
{
    let hash = keccak(function_signature.as_bytes());
    let selector: [u8; 4] = [hash[0], hash[1], hash[2], hash[3]];
    assert(selector@ == hash@.subrange(0, 4));
    selector
}

} // verus!
