//! Character-level helpers on strings.

use vstd::prelude::*;
use vstd::string::StrSliceExecFns;

verus! {

/// Appends one character to a string; `String::push`.
#[verifier::external_body]
pub(crate) fn push_char(s: &mut String, c: char)
    ensures
        final(s)@ == old(s)@.push(c),
{
    s.push(c);
}

/// The characters of a string, in order.
pub fn chars_of(s: &str) -> (r: Vec<char>)
    ensures
        r@ == s@,
{
    let n = s.unicode_len();
    let mut r: Vec<char> = Vec::new();
    let mut i: usize = 0;
    while i < n
        invariant
            n == s@.len(),
            i <= n,
            r@ == s@.subrange(0, i as int),
        decreases n - i,
    {
        let c = s.get_char(i);
        r.push(c);
        i = i + 1;
        assert(r@ == s@.subrange(0, i as int));
    }
    assert(s@.subrange(0, n as int) == s@);
    r
}

/// The string of a sequence of characters.
pub fn string_of(chars: &[char]) -> (r: String)
    ensures
        r@ == chars@,
{
    let mut r = String::new();
    let mut i: usize = 0;
    while i < chars.len()
        invariant
            i <= chars@.len(),
            r@ == chars@.subrange(0, i as int),
        decreases chars@.len() - i,
    {
        push_char(&mut r, chars[i]);
        i = i + 1;
        assert(r@ == chars@.subrange(0, i as int));
    }
    assert(chars@.subrange(0, chars@.len() as int) == chars@);
    r
}

/// Whether `pat` occurs in `s` at position `i`.
pub open spec fn occurs_at(s: Seq<char>, pat: Seq<char>, i: int) -> bool {
    0 <= i && i + pat.len() <= s.len() && s.subrange(i, i + pat.len()) == pat
}

/// `s` with every occurrence of the non-empty `pat` removed, scanning from
/// the left and never reusing a removed character: what `str::replace`
/// gives with an empty replacement.
pub open spec fn remove_all(s: Seq<char>, pat: Seq<char>) -> Seq<char>
    recommends
        pat.len() > 0,
    decreases s.len(),
{
    if s.len() == 0 || pat.len() == 0 {
        s
    } else if occurs_at(s, pat, 0) {
        remove_all(s.subrange(pat.len() as int, s.len() as int), pat)
    } else {
        seq![s[0]] + remove_all(s.subrange(1, s.len() as int), pat)
    }
}

/// Whether `pat` occurs in `s` at position `i`.
pub(crate) fn occurs_at_exec(s: &Vec<char>, pat: &Vec<char>, i: usize) -> (r: bool)
    ensures
        r == occurs_at(s@, pat@, i as int),
{
    if i > s.len() || pat.len() > s.len() - i {
        return false;
    }
    let mut j: usize = 0;
    while j < pat.len()
        invariant
            i + pat.len() <= s.len(),
            j <= pat@.len(),
            forall|k: int| 0 <= k < j ==> s@[i + k] == pat@[k],
        decreases pat@.len() - j,
    {
        assert(i + j < s@.len());
        if s[i + j] != pat[j] {
            assert(s@.subrange(i as int, i + pat@.len())[j as int] != pat@[j as int]);
            return false;
        }
        j = j + 1;
    }
    assert(s@.subrange(i as int, i + pat@.len()) == pat@);
    true
}

/// `s` with every occurrence of the non-empty `pat` removed, as
/// `s.replace(pat, "")` gives it.
pub fn remove_all_exec(s: &str, pat: &str) -> (r: String)
    requires
        pat@.len() > 0,
    ensures
        r@ == remove_all(s@, pat@),
{
    let cs = chars_of(s);
    let ps = chars_of(pat);
    let mut out: Vec<char> = Vec::new();
    let mut i: usize = 0;
    assert(cs@.subrange(0, cs@.len() as int) == cs@);
    assert(out@ + remove_all(cs@, ps@) == remove_all(cs@, ps@));
    while i < cs.len()
        invariant
            cs@ == s@,
            ps@ == pat@,
            ps@.len() > 0,
            i <= cs@.len(),
            out@ + remove_all(cs@.subrange(i as int, cs@.len() as int), ps@) == remove_all(cs@, ps@),
        decreases cs@.len() - i,
    {
        let ghost rest = cs@.subrange(i as int, cs@.len() as int);
        if occurs_at_exec(&cs, &ps, i) {
            assert(occurs_at(rest, ps@, 0)) by {
                assert(rest.subrange(0, ps@.len() as int) == cs@.subrange(i as int, i + ps@.len()));
            }
            assert(rest.subrange(ps@.len() as int, rest.len() as int) == cs@.subrange(
                i + ps@.len(),
                cs@.len() as int,
            ));
            i = i + ps.len();
        } else {
            assert(!occurs_at(rest, ps@, 0)) by {
                if rest.len() >= ps@.len() {
                    assert(rest.subrange(0, ps@.len() as int) == cs@.subrange(i as int, i + ps@.len()));
                }
            }
            assert(rest.subrange(1, rest.len() as int) == cs@.subrange(i + 1, cs@.len() as int));
            let c = cs[i];
            out.push(c);
            assert(out@ == out@.drop_last().push(c));
            assert(out@.drop_last() + (seq![c] + remove_all(rest.subrange(1, rest.len() as int), ps@))
                == out@ + remove_all(rest.subrange(1, rest.len() as int), ps@));
            i = i + 1;
        }
    }
    assert(cs@.subrange(i as int, cs@.len() as int).len() == 0);
    assert(out@ + remove_all(cs@.subrange(i as int, cs@.len() as int), ps@) == out@);
    string_of(&out)
}

} // verus!
