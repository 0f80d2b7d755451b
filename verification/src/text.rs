//! Character-level helpers shared by the tag recognizer: character
//! classes, whitespace trimming, and the two conversions between `str`
//! and character vectors.
//!
//! Whitespace here means the ASCII whitespace characters (space, tab,
//! line feed, vertical tab, form feed, carriage return).

use vstd::prelude::*;

verus! {

/// An ASCII whitespace character.
pub open spec fn is_space(c: char) -> bool {
    c == ' ' || c == '\t' || c == '\n' || c == '\u{b}' || c == '\u{c}' || c == '\r'
}

/// A character allowed in a tag or attribute name: a letter, a digit, or
/// a hyphen.
pub open spec fn is_name_char(c: char) -> bool {
    ('a' <= c && c <= 'z') || ('A' <= c && c <= 'Z') || ('0' <= c && c <= '9') || c == '-'
}

/// A character allowed in an unquoted attribute value: anything but
/// whitespace and `>`.
pub open spec fn is_bare_char(c: char) -> bool {
    !is_space(c) && c != '>'
}

/// Runtime test for `is_space`.
pub fn space_char(c: char) -> (b: bool)
    ensures
        b == is_space(c),
{
    c == ' ' || c == '\t' || c == '\n' || c == '\u{b}' || c == '\u{c}' || c == '\r'
}

/// Runtime test for `is_name_char`.
pub fn name_char(c: char) -> (b: bool)
    ensures
        b == is_name_char(c),
{
    ('a' <= c && c <= 'z') || ('A' <= c && c <= 'Z') || ('0' <= c && c <= '9') || c == '-'
}

/// Runtime test for `is_bare_char`.
pub fn bare_char(c: char) -> (b: bool)
    ensures
        b == is_bare_char(c),
{
    !space_char(c) && c != '>'
}

/// The first index at or after `i` holding a non-whitespace character,
/// or the length if there is none.
pub open spec fn first_non_space(s: Seq<char>, i: int) -> int
    decreases s.len() - i,
{
    if i >= s.len() {
        s.len() as int
    } else if is_space(s[i]) {
        first_non_space(s, i + 1)
    } else {
        i
    }
}

/// Scanning backwards from `hi`, the end (exclusive) of the last
/// non-whitespace character above `lo`, or `lo` if there is none.
pub open spec fn last_non_space(s: Seq<char>, hi: int, lo: int) -> int
    decreases hi - lo,
{
    if hi <= lo {
        lo
    } else if is_space(s[hi - 1]) {
        last_non_space(s, hi - 1, lo)
    } else {
        hi
    }
}

/// The start of the trimmed span.
pub open spec fn trim_lo(s: Seq<char>) -> int {
    first_non_space(s, 0)
}

/// The end (exclusive) of the trimmed span.
pub open spec fn trim_hi(s: Seq<char>) -> int {
    last_non_space(s, s.len() as int, trim_lo(s))
}

/// The characters with ASCII whitespace removed from both ends.
pub open spec fn spec_trim(s: Seq<char>) -> Seq<char> {
    s.subrange(trim_lo(s), trim_hi(s))
}

/// The trimmed span of `cs`, as a half-open index range.
pub fn trim_range(cs: &Vec<char>) -> (r: (usize, usize))
    ensures
        0 <= r.0 <= r.1 <= cs@.len(),
        r.0 == trim_lo(cs@),
        r.1 == trim_hi(cs@),
{
    let n = cs.len();
    let mut lo: usize = 0;
    while lo < n && space_char(cs[lo])
        invariant
            0 <= lo <= n == cs@.len(),
            first_non_space(cs@, 0) == first_non_space(cs@, lo as int),
        decreases n - lo,
    {
        lo = lo + 1;
    }
    assert(first_non_space(cs@, lo as int) == lo);
    let mut hi: usize = n;
    while hi > lo && space_char(cs[hi - 1])
        invariant
            lo <= hi <= n == cs@.len(),
            last_non_space(cs@, n as int, lo as int) == last_non_space(cs@, hi as int, lo as int),
        decreases hi,
    {
        hi = hi - 1;
    }
    assert(last_non_space(cs@, hi as int, lo as int) == hi);
    (lo, hi)
}

/// The characters of `cs` between `a` (inclusive) and `b` (exclusive).
pub fn sub_vec(cs: &Vec<char>, a: usize, b: usize) -> (r: Vec<char>)
    requires
        a <= b <= cs@.len(),
    ensures
        r@ == cs@.subrange(a as int, b as int),
{
    let mut r: Vec<char> = Vec::new();
    let mut i: usize = a;
    while i < b
        invariant
            a <= i <= b <= cs@.len(),
            r@ == cs@.subrange(a as int, i as int),
        decreases b - i,
    {
        r.push(cs[i]);
        assert(cs@.subrange(a as int, i + 1 as int) =~= cs@.subrange(a as int, i as int).push(
            cs@[i as int],
        ));
        i = i + 1;
    }
    r
}

/// Relies on `str::chars` and `Iterator::collect`: the characters of the
/// string, in order.
#[verifier::external_body]
pub(crate) fn str_chars(s: &str) -> (r: Vec<char>)
    ensures
        r@ == s@,
{
    s.chars().collect()
}

/// Relies on `String`'s `FromIterator` over characters: the string
/// holding exactly the given characters, in order.
#[verifier::external_body]
pub(crate) fn chars_to_string(cs: &Vec<char>) -> (r: String)
    ensures
        r@ == cs@,
{
    cs.iter().collect()
}

} // verus!
