//! Characters, whitespace trimming and the conversions between `str` and
//! character vectors that the scanners work on.
use vstd::prelude::*;

verus! {

/// The Unicode `White_Space` property: the characters that `char::is_whitespace`,
/// `str::trim` and the regex class `\s` treat as blank.
pub open spec fn is_space(c: char) -> bool {
    let u = c as u32;
    (0x9 <= u && u <= 0xD) || u == 0x20 || u == 0x85 || u == 0xA0 || u == 0x1680 || (0x2000
        <= u && u <= 0x200A) || u == 0x2028 || u == 0x2029 || u == 0x202F || u == 0x205F || u
        == 0x3000
}

/// Whether `c` belongs to the class that the regex escape `\w` names
/// (Unicode word characters).
pub uninterp spec fn word_char(c: char) -> bool;

pub fn is_space_char(c: char) -> (r: bool)
    ensures
        r == is_space(c),
{
    let u = c as u32;
    (0x9 <= u && u <= 0xD) || u == 0x20 || u == 0x85 || u == 0xA0 || u == 0x1680 || (0x2000
        <= u && u <= 0x200A) || u == 0x2028 || u == 0x2029 || u == 0x202F || u == 0x205F || u
        == 0x3000
}

/// Relies on `regex_syntax::is_word_character`, which decides membership in `\w`
/// (with the default `unicode-perl` feature it does not panic).
#[verifier::external_body]
pub(crate) fn is_word_char(c: char) -> (r: bool)
    ensures
        r == word_char(c),
{
    regex_syntax::is_word_character(c)
}

/// Relies on `str::chars`: the characters of `s`, in order.
#[verifier::external_body]
pub(crate) fn chars_of(s: &str) -> (r: Vec<char>)
    ensures
        r@ == s@,
{
    s.chars().collect()
}

/// Relies on `String`'s `FromIterator<char>`: the string of the characters `v[lo..hi]`.
#[verifier::external_body]
pub(crate) fn string_of(v: &Vec<char>, lo: usize, hi: usize) -> (r: String)
    requires
        lo <= hi <= v@.len(),
    ensures
        r@ == v@.subrange(lo as int, hi as int),
{
    v[lo..hi].iter().collect()
}

/// `s` without its leading whitespace.
pub open spec fn trim_start(s: Seq<char>) -> Seq<char>
    decreases s.len(),
{
    if s.len() > 0 && is_space(s[0]) {
        trim_start(s.drop_first())
    } else {
        s
    }
}

/// `s` without its trailing whitespace.
pub open spec fn trim_end(s: Seq<char>) -> Seq<char>
    decreases s.len(),
{
    if s.len() > 0 && is_space(s.last()) {
        trim_end(s.drop_last())
    } else {
        s
    }
}

/// `s` without the whitespace around it, as `str::trim` gives it.
pub open spec fn trim(s: Seq<char>) -> Seq<char> {
    trim_end(trim_start(s))
}

/// Whether `s` opens with the two characters `a` and `b`.
pub open spec fn opens_with(s: Seq<char>, a: char, b: char) -> bool {
    s.len() >= 2 && s[0] == a && s[1] == b
}

/// The bounds of `trim(v[lo..hi])` within `v`.
pub fn trim_range(v: &Vec<char>, lo: usize, hi: usize) -> (r: (usize, usize))
    requires
        lo <= hi <= v@.len(),
    ensures
        lo <= r.0 <= r.1 <= hi,
        v@.subrange(r.0 as int, r.1 as int) == trim(v@.subrange(lo as int, hi as int)),
{
    let mut i: usize = lo;
    while i < hi && is_space_char(v[i])
        invariant
            lo <= i <= hi <= v@.len(),
            trim_start(v@.subrange(lo as int, hi as int)) == trim_start(
                v@.subrange(i as int, hi as int),
            ),
        decreases hi - i,
    {
        assert(v@.subrange(i as int, hi as int).drop_first() =~= v@.subrange(
            i + 1,
            hi as int,
        ));
        i = i + 1;
    }
    let mut j: usize = hi;
    while j > i && is_space_char(v[j - 1])
        invariant
            lo <= i <= j <= hi <= v@.len(),
            trim_start(v@.subrange(lo as int, hi as int)) == v@.subrange(i as int, hi as int),
            trim_end(v@.subrange(i as int, hi as int)) == trim_end(
                v@.subrange(i as int, j as int),
            ),
        decreases j,
    {
        assert(v@.subrange(i as int, j as int).drop_last() =~= v@.subrange(
            i as int,
            j - 1,
        ));
        j = j - 1;
    }
    (i, j)
}

} // verus!
