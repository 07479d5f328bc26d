//! What one line typed at the module prompt asks for.
use crate::text::{chars_of, trim, trim_range};
use vstd::prelude::*;

verus! {

/// The reading of one line typed at the module prompt.
#[derive(Clone, Copy, Debug, PartialEq, Eq, Structural)]
pub enum Selection {
    /// The line asks to leave the loop.
    Quit,
    /// The line picks the module at this index (counted from zero).
    Show(usize),
    /// The line is a number, but no module has it.
    OutOfRange,
    /// The line is neither a number nor the quit signal.
    Invalid,
}

/// Whether `c` is an ASCII decimal digit.
pub open spec fn is_digit(c: char) -> bool {
    '0' <= c && c <= '9'
}

/// The value of the decimal digits `s`.
pub open spec fn digits_value(s: Seq<char>) -> nat
    decreases s.len(),
{
    if s.len() == 0 {
        0
    } else {
        digits_value(s.drop_last()) * 10 + (s.last() as nat - '0' as nat) as nat
    }
}

/// The digits of a number as `usize`'s `from_str` reads it: an optional `+`
/// followed by the rest.
pub open spec fn unsigned_digits(s: Seq<char>) -> Seq<char> {
    if s.len() > 0 && s[0] == '+' {
        s.drop_first()
    } else {
        s
    }
}

/// The number that `s` writes, as `usize`'s `from_str` reads it: at least one
/// decimal digit after an optional `+`, and a value that fits in a `usize`.
pub open spec fn parse_unsigned(s: Seq<char>) -> Option<nat> {
    let d = unsigned_digits(s);
    if d.len() > 0 && (forall|i: int| 0 <= i < d.len() ==> is_digit(#[trigger] d[i]))
        && digits_value(d) <= usize::MAX {
        Some(digits_value(d))
    } else {
        None
    }
}

/// What the line `input` asks for when `count` modules are listed: once trimmed,
/// `q` quits; a number from 1 to `count` picks that module; another number is out
/// of range; anything else is invalid.
pub open spec fn selection_for(input: Seq<char>, count: nat) -> Selection {
    let t = trim(input);
    if t == seq!['q'] {
        Selection::Quit
    } else {
        match parse_unsigned(t) {
            Some(v) => if 1 <= v && v <= count {
                Selection::Show((v - 1) as usize)
            } else {
                Selection::OutOfRange
            },
            None => Selection::Invalid,
        }
    }
}

/// A prefix of a run of digits has no greater value.
pub proof fn lemma_digits_value_prefix(s: Seq<char>, i: int)
    requires
        0 <= i <= s.len(),
        forall|k: int| 0 <= k < s.len() ==> is_digit(#[trigger] s[k]),
    ensures
        digits_value(s.subrange(0, i)) <= digits_value(s),
    decreases s.len(),
{
    if i < s.len() {
        lemma_digits_value_prefix(s.drop_last(), i);
        assert(s.drop_last().subrange(0, i) =~= s.subrange(0, i));
    } else {
        assert(s.subrange(0, i) =~= s);
    }
}

/// The number that `v[lo..hi]` writes (see `parse_unsigned`).
fn parse_range(v: &Vec<char>, lo: usize, hi: usize) -> (r: Option<usize>)
    requires
        lo <= hi <= v@.len(),
    ensures
        r matches Some(x) ==> parse_unsigned(v@.subrange(lo as int, hi as int)) == Some(x as nat),
        r is None ==> parse_unsigned(v@.subrange(lo as int, hi as int)) is None,
{
    let ghost s = v@.subrange(lo as int, hi as int);
    let mut a = lo;
    if a < hi && v[a] == '+' {
        a = a + 1;
    }
    let ghost d = unsigned_digits(s);
    assert(d =~= v@.subrange(a as int, hi as int));
    if a == hi {
        return None;
    }
    let mut acc: usize = 0;
    let mut i = a;
    while i < hi
        invariant
            a <= i <= hi <= v@.len(),
            d == v@.subrange(a as int, hi as int),
            d == unsigned_digits(v@.subrange(lo as int, hi as int)),
            d.len() > 0,
            forall|k: int| 0 <= k < i - a ==> is_digit(#[trigger] d[k]),
            acc == digits_value(d.subrange(0, i - a)),
        decreases hi - i,
    {
        let c = v[i];
        if !('0' <= c && c <= '9') {
            assert(!is_digit(d[i - a]));
            return None;
        }
        assert(d.subrange(0, i - a + 1).drop_last() =~= d.subrange(0, i - a));
        assert(d.subrange(0, i - a + 1).last() == c);
        let digit = (c as u32 - '0' as u32) as usize;
        match acc.checked_mul(10) {
            Some(m) => match m.checked_add(digit) {
                Some(t) => {
                    acc = t;
                },
                None => {
                    proof {
                        lemma_overflow_is_final(d, i - a);
                    }
                    return None;
                },
            },
            None => {
                proof {
                    lemma_overflow_is_final(d, i - a);
                }
                return None;
            },
        }
        i = i + 1;
    }
    assert(d.subrange(0, hi - a) =~= d);
    Some(acc)
}

/// Where the value of the first `j + 1` digits exceeds `usize::MAX`, `d` writes
/// no `usize` (or is no run of digits).
proof fn lemma_overflow_is_final(d: Seq<char>, j: int)
    requires
        0 <= j < d.len(),
        digits_value(d.subrange(0, j + 1)) > usize::MAX,
    ensures
        !((forall|i: int| 0 <= i < d.len() ==> is_digit(#[trigger] d[i])) && digits_value(d)
            <= usize::MAX),
{
    if forall|i: int| 0 <= i < d.len() ==> is_digit(#[trigger] d[i]) {
        lemma_digits_value_prefix(d, j + 1);
    }
}

/// What the line `input` asks for when `module_count` modules are listed.
pub fn interpret_selection(input: &str, module_count: usize) -> (r: Selection)
    ensures
        r == selection_for(input@, module_count as nat),
{
    let v = chars_of(input);
    assert(v@.subrange(0, v@.len() as int) =~= v@);
    let (a, b) = trim_range(&v, 0, v.len());
    let ghost t = v@.subrange(a as int, b as int);
    if b - a == 1 && v[a] == 'q' {
        assert(t =~= seq!['q']);
        return Selection::Quit;
    }
    assert(t != seq!['q']) by {
        if t == seq!['q'] {
            assert(t.len() == 1 && t[0] == 'q');
        }
    }
    match parse_range(&v, a, b) {
        Some(x) => {
            if 1 <= x && x <= module_count {
                Selection::Show(x - 1)
            } else {
                Selection::OutOfRange
            }
        },
        None => Selection::Invalid,
    }
}

} // verus!
