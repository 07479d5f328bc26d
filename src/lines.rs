//! Which lines count toward a file's size, and how many of them a text holds.
use crate::text::{chars_of, opens_with, trim, trim_range};
use vstd::prelude::*;

verus! {

/// A line counts unless, once trimmed, it is empty or opens a `//` comment.
/// Under the strict rule a line that opens with `/*` or `*/` does not count either;
/// lines inside a block comment that open otherwise still count.
pub open spec fn substantive(line: Seq<char>, strict: bool) -> bool {
    let t = trim(line);
    t.len() > 0 && !opens_with(t, '/', '/') && (strict ==> !opens_with(t, '/', '*')
        && !opens_with(t, '*', '/'))
}

/// How many lines of `s` count, scanning from `i` with the current line opened at
/// `start`. Lines end at each '\n' (the '\n' is not part of them); what follows the
/// last '\n' is a line when it is not empty.
pub open spec fn count_from(s: Seq<char>, start: int, i: int, strict: bool) -> nat
    decreases s.len() - i,
{
    if i >= s.len() {
        if start < s.len() && substantive(s.subrange(start, s.len() as int), strict) {
            1
        } else {
            0
        }
    } else if s[i] == '\n' {
        (if substantive(s.subrange(start, i), strict) {
            1nat
        } else {
            0nat
        }) + count_from(s, i + 1, i + 1, strict)
    } else {
        count_from(s, start, i + 1, strict)
    }
}

/// How many lines of `s` count.
pub open spec fn line_count(s: Seq<char>, strict: bool) -> nat {
    count_from(s, 0, 0, strict)
}

/// Whether `v[lo..hi]` counts as a line.
pub fn substantive_range(v: &Vec<char>, lo: usize, hi: usize, strict: bool) -> (r: bool)
    requires
        lo <= hi <= v@.len(),
    ensures
        r == substantive(v@.subrange(lo as int, hi as int), strict),
{
    let (a, b) = trim_range(v, lo, hi);
    let ghost t = v@.subrange(a as int, b as int);
    if a == b {
        return false;
    }
    assert(t.len() > 0);
    let two = b - a >= 2;
    let c0 = v[a];
    let c1 = if two {
        v[a + 1]
    } else {
        ' '
    };
    assert(two ==> t[0] == c0 && t[1] == c1);
    if two && c0 == '/' && c1 == '/' {
        return false;
    }
    if strict && two && ((c0 == '/' && c1 == '*') || (c0 == '*' && c1 == '/')) {
        return false;
    }
    true
}

/// The lines of `v` that count; never more than `v` has characters.
pub fn count_lines_in(v: &Vec<char>, strict: bool) -> (r: usize)
    ensures
        r == line_count(v@, strict),
        r <= v@.len(),
{
    let n = v.len();
    let mut acc: usize = 0;
    let mut start: usize = 0;
    let mut i: usize = 0;
    while i < n
        invariant
            n == v@.len(),
            acc <= start <= i <= n,
            acc + count_from(v@, start as int, i as int, strict) == line_count(v@, strict),
        decreases n - i,
    {
        if v[i] == '\n' {
            if substantive_range(v, start, i, strict) {
                acc = acc + 1;
            }
            start = i + 1;
        }
        i = i + 1;
    }
    if start < n && substantive_range(v, start, n, strict) {
        acc = acc + 1;
    }
    acc
}

/// Whether `line` counts: not blank and not a `//` comment once trimmed.
pub fn is_substantive_line(line: &str) -> (r: bool)
    ensures
        r == substantive(line@, false),
{
    let v = chars_of(line);
    assert(v@.subrange(0, v@.len() as int) =~= v@);
    substantive_range(&v, 0, v.len(), false)
}

/// Whether `line` counts under the strict rule, which also passes over lines
/// that open with `/*` or `*/`.
pub fn is_substantive_line_strict(line: &str) -> (r: bool)
    ensures
        r == substantive(line@, true),
{
    let v = chars_of(line);
    assert(v@.subrange(0, v@.len() as int) =~= v@);
    substantive_range(&v, 0, v.len(), true)
}

/// The lines of `content` that are neither blank nor comment-only, under the
/// strict rule.
pub fn count_non_blank_non_comment_lines(content: &str) -> (r: usize)
    ensures
        r == line_count(content@, true),
        r <= content@.len(),
{
    let v = chars_of(content);
    count_lines_in(&v, true)
}

/// The lines of `content` that are neither blank nor `//` comments.
pub fn count_substantive_lines(content: &str) -> (r: usize)
    ensures
        r == line_count(content@, false),
        r <= content@.len(),
{
    let v = chars_of(content);
    count_lines_in(&v, false)
}

} // verus!
