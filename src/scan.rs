//! Keyword scanning: the names that follow `mod`, `fn`, `struct` and `enum`,
//! found lexically, with no notion of strings, comments or scopes.
use crate::text::{is_space, is_space_char, is_word_char, string_of, word_char};
use vstd::prelude::*;

verus! {

/// The four declaration keywords that the scan looks for.
#[derive(Clone, Copy, Debug, PartialEq, Eq)]
pub enum DeclKind {
    Module,
    Function,
    Structure,
    Enum,
}

impl DeclKind {
    /// The keyword as written in source: `mod`, `fn`, `struct`, `enum`.
    pub open spec fn keyword(self) -> Seq<char> {
        match self {
            DeclKind::Module => seq!['m', 'o', 'd'],
            DeclKind::Function => seq!['f', 'n'],
            DeclKind::Structure => seq!['s', 't', 'r', 'u', 'c', 't'],
            DeclKind::Enum => seq!['e', 'n', 'u', 'm'],
        }
    }

    pub fn keyword_chars(&self) -> (r: Vec<char>)
        ensures
            r@ == self.keyword(),
    {
        let mut r: Vec<char> = Vec::new();
        match self {
            DeclKind::Module => {
                r.push('m');
                r.push('o');
                r.push('d');
            },
            DeclKind::Function => {
                r.push('f');
                r.push('n');
            },
            DeclKind::Structure => {
                r.push('s');
                r.push('t');
                r.push('r');
                r.push('u');
                r.push('c');
                r.push('t');
            },
            DeclKind::Enum => {
                r.push('e');
                r.push('n');
                r.push('u');
                r.push('m');
            },
        }
        assert(r@ =~= self.keyword());
        r
    }
}

/// End of the run of whitespace in `s` that starts at `i`.
pub open spec fn space_run_end(s: Seq<char>, i: int) -> int
    decreases s.len() - i,
{
    if 0 <= i < s.len() && is_space(s[i]) {
        space_run_end(s, i + 1)
    } else {
        i
    }
}

/// End of the run of word characters in `s` that starts at `i`.
pub open spec fn word_run_end(s: Seq<char>, i: int) -> int
    decreases s.len() - i,
{
    if 0 <= i < s.len() && word_char(s[i]) {
        word_run_end(s, i + 1)
    } else {
        i
    }
}

/// The first `}` in `s` at or after `i`, or `s.len()` where there is none.
pub open spec fn close_brace(s: Seq<char>, i: int) -> int
    decreases s.len() - i,
{
    if 0 <= i < s.len() && s[i] != '}' {
        close_brace(s, i + 1)
    } else {
        i
    }
}

/// Whether `kw` is written in `s` at `i`.
pub open spec fn keyword_at(s: Seq<char>, kw: Seq<char>, i: int) -> bool {
    0 <= i && i + kw.len() <= s.len() && s.subrange(i, i + kw.len()) == kw
}

/// The match of `kw\s+(\w+)` that starts at `i`, or with `body` of
/// `kw\s+(\w+)\s*\{[^}]*\}`. Its result gives what the match yields, as bounds
/// in `s`: the captured name, or with `body` the whole declaration up to the
/// first `}` after its `{`. The second bound is also where the match ends.
pub open spec fn match_at(s: Seq<char>, kw: Seq<char>, body: bool, i: int) -> Option<(int, int)> {
    if !keyword_at(s, kw, i) {
        None
    } else {
        let k = i + kw.len();
        let j = space_run_end(s, k);
        if !(k < j && j < s.len() && word_char(s[j])) {
            None
        } else {
            let e = word_run_end(s, j);
            if !body {
                Some((j, e))
            } else {
                let f = space_run_end(s, e);
                if f < s.len() && s[f] == '{' && close_brace(s, f + 1) < s.len() {
                    Some((i, close_brace(s, f + 1) + 1))
                } else {
                    None
                }
            }
        }
    }
}

/// What the matches in `s` yield, from position `i` on, where no match may start
/// before `resume`: leftmost first, each search going on where the last match ended.
pub open spec fn scan_from(s: Seq<char>, kw: Seq<char>, body: bool, i: int, resume: int) -> Seq<
    Seq<char>,
>
    decreases s.len() - i,
{
    if i >= s.len() {
        seq![]
    } else if i >= resume && match_at(s, kw, body, i) is Some {
        let m = match_at(s, kw, body, i)->Some_0;
        seq![s.subrange(m.0, m.1)] + scan_from(s, kw, body, i + 1, m.1)
    } else {
        scan_from(s, kw, body, i + 1, resume)
    }
}

/// What the matches in `s` yield, in order.
pub open spec fn scan(s: Seq<char>, kw: Seq<char>, body: bool) -> Seq<Seq<char>> {
    scan_from(s, kw, body, 0, 0)
}

/// The names that the declarations of `kind` in `s` carry, in order, repeats kept.
pub open spec fn declared(s: Seq<char>, kind: DeclKind) -> Seq<Seq<char>> {
    scan(s, kind.keyword(), false)
}

/// The views of a vector of strings.
pub open spec fn views(v: Seq<String>) -> Seq<Seq<char>> {
    v.map_values(|x: String| x@)
}

fn space_end(v: &Vec<char>, i: usize) -> (r: usize)
    requires
        i <= v@.len(),
    ensures
        i <= r <= v@.len(),
        r == space_run_end(v@, i as int),
{
    let mut j = i;
    while j < v.len() && is_space_char(v[j])
        invariant
            i <= j <= v@.len(),
            space_run_end(v@, i as int) == space_run_end(v@, j as int),
        decreases v@.len() - j,
    {
        j = j + 1;
    }
    j
}

fn word_end(v: &Vec<char>, i: usize) -> (r: usize)
    requires
        i <= v@.len(),
    ensures
        i <= r <= v@.len(),
        r == word_run_end(v@, i as int),
{
    let mut j = i;
    while j < v.len() && is_word_char(v[j])
        invariant
            i <= j <= v@.len(),
            word_run_end(v@, i as int) == word_run_end(v@, j as int),
        decreases v@.len() - j,
    {
        j = j + 1;
    }
    j
}

fn brace_end(v: &Vec<char>, i: usize) -> (r: usize)
    requires
        i <= v@.len(),
    ensures
        i <= r <= v@.len(),
        r == close_brace(v@, i as int),
{
    let mut j = i;
    while j < v.len() && v[j] != '}'
        invariant
            i <= j <= v@.len(),
            close_brace(v@, i as int) == close_brace(v@, j as int),
        decreases v@.len() - j,
    {
        j = j + 1;
    }
    j
}

fn keyword_here(v: &Vec<char>, kw: &Vec<char>, i: usize) -> (r: bool)
    requires
        i <= v@.len(),
    ensures
        r == keyword_at(v@, kw@, i as int),
        r ==> i + kw@.len() <= v@.len(),
{
    if kw.len() > v.len() - i {
        return false;
    }
    let mut k: usize = 0;
    while k < kw.len()
        invariant
            i + kw@.len() <= v@.len(),
            v@.len() <= usize::MAX,
            k <= kw@.len(),
            forall|m: int| 0 <= m < k ==> v@[i + m] == kw@[m],
        decreases kw@.len() - k,
    {
        if v[i + k] != kw[k] {
            assert(v@.subrange(i as int, i + kw@.len())[k as int] != kw@[k as int]);
            return false;
        }
        k = k + 1;
    }
    assert(v@.subrange(i as int, i + kw@.len()) =~= kw@);
    true
}

fn match_here(v: &Vec<char>, kw: &Vec<char>, body: bool, i: usize) -> (r: Option<(usize, usize)>)
    requires
        i <= v@.len(),
    ensures
        r is None <==> match_at(v@, kw@, body, i as int) is None,
        r matches Some(p) ==> match_at(v@, kw@, body, i as int) == Some((p.0 as int, p.1 as int))
            && p.0 <= p.1 <= v@.len(),
{
    let n = v.len();
    if !keyword_here(v, kw, i) {
        return None;
    }
    assert(i + kw@.len() <= n);
    let k = i + kw.len();
    let j = space_end(v, k);
    if !(k < j && j < v.len() && is_word_char(v[j])) {
        return None;
    }
    let e = word_end(v, j);
    if !body {
        return Some((j, e));
    }
    let f = space_end(v, e);
    if f < v.len() && v[f] == '{' {
        let g = brace_end(v, f + 1);
        if g < v.len() {
            return Some((i, g + 1));
        }
    }
    None
}

/// What the matches in `v` yield, in order (see `scan`).
pub fn scan_chars(v: &Vec<char>, kw: &Vec<char>, body: bool) -> (r: Vec<String>)
    ensures
        views(r@) == scan(v@, kw@, body),
{
    let n = v.len();
    let mut out: Vec<String> = Vec::new();
    let mut i: usize = 0;
    let mut resume: usize = 0;
    while i < n
        invariant
            n == v@.len(),
            i <= n,
            views(out@) + scan_from(v@, kw@, body, i as int, resume as int) == scan(
                v@,
                kw@,
                body,
            ),
        decreases n - i,
    {
        let ghost before = views(out@);
        if i >= resume {
            match match_here(v, kw, body, i) {
                Some((a, b)) => {
                    let name = string_of(v, a, b);
                    out.push(name);
                    assert(views(out@) =~= before.push(v@.subrange(a as int, b as int)));
                    assert(views(out@) + scan_from(v@, kw@, body, i + 1, b as int) =~= before + (
                    seq![v@.subrange(a as int, b as int)] + scan_from(
                        v@,
                        kw@,
                        body,
                        i + 1,
                        b as int,
                    )));
                    resume = b;
                },
                None => {},
            }
        }
        i = i + 1;
    }
    out
}

} // verus!
