//! What one file declares: its module names, its distinct function names and
//! how often each structure or enum name occurs.
use crate::scan::{declared, scan, scan_chars, views, DeclKind};
use crate::text::chars_of;
use vstd::prelude::*;

verus! {

/// The first index at or after `k` whose entry carries the name `n`, or `t.len()`.
pub open spec fn find_from(t: Seq<(Seq<char>, nat)>, n: Seq<char>, k: int) -> int
    decreases t.len() - k,
{
    if 0 <= k < t.len() {
        if t[k].0 == n {
            k
        } else {
            find_from(t, n, k + 1)
        }
    } else {
        t.len() as int
    }
}

/// One more occurrence of `n`: its counter goes up by one, or a new counter at 1
/// is added at the end.
pub open spec fn bump(t: Seq<(Seq<char>, nat)>, n: Seq<char>) -> Seq<(Seq<char>, nat)> {
    let k = find_from(t, n, 0);
    if k < t.len() {
        t.update(k, (n, t[k].1 + 1))
    } else {
        t.push((n, 1))
    }
}

/// The counters of the names in `ns`, in order of first occurrence.
pub open spec fn tally(ns: Seq<Seq<char>>) -> Seq<(Seq<char>, nat)>
    decreases ns.len(),
{
    if ns.len() == 0 {
        seq![]
    } else {
        bump(tally(ns.drop_last()), ns.last())
    }
}

/// The view of a list of (name, count) pairs.
pub open spec fn counts_view(t: Seq<(String, usize)>) -> Seq<(Seq<char>, nat)> {
    t.map_values(|e: (String, usize)| (e.0@, e.1 as nat))
}

/// The names whose structure or enum declarations `s` holds, structures first.
pub open spec fn data_structure_names(s: Seq<char>) -> Seq<Seq<char>> {
    declared(s, DeclKind::Structure) + declared(s, DeclKind::Enum)
}

/// The index of a string equal to `x` in `v`, if there is one.
pub fn position_of(v: &Vec<String>, x: &String) -> (r: Option<usize>)
    ensures
        r matches Some(k) ==> k < v@.len() && v@[k as int]@ == x@,
        r is None ==> forall|k: int| 0 <= k < v@.len() ==> v@[k]@ != x@,
{
    let mut k: usize = 0;
    while k < v.len()
        invariant
            k <= v@.len(),
            forall|m: int| 0 <= m < k ==> v@[m]@ != x@,
        decreases v@.len() - k,
    {
        if v[k] == *x {
            return Some(k);
        }
        k = k + 1;
    }
    None
}

/// Each name of `ns` once, in order of first occurrence.
pub open spec fn distinct(ns: Seq<Seq<char>>) -> Seq<Seq<char>>
    decreases ns.len(),
{
    if ns.len() == 0 {
        seq![]
    } else if distinct(ns.drop_last()).contains(ns.last()) {
        distinct(ns.drop_last())
    } else {
        distinct(ns.drop_last()).push(ns.last())
    }
}

/// Each name of `ns` once, in order of first occurrence.
pub fn distinct_names(ns: &Vec<String>) -> (r: Vec<String>)
    ensures
        views(r@) == distinct(views(ns@)),
{
    let mut out: Vec<String> = Vec::new();
    let mut i: usize = 0;
    while i < ns.len()
        invariant
            i <= ns@.len(),
            views(out@) == distinct(views(ns@).subrange(0, i as int)),
        decreases ns@.len() - i,
    {
        let ghost x = ns@[i as int]@;
        let ghost before = views(out@);
        assert(views(ns@).subrange(0, i + 1).drop_last() =~= views(ns@).subrange(0, i as int));
        assert(views(ns@).subrange(0, i + 1).last() == x);
        match position_of(&out, &ns[i]) {
            Some(k) => {
                assert(before[k as int] == x);
            },
            None => {
                out.push(ns[i].clone());
                assert(views(out@) =~= before.push(x));
            },
        }
        i = i + 1;
    }
    assert(views(ns@).subrange(0, ns@.len() as int) =~= views(ns@));
    out
}

/// The counters of the names in `ns`: one (name, count) pair per distinct name, in
/// order of first occurrence.
pub fn tally_names(ns: &Vec<String>) -> (r: Vec<(String, usize)>)
    ensures
        counts_view(r@) == tally(views(ns@)),
{
    let mut t: Vec<(String, usize)> = Vec::new();
    let mut i: usize = 0;
    while i < ns.len()
        invariant
            i <= ns@.len(),
            counts_view(t@) == tally(views(ns@).subrange(0, i as int)),
            forall|m: int| 0 <= m < t@.len() ==> t@[m].1 <= i,
        decreases ns@.len() - i,
    {
        let ghost tv = counts_view(t@);
        let ghost n = ns@[i as int]@;
        assert(views(ns@).subrange(0, i + 1).drop_last() =~= views(ns@).subrange(0, i as int));
        assert(views(ns@).subrange(0, i + 1).last() == n);
        let mut j: usize = 0;
        while j < t.len() && !(t[j].0 == ns[i])
            invariant
                i < ns@.len(),
                n == ns@[i as int]@,
                j <= t@.len(),
                tv == counts_view(t@),
                find_from(tv, n, 0) == find_from(tv, n, j as int),
            decreases t@.len() - j,
        {
            assert(tv[j as int].0 != n);
            j = j + 1;
        }
        if j < t.len() {
            assert(tv[j as int].0 == n);
            let c = t[j].1;
            let name = t[j].0.clone();
            t.set(j, (name, c + 1));
            assert(counts_view(t@) =~= tv.update(j as int, (n, tv[j as int].1 + 1)));
        } else {
            t.push((ns[i].clone(), 1));
            assert(counts_view(t@) =~= tv.push((n, 1)));
        }
        i = i + 1;
    }
    assert(views(ns@).subrange(0, ns@.len() as int) =~= views(ns@));
    t
}

/// The names that follow `mod` in `v`, in order, repeats kept.
pub fn module_names_in(v: &Vec<char>) -> (r: Vec<String>)
    ensures
        views(r@) == declared(v@, DeclKind::Module),
{
    let kw = DeclKind::Module.keyword_chars();
    scan_chars(v, &kw, false)
}

/// The distinct names that follow `fn` in `v`.
pub fn function_names_in(v: &Vec<char>) -> (r: Vec<String>)
    ensures
        views(r@) == distinct(declared(v@, DeclKind::Function)),
{
    let kw = DeclKind::Function.keyword_chars();
    let all = scan_chars(v, &kw, false);
    distinct_names(&all)
}

/// How often each name that follows `struct` or `enum` in `v` occurs.
pub fn data_structures_in(v: &Vec<char>) -> (r: Vec<(String, usize)>)
    ensures
        counts_view(r@) == tally(data_structure_names(v@)),
{
    let skw = DeclKind::Structure.keyword_chars();
    let ekw = DeclKind::Enum.keyword_chars();
    let mut all = scan_chars(v, &skw, false);
    let mut enums = scan_chars(v, &ekw, false);
    let ghost s0 = views(all@);
    let ghost e0 = views(enums@);
    all.append(&mut enums);
    assert(views(all@) =~= s0 + e0);
    tally_names(&all)
}

/// The names of the modules that `content` declares, in order, repeats kept.
pub fn module_names(content: &str) -> (r: Vec<String>)
    ensures
        views(r@) == declared(content@, DeclKind::Module),
{
    let v = chars_of(content);
    module_names_in(&v)
}

/// The distinct names of the functions that `content` declares.
pub fn function_names(content: &str) -> (r: Vec<String>)
    ensures
        views(r@) == distinct(declared(content@, DeclKind::Function)),
{
    let v = chars_of(content);
    function_names_in(&v)
}

/// Each structure or enum name that `content` declares, with how often it occurs.
pub fn data_structure_counts(content: &str) -> (r: Vec<(String, usize)>)
    ensures
        counts_view(r@) == tally(data_structure_names(content@)),
{
    let v = chars_of(content);
    data_structures_in(&v)
}

/// The structure declarations of `content` with their bodies, each from `struct`
/// to the first `}` after its `{`.
pub fn struct_declarations(content: &str) -> (r: Vec<String>)
    ensures
        views(r@) == scan(content@, DeclKind::Structure.keyword(), true),
{
    let v = chars_of(content);
    let kw = DeclKind::Structure.keyword_chars();
    scan_chars(&v, &kw, true)
}

} // verus!
