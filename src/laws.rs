//! Laws of the survey, proved over the models that the functions' contracts use.
use crate::decls::{bump, data_structure_names, distinct, find_from, tally};
use crate::lines::substantive;
use crate::modules::{
    aggregate, key_index, put_key, record, record_all, summary_of, StructureModel, SummaryModel,
};
use crate::scan::{declared, DeclKind};
use crate::text::{is_space, opens_with, trim, trim_end, trim_start};
use crate::tree::{is_source_path, line_total, per_file_counts, source_count, struct_decls};
use vstd::prelude::*;

verus! {

proof fn lemma_trim_start_empty(s: Seq<char>)
    ensures
        trim_start(s).len() == 0 <==> forall|i: int| 0 <= i < s.len() ==> is_space(#[trigger] s[i]),
        trim_start(s).len() > 0 ==> !is_space(trim_start(s)[0]),
    decreases s.len(),
{
    if s.len() > 0 && is_space(s[0]) {
        lemma_trim_start_empty(s.drop_first());
        if trim_start(s).len() == 0 {
            assert forall|i: int| 0 <= i < s.len() implies is_space(#[trigger] s[i]) by {
                if i > 0 {
                    assert(s[i] == s.drop_first()[i - 1]);
                }
            }
        } else {
            let i = choose|i: int| 0 <= i < s.drop_first().len() && !is_space(s.drop_first()[i]);
            assert(!is_space(s[i + 1]));
        }
    } else if s.len() > 0 {
        assert(!is_space(s[0]));
    }
}

proof fn lemma_trim_end_keeps_head(t: Seq<char>)
    requires
        t.len() > 0,
        !is_space(t[0]),
    ensures
        trim_end(t).len() > 0,
        trim_end(t).len() <= t.len(),
        forall|i: int| 0 <= i < trim_end(t).len() ==> trim_end(t)[i] == t[i],
    decreases t.len(),
{
    if is_space(t.last()) {
        assert(t.len() > 1);
        lemma_trim_end_keeps_head(t.drop_last());
        assert forall|i: int| 0 <= i < trim_end(t).len() implies trim_end(t)[i] == t[i] by {
            assert(t.drop_last()[i] == t[i]);
        }
    }
}

/// A line counts (under the `//` rule) exactly when it is not all whitespace and
/// its trimmed form does not open with `//`; a blank line never counts.
pub proof fn lemma_line_classification(line: Seq<char>)
    ensures
        substantive(line, false) <==> (!(forall|i: int|
            0 <= i < line.len() ==> is_space(#[trigger] line[i])) && !opens_with(
            trim(line),
            '/',
            '/',
        )),
        line.len() == 0 ==> !substantive(line, false),
{
    lemma_trim_start_empty(line);
    if trim_start(line).len() > 0 {
        lemma_trim_end_keeps_head(trim_start(line));
    }
}

proof fn lemma_distinct(ns: Seq<Seq<char>>)
    ensures
        distinct(ns).no_duplicates(),
        distinct(ns).to_set() == ns.to_set(),
    decreases ns.len(),
{
    if ns.len() > 0 {
        let d = distinct(ns.drop_last());
        let x = ns.last();
        lemma_distinct(ns.drop_last());
        assert(ns =~= ns.drop_last().push(x));
        ns.drop_last().lemma_push_to_set_commute(x);
        if d.contains(x) {
            assert(d.to_set().insert(x) =~= d.to_set());
        } else {
            d.lemma_push_to_set_commute(x);
            assert(d.push(x).no_duplicates());
        }
    }
}

/// A file's function names are deduplicated: the list holds each name that follows
/// `fn` once, so it is as long as the set of those names, and as long as the list
/// of declarations where their names are distinct.
pub proof fn lemma_function_names_distinct(s: Seq<char>)
    ensures
        distinct(declared(s, DeclKind::Function)).no_duplicates(),
        distinct(declared(s, DeclKind::Function)).to_set() == declared(s, DeclKind::Function).to_set(),
        distinct(declared(s, DeclKind::Function)).len() == declared(
            s,
            DeclKind::Function,
        ).to_set().len(),
        declared(s, DeclKind::Function).no_duplicates() ==> distinct(
            declared(s, DeclKind::Function),
        ).len() == declared(s, DeclKind::Function).len(),
{
    let ns = declared(s, DeclKind::Function);
    lemma_distinct(ns);
    distinct(ns).unique_seq_to_set();
    if ns.no_duplicates() {
        ns.unique_seq_to_set();
    }
}

/// How many times `n` occurs in `ns`.
pub open spec fn occurrences(ns: Seq<Seq<char>>, n: Seq<char>) -> nat
    decreases ns.len(),
{
    if ns.len() == 0 {
        0
    } else {
        occurrences(ns.drop_last(), n) + if ns.last() == n {
            1nat
        } else {
            0nat
        }
    }
}

/// The counter of `n` in `t`, or zero where `t` has none.
pub open spec fn counter_of(t: Seq<(Seq<char>, nat)>, n: Seq<char>) -> nat {
    let k = find_from(t, n, 0);
    if k < t.len() {
        t[k].1
    } else {
        0
    }
}

proof fn lemma_find_from(t: Seq<(Seq<char>, nat)>, n: Seq<char>, k: int)
    requires
        0 <= k <= t.len(),
    ensures
        k <= find_from(t, n, k) <= t.len(),
        find_from(t, n, k) < t.len() ==> t[find_from(t, n, k)].0 == n,
        forall|j: int| k <= j < find_from(t, n, k) ==> t[j].0 != n,
    decreases t.len() - k,
{
    if k < t.len() && t[k].0 != n {
        lemma_find_from(t, n, k + 1);
    }
}

/// The first index of `t` with the name `n` is `k` where `t[k]` has it and no
/// earlier entry does; `t.len()` where no entry has it.
proof fn lemma_find_is(t: Seq<(Seq<char>, nat)>, n: Seq<char>, k: int)
    requires
        0 <= k <= t.len(),
        k < t.len() ==> t[k].0 == n,
        forall|j: int| 0 <= j < k ==> t[j].0 != n,
    ensures
        find_from(t, n, 0) == k,
{
    lemma_find_from(t, n, 0);
    let r = find_from(t, n, 0);
    if r < k {
        assert(t[r].0 != n);
    }
    if r > k {
        assert(t[k].0 != n);
    }
}

/// The counters hold each name once.
pub open spec fn names_unique(t: Seq<(Seq<char>, nat)>) -> bool {
    forall|a: int, b: int| 0 <= a < b < t.len() ==> t[a].0 != t[b].0
}

/// Counting accumulates: in the counters of `ns` each name occurs once, and the
/// counter of any name `n` is how many times `n` occurs in `ns` (zero, with no
/// counter, where it does not).
pub proof fn lemma_tally_counts(ns: Seq<Seq<char>>, n: Seq<char>)
    ensures
        names_unique(tally(ns)),
        counter_of(tally(ns), n) == occurrences(ns, n),
        find_from(tally(ns), n, 0) < tally(ns).len() <==> occurrences(ns, n) > 0,
    decreases ns.len(),
{
    if ns.len() > 0 {
        let m = ns.last();
        let t = tally(ns.drop_last());
        lemma_tally_counts(ns.drop_last(), n);
        lemma_tally_counts(ns.drop_last(), m);
        lemma_find_from(t, m, 0);
        lemma_find_from(t, n, 0);
        let km = find_from(t, m, 0);
        let kn = find_from(t, n, 0);
        let t2 = bump(t, m);
        if km < t.len() {
            assert(t2 == t.update(km, (m, t[km].1 + 1)));
            assert(names_unique(t2));
            if m == n {
                lemma_find_is(t2, n, km);
            } else if kn < t.len() {
                lemma_find_is(t2, n, kn);
            } else {
                lemma_find_is(t2, n, t2.len() as int);
            }
        } else {
            assert(t2 == t.push((m, 1)));
            assert(names_unique(t2)) by {
                assert forall|a: int, b: int| 0 <= a < b < t2.len() implies t2[a].0 != t2[b].0 by {
                    if b == t.len() {
                        assert(t[a].0 != m);
                    }
                }
            }
            if m == n {
                lemma_find_is(t2, n, t.len() as int);
            } else if kn < t.len() {
                lemma_find_is(t2, n, kn);
            } else {
                lemma_find_is(t2, n, t2.len() as int);
            }
        }
    }
}

/// In a file's structure/enum counters each name has one counter, which equals the
/// number of its declarations: a name declared twice counts 2, and another name
/// has a counter of its own.
pub proof fn lemma_data_structure_counts(s: Seq<char>, n: Seq<char>)
    ensures
        names_unique(tally(data_structure_names(s))),
        counter_of(tally(data_structure_names(s)), n) == occurrences(data_structure_names(s), n),
{
    lemma_tally_counts(data_structure_names(s), n);
}

/// A file that is not a source file changes nothing: not the file count, the line
/// total, the per-file counts, the structure declarations nor the module inventory.
pub proof fn lemma_non_source_ignored(
    files: Seq<(Seq<char>, Seq<char>)>,
    f: (Seq<char>, Seq<char>),
)
    requires
        !is_source_path(f.0),
    ensures
        source_count(files.push(f)) == source_count(files),
        line_total(files.push(f)) == line_total(files),
        per_file_counts(files.push(f)) == per_file_counts(files),
        struct_decls(files.push(f)) == struct_decls(files),
        aggregate(files.push(f)) == aggregate(files),
{
    assert(files.push(f).drop_last() =~= files);
}

/// Two source files that each declare the module `m` (and no other) are both
/// recorded under the one entry of `m`, in order.
pub proof fn lemma_shared_module(
    a: Seq<char>,
    ca: Seq<char>,
    b: Seq<char>,
    cb: Seq<char>,
    m: Seq<char>,
)
    requires
        is_source_path(a),
        is_source_path(b),
        a != b,
        declared(ca, DeclKind::Module) == seq![m],
        declared(cb, DeclKind::Module) == seq![m],
    ensures
        aggregate(seq![(a, ca), (b, cb)]) == seq![(m, seq![(a, summary_of(ca)), (b, summary_of(cb))])],
{
    let files = seq![(a, ca), (b, cb)];
    assert(files.drop_last() =~= seq![(a, ca)]);
    assert(seq![(a, ca)].drop_last() =~= Seq::<(Seq<char>, Seq<char>)>::empty());
    assert(seq![m].drop_last() =~= Seq::<Seq<char>>::empty());
    let empty = Seq::<(Seq<char>, crate::modules::FilesModel)>::empty();
    assert(aggregate(Seq::<(Seq<char>, Seq<char>)>::empty()) == empty);
    assert(seq![(a, ca)].last() == (a, ca));
    assert(record_all(empty, seq![m], a, summary_of(ca)) == record(
        record_all(empty, Seq::<Seq<char>>::empty(), a, summary_of(ca)),
        m,
        a,
        summary_of(ca),
    ));
    assert(key_index(empty, m, 0) == 0);
    assert(record(empty, m, a, summary_of(ca)) =~= seq![(m, seq![(a, summary_of(ca))])]);
    let first = aggregate(seq![(a, ca)]);
    assert(first =~= seq![(m, seq![(a, summary_of(ca))])]);
    let fs = seq![(a, summary_of(ca))];
    assert(key_index(fs, b, 1) == 1);
    assert(key_index(fs, b, 0) == 1);
    assert(key_index(first, m, 0) == 0);
    assert(put_key(fs, b, summary_of(cb)) =~= seq![(a, summary_of(ca)), (b, summary_of(cb))]);
    assert(files.last() == (b, cb));
    assert(record_all(first, seq![m], b, summary_of(cb)) == record(
        record_all(first, Seq::<Seq<char>>::empty(), b, summary_of(cb)),
        m,
        b,
        summary_of(cb),
    ));
    assert(aggregate(files) =~= seq![(m, seq![(a, summary_of(ca)), (b, summary_of(cb))])]);
}

/// Each key of `s` stands once.
pub open spec fn keys_unique<V>(s: Seq<(Seq<char>, V)>) -> bool {
    forall|a: int, b: int| 0 <= a < b < s.len() ==> s[a].0 != s[b].0
}

/// Each module stands once in the inventory, and each file once under a module.
pub open spec fn inventory_wf(ms: StructureModel) -> bool {
    keys_unique(ms) && forall|k: int| 0 <= k < ms.len() ==> keys_unique(#[trigger] ms[k].1)
}

proof fn lemma_key_index<V>(s: Seq<(Seq<char>, V)>, key: Seq<char>, k: int)
    requires
        0 <= k <= s.len(),
    ensures
        k <= key_index(s, key, k) <= s.len(),
        key_index(s, key, k) < s.len() ==> s[key_index(s, key, k)].0 == key,
        forall|j: int| k <= j < key_index(s, key, k) ==> s[j].0 != key,
    decreases s.len() - k,
{
    if k < s.len() && s[k].0 != key {
        lemma_key_index(s, key, k + 1);
    }
}

proof fn lemma_put_key_unique<V>(s: Seq<(Seq<char>, V)>, key: Seq<char>, v: V)
    requires
        keys_unique(s),
    ensures
        keys_unique(put_key(s, key, v)),
{
    lemma_key_index(s, key, 0);
    let t = put_key(s, key, v);
    assert forall|a: int, b: int| 0 <= a < b < t.len() implies t[a].0 != t[b].0 by {
        if b == s.len() {
            assert(s[a].0 != key);
        }
    }
}

/// Recording a module match keeps the inventory well formed.
pub proof fn lemma_record_wf(ms: StructureModel, m: Seq<char>, p: Seq<char>, sm: SummaryModel)
    requires
        inventory_wf(ms),
    ensures
        inventory_wf(record(ms, m, p, sm)),
{
    lemma_key_index(ms, m, 0);
    let k = key_index(ms, m, 0);
    let r = record(ms, m, p, sm);
    if k < ms.len() {
        lemma_put_key_unique(ms[k].1, p, sm);
    }
    assert forall|a: int, b: int| 0 <= a < b < r.len() implies r[a].0 != r[b].0 by {
        if b == ms.len() {
            assert(ms[a].0 != m);
        }
    }
    assert forall|j: int| 0 <= j < r.len() implies keys_unique(#[trigger] r[j].1) by {
        if j < ms.len() && j != k {
            assert(r[j] == ms[j]);
        }
    }
}

proof fn lemma_record_all_wf(ms: StructureModel, mods: Seq<Seq<char>>, p: Seq<char>, sm: SummaryModel)
    requires
        inventory_wf(ms),
    ensures
        inventory_wf(record_all(ms, mods, p, sm)),
    decreases mods.len(),
{
    if mods.len() > 0 {
        lemma_record_all_wf(ms, mods.drop_last(), p, sm);
        lemma_record_wf(record_all(ms, mods.drop_last(), p, sm), mods.last(), p, sm);
    }
}

/// The inventory of any list of files holds each module name once, and under
/// each module each file path once: a later match replaces, it never adds a twin.
pub proof fn lemma_inventory_wf(files: Seq<(Seq<char>, Seq<char>)>)
    ensures
        inventory_wf(aggregate(files)),
    decreases files.len(),
{
    if files.len() > 0 {
        lemma_inventory_wf(files.drop_last());
        let f = files.last();
        if is_source_path(f.0) {
            lemma_record_all_wf(
                aggregate(files.drop_last()),
                declared(f.1, DeclKind::Module),
                f.0,
                summary_of(f.1),
            );
        }
    }
}

} // verus!
