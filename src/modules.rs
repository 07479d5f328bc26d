//! The module inventory: for each module name, the files whose text declares it,
//! with each file's size, function names and structure/enum counters.
use crate::decls::{
    counts_view, data_structure_names, data_structures_in, distinct, function_names_in,
    module_names_in, tally,
};
use crate::laws::{inventory_wf, lemma_inventory_wf, lemma_record_wf};
use crate::lines::{count_lines_in, line_count};
use crate::scan::{declared, views, DeclKind};
use crate::text::chars_of;
use crate::tree::{files_view, is_source_path, path_names_source, SourceFile};
use vstd::prelude::*;

verus! {

/// A file's size, its distinct function names and its structure/enum counters.
pub type SummaryModel = (nat, Seq<Seq<char>>, Seq<(Seq<char>, nat)>);

/// The files under one module, by path, in order of first insertion.
pub type FilesModel = Seq<(Seq<char>, SummaryModel)>;

/// The modules by name, in order of first insertion.
pub type StructureModel = Seq<(Seq<char>, FilesModel)>;

/// What one file contributes: its substantive lines (strict rule), its distinct
/// function names and its structure/enum counters.
pub struct FileSummary {
    pub line_count: usize,
    pub functions: Vec<String>,
    pub data_structures: Vec<(String, usize)>,
}

impl View for FileSummary {
    type V = SummaryModel;

    open spec fn view(&self) -> SummaryModel {
        (self.line_count as nat, views(self.functions@), counts_view(self.data_structures@))
    }
}

/// One file recorded under a module.
pub struct FileEntry {
    pub path: String,
    pub summary: FileSummary,
}

impl View for FileEntry {
    type V = (Seq<char>, SummaryModel);

    open spec fn view(&self) -> (Seq<char>, SummaryModel) {
        (self.path@, self.summary@)
    }
}

/// One module name with the files that declare it.
pub struct ModuleEntry {
    pub name: String,
    pub files: Vec<FileEntry>,
}

impl View for ModuleEntry {
    type V = (Seq<char>, FilesModel);

    open spec fn view(&self) -> (Seq<char>, FilesModel) {
        (self.name@, self.files@.map_values(|f: FileEntry| f@))
    }
}

/// The module inventory of a tree.
pub struct ModuleStructure {
    pub modules: Vec<ModuleEntry>,
}

impl View for ModuleStructure {
    type V = StructureModel;

    open spec fn view(&self) -> StructureModel {
        self.modules@.map_values(|m: ModuleEntry| m@)
    }
}

/// The first index at or after `k` whose entry has the key `key`, or `s.len()`.
pub open spec fn key_index<V>(s: Seq<(Seq<char>, V)>, key: Seq<char>, k: int) -> int
    decreases s.len() - k,
{
    if 0 <= k < s.len() {
        if s[k].0 == key {
            k
        } else {
            key_index(s, key, k + 1)
        }
    } else {
        s.len() as int
    }
}

/// `s` with the value under `key` set to `v`: replaced where the key is there,
/// added at the end where it is not.
pub open spec fn put_key<V>(s: Seq<(Seq<char>, V)>, key: Seq<char>, v: V) -> Seq<(Seq<char>, V)> {
    let k = key_index(s, key, 0);
    if k < s.len() {
        s.update(k, (key, v))
    } else {
        s.push((key, v))
    }
}

/// The inventory after one `mod m` was found in the file `p`: the module's entry
/// is made where it is missing, and the file's sub-entry under it set to `sm`.
pub open spec fn record(ms: StructureModel, m: Seq<char>, p: Seq<char>, sm: SummaryModel) -> StructureModel {
    let k = key_index(ms, m, 0);
    if k < ms.len() {
        ms.update(k, (m, put_key(ms[k].1, p, sm)))
    } else {
        ms.push((m, seq![(p, sm)]))
    }
}

/// The inventory after each of the module names `mods`, in order, was found in `p`.
pub open spec fn record_all(ms: StructureModel, mods: Seq<Seq<char>>, p: Seq<char>, sm: SummaryModel) -> StructureModel
    decreases mods.len(),
{
    if mods.len() == 0 {
        ms
    } else {
        record(record_all(ms, mods.drop_last(), p, sm), mods.last(), p, sm)
    }
}

/// What the file text `s` contributes under each module it declares.
pub open spec fn summary_of(s: Seq<char>) -> SummaryModel {
    (
        line_count(s, true),
        distinct(declared(s, DeclKind::Function)),
        tally(data_structure_names(s)),
    )
}

/// The inventory of the (path, text) pairs `files`, taken in order; files that
/// are not source files are passed over.
pub open spec fn aggregate(files: Seq<(Seq<char>, Seq<char>)>) -> StructureModel
    decreases files.len(),
{
    if files.len() == 0 {
        seq![]
    } else {
        let prev = aggregate(files.drop_last());
        let f = files.last();
        if is_source_path(f.0) {
            record_all(prev, declared(f.1, DeclKind::Module), f.0, summary_of(f.1))
        } else {
            prev
        }
    }
}

/// The sum of the line counts in `fs`.
pub open spec fn files_line_total(fs: FilesModel) -> nat
    decreases fs.len(),
{
    if fs.len() == 0 {
        0
    } else {
        files_line_total(fs.drop_last()) + fs.last().1.0
    }
}

/// The substantive lines recorded under the module `m`, summed over its files;
/// zero where there is no such module.
pub open spec fn module_total(ms: StructureModel, m: Seq<char>) -> nat {
    let k = key_index(ms, m, 0);
    if k < ms.len() {
        files_line_total(ms[k].1)
    } else {
        0
    }
}

fn copy_counts(d: &Vec<(String, usize)>) -> (r: Vec<(String, usize)>)
    ensures
        counts_view(r@) == counts_view(d@),
{
    let mut r: Vec<(String, usize)> = Vec::new();
    let mut i: usize = 0;
    while i < d.len()
        invariant
            i <= d@.len(),
            counts_view(r@) == counts_view(d@).subrange(0, i as int),
        decreases d@.len() - i,
    {
        let c = d[i].0.clone();
        assert(c@ == d@[i as int].0@);
        let ghost before = counts_view(r@);
        let ghost e = (d@[i as int].0@, d@[i as int].1 as nat);
        r.push((c, d[i].1));
        assert(counts_view(r@) =~= before.push(e));
        assert(counts_view(d@).subrange(0, i + 1) =~= counts_view(d@).subrange(0, i as int).push(e));
        assert(counts_view(r@) =~= counts_view(d@).subrange(0, i + 1));
        i = i + 1;
    }
    assert(counts_view(d@).subrange(0, d@.len() as int) =~= counts_view(d@));
    r
}

fn copy_names(d: &Vec<String>) -> (r: Vec<String>)
    ensures
        views(r@) == views(d@),
{
    let mut r: Vec<String> = Vec::new();
    let mut i: usize = 0;
    while i < d.len()
        invariant
            i <= d@.len(),
            views(r@) == views(d@).subrange(0, i as int),
        decreases d@.len() - i,
    {
        let c = d[i].clone();
        assert(c@ == d@[i as int]@);
        let ghost before = views(r@);
        r.push(c);
        assert(views(r@) =~= before.push(d@[i as int]@));
        assert(views(d@).subrange(0, i + 1) =~= views(d@).subrange(0, i as int).push(d@[i as int]@));
        assert(views(r@) =~= views(d@).subrange(0, i + 1));
        i = i + 1;
    }
    assert(views(d@).subrange(0, d@.len() as int) =~= views(d@));
    r
}

impl FileSummary {
    /// A copy with the same view.
    pub fn duplicate(&self) -> (r: FileSummary)
        ensures
            r@ == self@,
    {
        FileSummary {
            line_count: self.line_count,
            functions: copy_names(&self.functions),
            data_structures: copy_counts(&self.data_structures),
        }
    }
}

/// Sets the sub-entry of the file `p` in `files` to `sm`.
fn put_file(files: &mut Vec<FileEntry>, p: &String, sm: &FileSummary)
    ensures
        final(files)@.map_values(|f: FileEntry| f@) == put_key(
            old(files)@.map_values(|f: FileEntry| f@),
            p@,
            sm@,
        ),
{
    let ghost fv = old(files)@.map_values(|f: FileEntry| f@);
    let mut k: usize = 0;
    while k < files.len() && !(files[k].path == *p)
        invariant
            k <= files@.len(),
            files@ == old(files)@,
            fv == files@.map_values(|f: FileEntry| f@),
            key_index(fv, p@, 0) == key_index(fv, p@, k as int),
        decreases files@.len() - k,
    {
        assert(fv[k as int].0 != p@);
        k = k + 1;
    }
    let entry = FileEntry { path: p.clone(), summary: sm.duplicate() };
    if k < files.len() {
        assert(fv[k as int].0 == p@);
        files.set(k, entry);
        assert(files@.map_values(|f: FileEntry| f@) =~= fv.update(k as int, (p@, sm@)));
    } else {
        files.push(entry);
        assert(files@.map_values(|f: FileEntry| f@) =~= fv.push((p@, sm@)));
    }
}

impl ModuleStructure {
    /// An inventory without modules.
    pub fn new() -> (r: ModuleStructure)
        ensures
            r@ == Seq::<(Seq<char>, FilesModel)>::empty(),
    {
        let r = ModuleStructure { modules: Vec::new() };
        assert(r@ =~= Seq::<(Seq<char>, FilesModel)>::empty());
        r
    }

    /// Records that the file `p`, summarised by `sm`, declares the module `m`.
    pub fn record(&mut self, m: &String, p: &String, sm: &FileSummary)
        ensures
            final(self)@ == record(old(self)@, m@, p@, sm@),
            inventory_wf(old(self)@) ==> inventory_wf(final(self)@),
    {
        proof {
            if inventory_wf(old(self)@) {
                lemma_record_wf(old(self)@, m@, p@, sm@);
            }
        }
        let ghost mv = old(self)@;
        let mut k: usize = 0;
        while k < self.modules.len() && !(self.modules[k].name == *m)
            invariant
                k <= self.modules@.len(),
                self.modules@ == old(self).modules@,
                mv == self@,
                key_index(mv, m@, 0) == key_index(mv, m@, k as int),
            decreases self.modules@.len() - k,
        {
            assert(mv[k as int].0 != m@);
            k = k + 1;
        }
        if k < self.modules.len() {
            assert(mv[k as int].0 == m@);
            let mut e = self.modules.remove(k);
            put_file(&mut e.files, p, sm);
            let ghost ev = e@;
            self.modules.insert(k, e);
            assert(self@ =~= mv.update(k as int, (m@, put_key(mv[k as int].1, p@, sm@))));
        } else {
            let mut files: Vec<FileEntry> = Vec::new();
            files.push(FileEntry { path: p.clone(), summary: sm.duplicate() });
            let e = ModuleEntry { name: m.clone(), files };
            assert(e@.1 =~= seq![(p@, sm@)]);
            self.modules.push(e);
            assert(self@ =~= mv.push((m@, seq![(p@, sm@)])));
        }
    }
}

/// A prefix of `fs` holds no more lines than `fs`.
pub proof fn lemma_files_line_total_prefix(fs: FilesModel, i: int)
    requires
        0 <= i <= fs.len(),
    ensures
        files_line_total(fs.subrange(0, i)) <= files_line_total(fs),
    decreases fs.len(),
{
    if i < fs.len() {
        lemma_files_line_total_prefix(fs.drop_last(), i);
        assert(fs.drop_last().subrange(0, i) =~= fs.subrange(0, i));
    } else {
        assert(fs.subrange(0, i) =~= fs);
    }
}

/// The module inventory of `files`: for each `mod` name found in the text of a
/// source file, in order, the module's entry gets that file's sub-entry (its
/// substantive lines under the strict rule, its distinct function names, its
/// structure/enum counters), replacing an earlier one of the same path.
pub fn analyze_modules(files: &Vec<SourceFile>) -> (r: ModuleStructure)
    ensures
        r@ == aggregate(files_view(files@)),
        inventory_wf(r@),
{
    proof {
        lemma_inventory_wf(files_view(files@));
    }
    let ghost fv = files_view(files@);
    let mut ms = ModuleStructure::new();
    let mut i: usize = 0;
    while i < files.len()
        invariant
            i <= files@.len(),
            fv == files_view(files@),
            ms@ == aggregate(fv.subrange(0, i as int)),
        decreases files@.len() - i,
    {
        assert(fv.subrange(0, i + 1).drop_last() =~= fv.subrange(0, i as int));
        assert(fv.subrange(0, i + 1).last() == files@[i as int]@);
        if path_names_source(files[i].path.as_str()) {
            let v = chars_of(files[i].content.as_str());
            let sm = FileSummary {
                line_count: count_lines_in(&v, true),
                functions: function_names_in(&v),
                data_structures: data_structures_in(&v),
            };
            let mods = module_names_in(&v);
            let ghost prev = ms@;
            let ghost p = files@[i as int].path@;
            let mut j: usize = 0;
            while j < mods.len()
                invariant
                    i < files@.len(),
                    j <= mods@.len(),
                    p == files@[i as int].path@,
                    ms@ == record_all(prev, views(mods@).subrange(0, j as int), p, sm@),
                decreases mods@.len() - j,
            {
                assert(views(mods@).subrange(0, j + 1).drop_last() =~= views(mods@).subrange(
                    0,
                    j as int,
                ));
                ms.record(&mods[j], &files[i].path, &sm);
                j = j + 1;
            }
            assert(views(mods@).subrange(0, mods@.len() as int) =~= views(mods@));
        }
        i = i + 1;
    }
    assert(fv.subrange(0, files@.len() as int) =~= fv);
    ms
}

/// The substantive lines recorded under the module `module`, summed over its
/// files, where the sum fits in a `usize`; `None` where it does not. A module that
/// is not there has zero lines.
pub fn checked_lines_in_module(ms: &ModuleStructure, module: &str) -> (r: Option<usize>)
    ensures
        r is Some <==> module_total(ms@, module@) <= usize::MAX,
        r matches Some(t) ==> t == module_total(ms@, module@),
{
    let m = module.to_owned();
    let mut k: usize = 0;
    while k < ms.modules.len() && !(ms.modules[k].name == m)
        invariant
            k <= ms.modules@.len(),
            key_index(ms@, m@, 0) == key_index(ms@, m@, k as int),
        decreases ms.modules@.len() - k,
    {
        assert(ms@[k as int].0 != m@);
        k = k + 1;
    }
    if k == ms.modules.len() {
        return Some(0);
    }
    assert(ms@[k as int].0 == m@);
    let files = &ms.modules[k].files;
    let ghost fs = ms@[k as int].1;
    assert(fs == files@.map_values(|f: FileEntry| f@));
    assert(key_index(ms@, m@, 0) == k);
    assert(m@ == module@);
    let mut acc: usize = 0;
    let mut j: usize = 0;
    while j < files.len()
        invariant
            j <= files@.len(),
            fs == files@.map_values(|f: FileEntry| f@),
            k < ms@.len(),
            fs == ms@[k as int].1,
            m@ == module@,
            key_index(ms@, m@, 0) == k,
            acc == files_line_total(fs.subrange(0, j as int)),
        decreases files@.len() - j,
    {
        assert(fs.subrange(0, j + 1).drop_last() =~= fs.subrange(0, j as int));
        match acc.checked_add(files[j].summary.line_count) {
            Some(t) => {
                acc = t;
            },
            None => {
                proof {
                    assert(fs.subrange(0, j + 1).last().1.0 == files@[j as int].summary.line_count);
                    lemma_files_line_total_prefix(fs, j + 1);
                }
                return None;
            },
        }
        j = j + 1;
    }
    assert(fs.subrange(0, files@.len() as int) =~= fs);
    Some(acc)
}

/// The substantive lines recorded under the module `module`, summed over its
/// files; zero where there is no such module.
pub fn total_lines_in_module(ms: &ModuleStructure, module: &str) -> (r: usize)
    requires
        module_total(ms@, module@) <= usize::MAX,
    ensures
        r == module_total(ms@, module@),
{
    match checked_lines_in_module(ms, module) {
        Some(t) => t,
        None => 0,
    }
}

} // verus!
