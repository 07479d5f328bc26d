//! The files of a walked tree, and which of them are source files.
use crate::decls::counts_view;
use crate::lines::{count_lines_in, line_count};
use crate::scan::{scan, scan_chars, views, DeclKind};
use crate::text::chars_of;
use vstd::prelude::*;

verus! {

/// A walked file: its path relative to the scanned root, and its text.
pub struct SourceFile {
    pub path: String,
    pub content: String,
}

impl View for SourceFile {
    type V = (Seq<char>, Seq<char>);

    open spec fn view(&self) -> (Seq<char>, Seq<char>) {
        (self.path@, self.content@)
    }
}

/// The views of a list of files.
pub open spec fn files_view(fs: Seq<SourceFile>) -> Seq<(Seq<char>, Seq<char>)> {
    fs.map_values(|f: SourceFile| f@)
}

/// Whether the path `p` names a Rust source file: its last component has the
/// extension `rs`, that is it ends in `.rs` with at least one character before
/// the dot in that component.
pub open spec fn is_source_path(p: Seq<char>) -> bool {
    let n = p.len();
    n >= 4 && p[n - 3] == '.' && p[n - 2] == 'r' && p[n - 1] == 's' && p[n - 4] != '/'
}

/// Whether the path `p` names a Rust source file.
pub fn path_names_source(p: &str) -> (r: bool)
    ensures
        r == is_source_path(p@),
{
    let v = chars_of(p);
    let n = v.len();
    n >= 4 && v[n - 3] == '.' && v[n - 2] == 'r' && v[n - 1] == 's' && v[n - 4] != '/'
}

/// How many of `fs` are source files.
pub open spec fn source_count(fs: Seq<(Seq<char>, Seq<char>)>) -> nat
    decreases fs.len(),
{
    if fs.len() == 0 {
        0
    } else {
        source_count(fs.drop_last()) + if is_source_path(fs.last().0) {
            1nat
        } else {
            0nat
        }
    }
}

/// The substantive lines (strict rule) of the source files of `fs`, summed.
pub open spec fn line_total(fs: Seq<(Seq<char>, Seq<char>)>) -> nat
    decreases fs.len(),
{
    if fs.len() == 0 {
        0
    } else {
        line_total(fs.drop_last()) + if is_source_path(fs.last().0) {
            line_count(fs.last().1, true)
        } else {
            0nat
        }
    }
}

/// The characters of all the texts of `fs`, summed.
pub open spec fn char_total(fs: Seq<(Seq<char>, Seq<char>)>) -> nat
    decreases fs.len(),
{
    if fs.len() == 0 {
        0
    } else {
        char_total(fs.drop_last()) + fs.last().1.len()
    }
}

/// Each source file of `fs` with its substantive lines under the `//` rule.
pub open spec fn per_file_counts(fs: Seq<(Seq<char>, Seq<char>)>) -> Seq<(Seq<char>, nat)>
    decreases fs.len(),
{
    if fs.len() == 0 {
        seq![]
    } else if is_source_path(fs.last().0) {
        per_file_counts(fs.drop_last()).push((fs.last().0, line_count(fs.last().1, false)))
    } else {
        per_file_counts(fs.drop_last())
    }
}

/// Each structure declaration with its body in the source files of `fs`, with
/// the path of its file, file by file.
pub open spec fn struct_decls(fs: Seq<(Seq<char>, Seq<char>)>) -> Seq<(Seq<char>, Seq<char>)>
    decreases fs.len(),
{
    if fs.len() == 0 {
        seq![]
    } else if is_source_path(fs.last().0) {
        struct_decls(fs.drop_last()) + scan(fs.last().1, DeclKind::Structure.keyword(), true).map_values(
            |d: Seq<char>| (fs.last().0, d),
        )
    } else {
        struct_decls(fs.drop_last())
    }
}

/// The view of a list of (path, text) pairs.
pub open spec fn pairs_view(v: Seq<(String, String)>) -> Seq<(Seq<char>, Seq<char>)> {
    v.map_values(|e: (String, String)| (e.0@, e.1@))
}

/// A prefix of `fs` holds no more characters than `fs`.
pub proof fn lemma_char_total_prefix(fs: Seq<(Seq<char>, Seq<char>)>, i: int)
    requires
        0 <= i <= fs.len(),
    ensures
        char_total(fs.subrange(0, i)) <= char_total(fs),
    decreases fs.len(),
{
    if i < fs.len() {
        lemma_char_total_prefix(fs.drop_last(), i);
        assert(fs.drop_last().subrange(0, i) =~= fs.subrange(0, i));
    } else {
        assert(fs.subrange(0, i) =~= fs);
    }
}

/// How many of `files` are source files, and their substantive lines (strict
/// rule) summed; the other files count for nothing.
pub fn count_files_and_lines(files: &Vec<SourceFile>) -> (r: (usize, usize))
    requires
        char_total(files_view(files@)) <= usize::MAX,
    ensures
        r.0 == source_count(files_view(files@)),
        r.1 == line_total(files_view(files@)),
{
    let ghost fv = files_view(files@);
    let mut count: usize = 0;
    let mut total: usize = 0;
    let mut i: usize = 0;
    while i < files.len()
        invariant
            i <= files@.len(),
            fv == files_view(files@),
            char_total(fv) <= usize::MAX,
            count <= i,
            count == source_count(fv.subrange(0, i as int)),
            total == line_total(fv.subrange(0, i as int)),
            total <= char_total(fv.subrange(0, i as int)),
        decreases files@.len() - i,
    {
        assert(fv.subrange(0, i + 1).drop_last() =~= fv.subrange(0, i as int));
        assert(fv.subrange(0, i + 1).last() == files@[i as int]@);
        proof {
            lemma_char_total_prefix(fv, i + 1);
        }
        if path_names_source(files[i].path.as_str()) {
            let v = chars_of(files[i].content.as_str());
            let n = count_lines_in(&v, true);
            count = count + 1;
            total = total + n;
        }
        i = i + 1;
    }
    assert(fv.subrange(0, files@.len() as int) =~= fv);
    (count, total)
}

/// How many of `files` are source files, and each of them with its path and its
/// substantive lines under the `//` rule.
pub fn line_counts_per_file(files: &Vec<SourceFile>) -> (r: (usize, Vec<(String, usize)>))
    ensures
        r.0 == source_count(files_view(files@)),
        counts_view(r.1@) == per_file_counts(files_view(files@)),
{
    let ghost fv = files_view(files@);
    let mut count: usize = 0;
    let mut out: Vec<(String, usize)> = Vec::new();
    let mut i: usize = 0;
    while i < files.len()
        invariant
            i <= files@.len(),
            fv == files_view(files@),
            count <= i,
            count == source_count(fv.subrange(0, i as int)),
            counts_view(out@) == per_file_counts(fv.subrange(0, i as int)),
        decreases files@.len() - i,
    {
        assert(fv.subrange(0, i + 1).drop_last() =~= fv.subrange(0, i as int));
        assert(fv.subrange(0, i + 1).last() == files@[i as int]@);
        if path_names_source(files[i].path.as_str()) {
            let v = chars_of(files[i].content.as_str());
            let n = count_lines_in(&v, false);
            let p = files[i].path.clone();
            let ghost before = counts_view(out@);
            out.push((p, n));
            assert(counts_view(out@) =~= before.push((files@[i as int].path@, n as nat)));
            count = count + 1;
        }
        i = i + 1;
    }
    assert(fv.subrange(0, files@.len() as int) =~= fv);
    (count, out)
}

/// Each structure declaration with its body (from `struct` to the first `}` after
/// its `{`) in the source files of `files`, with the path of its file.
pub fn extract_struct_declarations(files: &Vec<SourceFile>) -> (r: Vec<(String, String)>)
    ensures
        pairs_view(r@) == struct_decls(files_view(files@)),
{
    let ghost fv = files_view(files@);
    let kw = DeclKind::Structure.keyword_chars();
    let mut out: Vec<(String, String)> = Vec::new();
    let mut i: usize = 0;
    while i < files.len()
        invariant
            i <= files@.len(),
            fv == files_view(files@),
            kw@ == DeclKind::Structure.keyword(),
            pairs_view(out@) == struct_decls(fv.subrange(0, i as int)),
        decreases files@.len() - i,
    {
        assert(fv.subrange(0, i + 1).drop_last() =~= fv.subrange(0, i as int));
        assert(fv.subrange(0, i + 1).last() == files@[i as int]@);
        if path_names_source(files[i].path.as_str()) {
            let ghost p = files@[i as int].path@;
            let v = chars_of(files[i].content.as_str());
            let ds = scan_chars(&v, &kw, true);
            let ghost base = pairs_view(out@);
            let ghost all = views(ds@).map_values(|d: Seq<char>| (p, d));
            let mut j: usize = 0;
            while j < ds.len()
                invariant
                    j <= ds@.len(),
                    i < files@.len(),
                    all == views(ds@).map_values(|d: Seq<char>| (p, d)),
                    p == files@[i as int].path@,
                    pairs_view(out@) == base + all.subrange(0, j as int),
                decreases ds@.len() - j,
            {
                let ghost before = pairs_view(out@);
                let pc = files[i].path.clone();
                let dc = ds[j].clone();
                assert(pc@ == p && dc@ == ds@[j as int]@);
                out.push((pc, dc));
                assert(pairs_view(out@) =~= before.push((p, ds@[j as int]@)));
                assert(all.subrange(0, j + 1) =~= all.subrange(0, j as int).push(all[j as int]));
                j = j + 1;
            }
            assert(all.subrange(0, ds@.len() as int) =~= all);
        }
        i = i + 1;
    }
    assert(fv.subrange(0, files@.len() as int) =~= fv);
    out
}

} // verus!
