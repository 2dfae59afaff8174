//! The inference driver: the candidates of every specifier of a file.

use vstd::prelude::*;
use crate::collector::{collect, contains_text, distinct_set, raw_imports, string_views};
use crate::path::{dir_of, dir_of_path, join_path, normalize, normalize_path};
use crate::pattern::star_free;
use crate::resolve::{
    entry_view, is_relative, is_relative_exec, join_path_exec, resolve, resolve_exec, table_view,
    Import, ImportPattern, ImportView,
};
use crate::text::{chars_of, string_of};

verus! {

/// What a file's package declares: its root, its subpath imports, the root
/// of its path aliases (when it differs) and the path aliases.
#[derive(Debug, Clone, Default)]
pub struct JavascriptInferenceMetadata {
    pub package_root: String,
    pub import_patterns: Vec<ImportPattern>,
    pub config_root: Option<String>,
    pub paths: Vec<ImportPattern>,
}

/// The candidates of one specifier: workspace files and packages.
#[derive(Debug, Clone)]
pub struct JavascriptImportInfo {
    pub file_imports: Vec<String>,
    pub package_imports: Vec<String>,
}

/// The candidates of every specifier of a file, keyed by the specifier as
/// written.
#[derive(Debug, Clone)]
pub struct InferenceOutput {
    pub imports: Vec<(String, JavascriptImportInfo)>,
}

/// Why inference refused its input.
#[derive(Debug, Clone, Copy, PartialEq, Eq, Structural)]
pub enum InferenceError {
    /// A pattern holds more than one `*`, or a replacement holds a `*` while
    /// its pattern holds none.
    InvalidMetadata,
}

impl JavascriptImportInfo {
    /// The candidates `file_imports` and `package_imports`, each kept once.
    pub fn new(file_imports: Vec<String>, package_imports: Vec<String>) -> (r: JavascriptImportInfo)
        ensures
            info_is(r, (string_views(file_imports@).to_set(), string_views(package_imports@).to_set())),
    {
        JavascriptImportInfo { file_imports: distinct(&file_imports), package_imports: distinct(&package_imports) }
    }
}

/// The strings of `v`, each once, in the order of their first occurrence.
fn distinct(v: &Vec<String>) -> (r: Vec<String>)
    ensures
        distinct_set(string_views(r@), string_views(v@).to_set()),
{
    let mut r: Vec<String> = Vec::new();
    let ghost sv = string_views(v@);
    assert(string_views(r@).to_set() =~= sv.subrange(0, 0).to_set());
    for j in 0..v.len()
        invariant
            sv == string_views(v@),
            string_views(r@).no_duplicates(),
            string_views(r@).to_set() == sv.subrange(0, j as int).to_set(),
    {
        let c = chars_of(v[j].as_str());
        push_unique(&mut r, &c);
        assert(sv.subrange(0, j + 1) =~= sv.subrange(0, j as int).push(sv[j as int]));
        assert(sv.subrange(0, j + 1).to_set() =~= sv.subrange(0, j as int).to_set().insert(sv[j as int])) by {
            assert forall|x: Seq<char>| sv.subrange(0, j + 1).contains(x) <==> sv.subrange(0, j as int).to_set().insert(sv[j as int]).contains(x) by {
                let a = sv.subrange(0, j as int);
                let b = sv.subrange(0, j + 1);
                if b.contains(x) {
                    let m = choose|m: int| 0 <= m < b.len() && b[m] == x;
                    if m < j {
                        assert(a[m] == x);
                    }
                }
                if a.contains(x) {
                    let m = choose|m: int| 0 <= m < a.len() && a[m] == x;
                    assert(b[m] == x);
                }
                if x == sv[j as int] {
                    assert(b[j as int] == x);
                }
            }
        }
    }
    assert(sv.subrange(0, v.len() as int) =~= sv);
    r
}

/// The directory under which path aliases resolve.
pub open spec fn alias_anchor(md: JavascriptInferenceMetadata) -> Seq<char> {
    match md.config_root {
        Some(c) => c@,
        None => md.package_root@,
    }
}

/// No two positions of `p` hold a `*`.
pub open spec fn at_most_one_star(p: Seq<char>) -> bool {
    forall|a: int, b: int| 0 <= a < b < p.len() && #[trigger] p[a] == '*' ==> #[trigger] p[b] != '*'
}

/// A pattern entry that the pattern syntax admits.
pub open spec fn valid_entry(e: (Seq<char>, Seq<Seq<char>>)) -> bool {
    &&& at_most_one_star(e.0)
    &&& star_free(e.0) ==> forall|j: int| 0 <= j < e.1.len() ==> star_free(#[trigger] e.1[j])
}

/// Every entry of both tables is admitted.
pub open spec fn valid_metadata(md: JavascriptInferenceMetadata) -> bool {
    &&& forall|j: int| 0 <= j < md.import_patterns.len() ==> valid_entry(
        #[trigger] table_view(md.import_patterns@)[j],
    )
    &&& forall|j: int| 0 <= j < md.paths.len() ==> valid_entry(#[trigger] table_view(md.paths@)[j])
}

/// The file candidates among `c`.
pub open spec fn file_set(c: Seq<(ImportView, bool)>) -> Set<Seq<char>> {
    Set::new(|x: Seq<char>| exists|j: int| 0 <= j < c.len() && (#[trigger] c[j]).1 && c[j].0.text() == x)
}

/// The package candidates among `c`.
pub open spec fn package_set(c: Seq<(ImportView, bool)>) -> Set<Seq<char>> {
    Set::new(|x: Seq<char>| exists|j: int| 0 <= j < c.len() && !(#[trigger] c[j]).1 && c[j].0.text() == x)
}

/// The file candidates of a resolution, none where nothing matched.
pub open spec fn files_of(r: Option<Seq<(ImportView, bool)>>) -> Set<Seq<char>> {
    match r {
        Some(c) => file_set(c),
        None => Set::empty(),
    }
}

/// The package candidates of a resolution, none where nothing matched.
pub open spec fn packages_of(r: Option<Seq<(ImportView, bool)>>) -> Set<Seq<char>> {
    match r {
        Some(c) => package_set(c),
        None => Set::empty(),
    }
}

/// The file and package candidates of specifier `s` of a file in directory
/// `dir`. A relative specifier names one file, normalized under `dir`, or as
/// written where it rises above the root. A bare specifier goes through both
/// the subpath imports (anchored at the package root) and the path aliases
/// (anchored at the alias root), and their candidates are combined; `s`
/// itself is a package candidate where an alias matched, or where neither
/// table did.
pub open spec fn info_of(dir: Seq<char>, md: JavascriptInferenceMetadata, s: Seq<char>) -> (Set<Seq<char>>, Set<Seq<char>>) {
    if is_relative(s) {
        let file = match normalize(join_path(dir, s)) {
            Some(n) => n,
            None => s,
        };
        (set![file], Set::empty())
    } else {
        let sub = resolve(md.package_root@, table_view(md.import_patterns@), s);
        let alias = resolve(alias_anchor(md), table_view(md.paths@), s);
        let packages = packages_of(sub).union(packages_of(alias));
        (
            files_of(sub).union(files_of(alias)),
            if alias is Some || sub is None {
                packages.insert(s)
            } else {
                packages
            },
        )
    }
}

/// The candidate sets of `info`, each held once in its vector.
pub open spec fn info_is(info: JavascriptImportInfo, sets: (Set<Seq<char>>, Set<Seq<char>>)) -> bool {
    &&& distinct_set(string_views(info.file_imports@), sets.0)
    &&& distinct_set(string_views(info.package_imports@), sets.1)
}

/// The keys of an output.
pub open spec fn output_keys(out: InferenceOutput) -> Seq<Seq<char>> {
    out.imports@.map_values(|e: (String, JavascriptImportInfo)| e.0@)
}

/// `out` holds each specifier of `raws` once, with its candidates for a file
/// in `dir` under `md`.
pub open spec fn output_is(
    out: InferenceOutput,
    dir: Seq<char>,
    md: JavascriptInferenceMetadata,
    raws: Set<Seq<char>>,
) -> bool {
    &&& distinct_set(output_keys(out), raws)
    &&& forall|j: int|
        0 <= j < out.imports.len() ==> info_is(
            (#[trigger] out.imports@[j]).1,
            info_of(dir, md, out.imports@[j].0@),
        )
}

fn star_free_exec(p: &Vec<char>) -> (r: bool)
    ensures
        r == star_free(p@),
{
    for m in 0..p.len()
        invariant
            forall|j: int| 0 <= j < m ==> p@[j] != '*',
    {
        if p[m] == '*' {
            return false;
        }
    }
    true
}

fn at_most_one_star_exec(p: &Vec<char>) -> (r: bool)
    ensures
        r == at_most_one_star(p@),
{
    let mut seen: Option<usize> = None;
    for m in 0..p.len()
        invariant
            match seen {
                Some(a) => a < m && p@[a as int] == '*',
                None => forall|j: int| 0 <= j < m ==> p@[j] != '*',
            },
            forall|a: int, b: int| 0 <= a < b < m && #[trigger] p@[a] == '*' ==> #[trigger] p@[b] != '*',
    {
        if p[m] == '*' {
            match seen {
                Some(a) => {
                    assert(p@[a as int] == '*' && a < m);
                    return false;
                },
                None => {
                    seen = Some(m);
                },
            }
        }
    }
    true
}

fn valid_entry_exec(e: &ImportPattern) -> (r: bool)
    ensures
        r == valid_entry(entry_view(*e)),
{
    let p = chars_of(e.pattern.as_str());
    if !at_most_one_star_exec(&p) {
        return false;
    }
    if !star_free_exec(&p) {
        return true;
    }
    let ghost reps = string_views(e.replacements@);
    for j in 0..e.replacements.len()
        invariant
            reps == string_views(e.replacements@),
            p@ == e.pattern@,
            star_free(p@),
            forall|m: int| 0 <= m < j ==> star_free(#[trigger] reps[m]),
    {
        let r = chars_of(e.replacements[j].as_str());
        if !star_free_exec(&r) {
            assert(!star_free(reps[j as int]));
            assert(entry_view(*e).1[j as int] == reps[j as int]);
            assert(j < entry_view(*e).1.len());
            assert(star_free(entry_view(*e).0));
            assert(!valid_entry(entry_view(*e)));
            return false;
        }
    }
    true
}

fn valid_table_exec(ps: &Vec<ImportPattern>) -> (r: bool)
    ensures
        r == forall|j: int| 0 <= j < ps.len() ==> valid_entry(#[trigger] table_view(ps@)[j]),
{
    for j in 0..ps.len()
        invariant
            forall|m: int| 0 <= m < j ==> valid_entry(#[trigger] table_view(ps@)[m]),
    {
        if !valid_entry_exec(&ps[j]) {
            assert(!valid_entry(table_view(ps@)[j as int]));
            return false;
        }
    }
    true
}

/// Adds `s` to `v` unless `v` holds it already.
fn push_unique(v: &mut Vec<String>, s: &Vec<char>)
    requires
        string_views(old(v)@).no_duplicates(),
    ensures
        string_views(final(v)@).no_duplicates(),
        string_views(final(v)@).to_set() == string_views(old(v)@).to_set().insert(s@),
{
    let ghost before = string_views(v@);
    if contains_text(v, s) {
        assert(before.to_set().insert(s@) =~= before.to_set());
    } else {
        v.push(string_of(s));
        let ghost now = string_views(v@);
        assert(now =~= before.push(s@));
        assert forall|x: Seq<char>| now.contains(x) <==> before.to_set().insert(s@).contains(x) by {
            if x == s@ {
                assert(now[before.len() as int] == x);
            } else if before.contains(x) {
                let i = choose|i: int| 0 <= i < before.len() && before[i] == x;
                assert(now[i] == x);
            }
        }
        assert(now.to_set() =~= before.to_set().insert(s@));
    }
}

fn import_text(i: &Import) -> (r: Vec<char>)
    ensures
        r@ == i@.text(),
{
    match i {
        Import::Matched(s) => chars_of(s.as_str()),
        Import::Unmatched(s) => chars_of(s.as_str()),
    }
}

/// Adds the file candidates of `cands` to `files`, and its package candidates
/// to `packages`.
fn add_candidates(files: &mut Vec<String>, packages: &mut Vec<String>, cands: &Vec<(Import, bool)>)
    requires
        string_views(old(files)@).no_duplicates(),
        string_views(old(packages)@).no_duplicates(),
    ensures
        string_views(final(files)@).no_duplicates(),
        string_views(final(packages)@).no_duplicates(),
        string_views(final(files)@).to_set() == string_views(old(files)@).to_set().union(
            file_set(cands@.map_values(|x: (Import, bool)| (x.0@, x.1))),
        ),
        string_views(final(packages)@).to_set() == string_views(old(packages)@).to_set().union(
            package_set(cands@.map_values(|x: (Import, bool)| (x.0@, x.1))),
        ),
{
    let ghost c = cands@.map_values(|x: (Import, bool)| (x.0@, x.1));
    let ghost f0 = string_views(files@).to_set();
    let ghost p0 = string_views(packages@).to_set();
    for j in 0..cands.len()
        invariant
            c == cands@.map_values(|x: (Import, bool)| (x.0@, x.1)),
            string_views(files@).no_duplicates(),
            string_views(packages@).no_duplicates(),
            string_views(files@).to_set() == f0.union(file_set(c.subrange(0, j as int))),
            string_views(packages@).to_set() == p0.union(package_set(c.subrange(0, j as int))),
    {
        let t = import_text(&cands[j].0);
        let ghost fs = string_views(files@).to_set();
        let ghost ps = string_views(packages@).to_set();
        if cands[j].1 {
            push_unique(files, &t);
        } else {
            push_unique(packages, &t);
        }
        let ghost c1 = c.subrange(0, j + 1);
        let ghost c0 = c.subrange(0, j as int);
        assert(file_set(c1) =~= if c[j as int].1 { file_set(c0).insert(t@) } else { file_set(c0) }) by {
            assert forall|x: Seq<char>| file_set(c1).contains(x) implies (if c[j as int].1 { file_set(c0).insert(t@) } else { file_set(c0) }).contains(x) by {
                let m = choose|m: int| 0 <= m < c1.len() && (#[trigger] c1[m]).1 && c1[m].0.text() == x;
                if m < j {
                    assert(c0[m] == c1[m]);
                }
            }
            assert forall|x: Seq<char>| (if c[j as int].1 { file_set(c0).insert(t@) } else { file_set(c0) }).contains(x) implies file_set(c1).contains(x) by {
                if file_set(c0).contains(x) {
                    let m = choose|m: int| 0 <= m < c0.len() && (#[trigger] c0[m]).1 && c0[m].0.text() == x;
                    assert(c1[m] == c0[m]);
                } else {
                    assert(c1[j as int] == c[j as int]);
                }
            }
        }
        assert(package_set(c1) =~= if !c[j as int].1 { package_set(c0).insert(t@) } else { package_set(c0) }) by {
            assert forall|x: Seq<char>| package_set(c1).contains(x) implies (if !c[j as int].1 { package_set(c0).insert(t@) } else { package_set(c0) }).contains(x) by {
                let m = choose|m: int| 0 <= m < c1.len() && !(#[trigger] c1[m]).1 && c1[m].0.text() == x;
                if m < j {
                    assert(c0[m] == c1[m]);
                }
            }
            assert forall|x: Seq<char>| (if !c[j as int].1 { package_set(c0).insert(t@) } else { package_set(c0) }).contains(x) implies package_set(c1).contains(x) by {
                if package_set(c0).contains(x) {
                    let m = choose|m: int| 0 <= m < c0.len() && !(#[trigger] c0[m]).1 && c0[m].0.text() == x;
                    assert(c1[m] == c0[m]);
                } else {
                    assert(c1[j as int] == c[j as int]);
                }
            }
        }
        assert(string_views(files@).to_set() =~= f0.union(file_set(c1)));
        assert(string_views(packages@).to_set() =~= p0.union(package_set(c1)));
    }
    assert(c.subrange(0, cands.len() as int) =~= c);
}

/// The candidates of specifier `s` of a file in directory `dir`.
fn info_for(dir: &Vec<char>, md: &JavascriptInferenceMetadata, s: &str) -> (r: JavascriptImportInfo)
    ensures
        info_is(r, info_of(dir@, *md, s@)),
{
    let sc = chars_of(s);
    let mut files: Vec<String> = Vec::new();
    let mut packages: Vec<String> = Vec::new();
    assert(string_views(files@).to_set() =~= Set::empty());
    assert(string_views(packages@).to_set() =~= Set::empty());
    if is_relative_exec(&sc) {
        let joined = join_path_exec(dir, &sc);
        match normalize_path(&joined) {
            Some(n) => push_unique(&mut files, &n),
            None => push_unique(&mut files, &sc),
        }
        assert(string_views(files@).to_set() =~= info_of(dir@, *md, s@).0);
    } else {
        let root = chars_of(md.package_root.as_str());
        let anchor = match &md.config_root {
            Some(c) => chars_of(c.as_str()),
            None => chars_of(md.package_root.as_str()),
        };
        let sub = resolve_exec(&root, &md.import_patterns, s);
        let alias = resolve_exec(&anchor, &md.paths, s);
        let sub_matched = sub.is_some();
        let alias_matched = alias.is_some();
        match sub {
            Some(c) => add_candidates(&mut files, &mut packages, &c),
            None => {},
        }
        match alias {
            Some(c) => add_candidates(&mut files, &mut packages, &c),
            None => {},
        }
        if alias_matched || !sub_matched {
            push_unique(&mut packages, &sc);
        }
        assert(string_views(files@).to_set() =~= info_of(dir@, *md, s@).0);
        assert(string_views(packages@).to_set() =~= info_of(dir@, *md, s@).1);
    }
    JavascriptImportInfo { file_imports: files, package_imports: packages }
}

/// Infers the candidates of every module specifier of `contents`, the text of
/// the file at `filepath`. Fails exactly when `metadata` holds a pattern that
/// the pattern syntax does not admit.
pub fn get_dependencies(contents: &str, filepath: &str, metadata: JavascriptInferenceMetadata) -> (r:
    Result<InferenceOutput, InferenceError>)
    ensures
        r is Err <==> !valid_metadata(metadata),
        r matches Err(e) ==> e == InferenceError::InvalidMetadata,
        r matches Ok(out) ==> output_is(out, dir_of(filepath@), metadata, raw_imports(contents@)),
{
    if !valid_table_exec(&metadata.import_patterns) || !valid_table_exec(&metadata.paths) {
        return Err(InferenceError::InvalidMetadata);
    }
    let dir = dir_of_path(&chars_of(filepath));
    let raws = collect(contents);
    let ghost rv = string_views(raws@);
    let mut imports: Vec<(String, JavascriptImportInfo)> = Vec::new();
    for j in 0..raws.len()
        invariant
            rv == string_views(raws@),
            dir@ == dir_of(filepath@),
            imports.len() == j,
            forall|m: int| 0 <= m < j ==> (#[trigger] imports@[m]).0@ == rv[m],
            forall|m: int|
                0 <= m < j ==> info_is(
                    (#[trigger] imports@[m]).1,
                    info_of(dir@, metadata, imports@[m].0@),
                ),
    {
        let info = info_for(&dir, &metadata, raws[j].as_str());
        imports.push((raws[j].clone(), info));
    }
    let out = InferenceOutput { imports };
    assert(output_keys(out) =~= rv);
    Ok(out)
}

/// With no subpath imports and no path aliases, every bare specifier in an
/// output is its own one package candidate and names no file.
pub proof fn lemma_bare_specifier_without_patterns(
    out: InferenceOutput,
    dir: Seq<char>,
    md: JavascriptInferenceMetadata,
    raws: Set<Seq<char>>,
    j: int,
)
    requires
        output_is(out, dir, md, raws),
        md.import_patterns.len() == 0,
        md.paths.len() == 0,
        0 <= j < out.imports.len(),
        !is_relative(out.imports@[j].0@),
    ensures
        string_views(out.imports@[j].1.file_imports@).to_set() == Set::<Seq<char>>::empty(),
        string_views(out.imports@[j].1.package_imports@).to_set() == set![out.imports@[j].0@],
{
    assert(info_is(out.imports@[j].1, info_of(dir, md, out.imports@[j].0@)));
}

/// A relative specifier in an output whose normalized path stays within the
/// workspace has that path as its one file candidate, and no package.
pub proof fn lemma_relative_specifier_normalized(
    out: InferenceOutput,
    dir: Seq<char>,
    md: JavascriptInferenceMetadata,
    raws: Set<Seq<char>>,
    j: int,
    n: Seq<char>,
)
    requires
        output_is(out, dir, md, raws),
        0 <= j < out.imports.len(),
        is_relative(out.imports@[j].0@),
        normalize(join_path(dir, out.imports@[j].0@)) == Some(n),
    ensures
        string_views(out.imports@[j].1.file_imports@).contains(n),
        string_views(out.imports@[j].1.file_imports@).to_set() == set![n],
        string_views(out.imports@[j].1.package_imports@).to_set() == Set::<Seq<char>>::empty(),
{
    assert(info_is(out.imports@[j].1, info_of(dir, md, out.imports@[j].0@)));
    assert(string_views(out.imports@[j].1.file_imports@).to_set().contains(n));
}

} // verus!
