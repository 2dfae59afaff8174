//! Resolution of a specifier through a table of patterns: the longest
//! matching pattern wins, and each of its replacements, with the capture put
//! in for `*`, gives one candidate.

use vstd::prelude::*;
use crate::collector::string_views;
use crate::path::{join_path, normalize, normalize_path};
use crate::pattern::{byte_len, star_match, substitute, substitute_star, Pattern, StarMatch};
use crate::text::{chars_of, string_of};

verus! {

/// A pattern and the replacements that it maps to, in order.
#[derive(Debug, Clone)]
pub struct ImportPattern {
    pub pattern: String,
    pub replacements: Vec<String>,
}

/// A pattern entry as a value.
pub open spec fn entry_view(e: ImportPattern) -> (Seq<char>, Seq<Seq<char>>) {
    (e.pattern@, string_views(e.replacements@))
}

/// A table of patterns as a value.
pub open spec fn table_view(ps: Seq<ImportPattern>) -> Seq<(Seq<char>, Seq<Seq<char>>)> {
    ps.map_values(|e: ImportPattern| entry_view(e))
}

/// A specifier after resolution: rewritten by a pattern (and normalized when
/// it is a path), or carried forward as written.
#[derive(Debug, Clone, PartialEq, Eq, Hash)]
pub enum Import {
    Matched(String),
    Unmatched(String),
}

/// An `Import` as a value.
pub enum ImportView {
    Matched(Seq<char>),
    Unmatched(Seq<char>),
}

impl View for Import {
    type V = ImportView;

    open spec fn view(&self) -> ImportView {
        match self {
            Import::Matched(s) => ImportView::Matched(s@),
            Import::Unmatched(s) => ImportView::Unmatched(s@),
        }
    }
}

impl ImportView {
    /// The string that the import carries.
    pub open spec fn text(self) -> Seq<char> {
        match self {
            ImportView::Matched(s) => s,
            ImportView::Unmatched(s) => s,
        }
    }
}

/// `s` starts with `./` or `../`.
pub open spec fn is_relative(s: Seq<char>) -> bool {
    (s.len() >= 2 && s[0] == '.' && s[1] == '/') || (s.len() >= 3 && s[0] == '.' && s[1] == '.'
        && s[2] == '/')
}

/// The length by which competing patterns are ordered: the pattern's length
/// in bytes, as a machine integer.
pub open spec fn pattern_len(p: Seq<char>) -> usize {
    byte_len(p) as usize
}

/// Among the first `n` entries of `ps`, the first of the longest patterns
/// that match `s`.
pub open spec fn best_upto(ps: Seq<(Seq<char>, Seq<Seq<char>>)>, s: Seq<char>, n: int) -> Option<int>
    decreases n,
{
    if n <= 0 {
        None
    } else {
        let prev = best_upto(ps, s, n - 1);
        if star_match(ps[n - 1].0, s) is Some && (prev matches Some(b) ==> pattern_len(ps[n - 1].0)
            > pattern_len(ps[b].0)) {
            Some(n - 1)
        } else {
            prev
        }
    }
}

/// The candidate that replacement `r` gives for capture `c`, and whether it
/// is a file candidate. A relative replacement is placed under `anchor` and
/// normalized, or carried forward as it is where it rises above the root; any
/// other replacement names a package.
pub open spec fn replacement_candidate(anchor: Seq<char>, r: Seq<char>, c: Seq<char>) -> (ImportView, bool) {
    let r2 = substitute(r, c);
    if is_relative(r2) {
        match normalize(join_path(anchor, r2)) {
            Some(p) => (ImportView::Matched(p), true),
            None => (ImportView::Unmatched(r2), true),
        }
    } else {
        (ImportView::Matched(r2), false)
    }
}

/// What a match captured: the star's capture, or nothing for a literal.
pub open spec fn capture_of(m: Option<Option<Seq<char>>>) -> Seq<char> {
    match m {
        Some(Some(c)) => c,
        _ => Seq::empty(),
    }
}

/// The candidates of `s` through the table `ps`, one per replacement of the
/// winning pattern; `None` when no pattern matches.
pub open spec fn resolve(anchor: Seq<char>, ps: Seq<(Seq<char>, Seq<Seq<char>>)>, s: Seq<char>) -> Option<
    Seq<(ImportView, bool)>,
> {
    match best_upto(ps, s, ps.len() as int) {
        None => None,
        Some(k) => {
            let c = capture_of(star_match(ps[k].0, s));
            Some(ps[k].1.map_values(|r: Seq<char>| replacement_candidate(anchor, r, c)))
        },
    }
}

/// The imports among candidates.
pub open spec fn imports_of(c: Seq<(ImportView, bool)>) -> Set<ImportView> {
    Set::new(|x: ImportView| exists|j: int| 0 <= j < c.len() && (#[trigger] c[j]).0 == x)
}

pub(crate) fn is_relative_exec(s: &Vec<char>) -> (r: bool)
    ensures
        r == is_relative(s@),
{
    (s.len() >= 2 && s[0] == '.' && s[1] == '/') || (s.len() >= 3 && s[0] == '.' && s[1] == '.'
        && s[2] == '/')
}

pub(crate) fn join_path_exec(anchor: &Vec<char>, rel: &Vec<char>) -> (r: Vec<char>)
    ensures
        r@ == join_path(anchor@, rel@),
{
    let mut r: Vec<char> = Vec::new();
    for m in 0..anchor.len()
        invariant
            r@ == anchor@.subrange(0, m as int),
    {
        r.push(anchor[m]);
        assert(anchor@.subrange(0, m + 1) =~= anchor@.subrange(0, m as int).push(anchor@[m as int]));
    }
    r.push('/');
    assert(r@ =~= anchor@ + seq!['/']);
    let ghost pre = r@;
    for m in 0..rel.len()
        invariant
            r@ == pre + rel@.subrange(0, m as int),
    {
        r.push(rel[m]);
        assert(rel@.subrange(0, m + 1) =~= rel@.subrange(0, m as int).push(rel@[m as int]));
    }
    assert(rel@.subrange(0, rel.len() as int) =~= rel@);
    r
}

fn replacement_candidate_exec(anchor: &Vec<char>, r: &String, c: &Vec<char>) -> (out: (Import, bool))
    ensures
        (out.0@, out.1) == replacement_candidate(anchor@, r@, c@),
{
    let rc = chars_of(r.as_str());
    let r2 = substitute_star(&rc, c);
    if is_relative_exec(&r2) {
        let joined = join_path_exec(anchor, &r2);
        match normalize_path(&joined) {
            Some(p) => (Import::Matched(string_of(&p)), true),
            None => (Import::Unmatched(string_of(&r2)), true),
        }
    } else {
        (Import::Matched(string_of(&r2)), false)
    }
}

fn copy_import(i: &Import) -> (r: Import)
    ensures
        r@ == i@,
{
    match i {
        Import::Matched(s) => Import::Matched(s.clone()),
        Import::Unmatched(s) => Import::Unmatched(s.clone()),
    }
}

/// The winning pattern of `ps` for `s` (see `best_upto`), with its match.
fn best_pattern(ps: &Vec<ImportPattern>, s: &str) -> (r: Option<(usize, Pattern)>)
    ensures
        ({
            let t = table_view(ps@);
            match r {
                Some((k, m)) => best_upto(t, s@, t.len() as int) == Some(k as int) && k < t.len()
                    && m.outcome() == star_match(t[k as int].0, s@),
                None => best_upto(t, s@, t.len() as int) is None,
            }
        }),
{
    let ghost t = table_view(ps@);
    let mut best: Option<(usize, Pattern)> = None;
    let mut best_len: usize = 0;
    for j in 0..ps.len()
        invariant
            t == table_view(ps@),
            match best {
                Some((k, m)) => best_upto(t, s@, j as int) == Some(k as int) && k < j
                    && m.outcome() == star_match(t[k as int].0, s@) && best_len == pattern_len(
                    t[k as int].0,
                ),
                None => best_upto(t, s@, j as int) is None,
            },
    {
        let m = Pattern::matches(ps[j].pattern.as_str(), s);
        match m {
            Pattern::NoMatch => {},
            Pattern::Match(n, _) => {
                let better = match best {
                    None => true,
                    Some(_) => n > best_len,
                };
                if better {
                    best = Some((j, m));
                    best_len = n;
                }
            },
        }
    }
    best
}

/// The candidates of `s` through `ps` (see `resolve`), with positions in
/// the same order.
pub(crate) fn resolve_exec(anchor: &Vec<char>, ps: &Vec<ImportPattern>, s: &str) -> (r: Option<
    Vec<(Import, bool)>,
>)
    ensures
        match r {
            Some(v) => resolve(anchor@, table_view(ps@), s@) == Some(
                v@.map_values(|x: (Import, bool)| (x.0@, x.1)),
            ),
            None => resolve(anchor@, table_view(ps@), s@) is None,
        },
{
    let ghost t = table_view(ps@);
    match best_pattern(ps, s) {
        None => None,
        Some((k, m)) => {
            let c: Vec<char> = match m {
                Pattern::Match(_, Some(StarMatch(cap))) => chars_of(cap.as_str()),
                _ => Vec::new(),
            };
            assert(c@ == capture_of(star_match(t[k as int].0, s@)));
            let reps = &ps[k].replacements;
            let ghost target = t[k as int].1.map_values(
                |r: Seq<char>| replacement_candidate(anchor@, r, c@),
            );
            let mut out: Vec<(Import, bool)> = Vec::new();
            for j in 0..reps.len()
                invariant
                    reps == ps@[k as int].replacements,
                    target.len() == reps.len(),
                    target == t[k as int].1.map_values(
                        |r: Seq<char>| replacement_candidate(anchor@, r, c@),
                    ),
                    t == table_view(ps@),
                    k < ps.len(),
                    out.len() == j,
                    out@.map_values(|x: (Import, bool)| (x.0@, x.1)) == target.subrange(0, j as int),
            {
                let x = replacement_candidate_exec(anchor, &reps[j], &c);
                assert(t[k as int].1[j as int] == reps@[j as int]@);
                assert(target[j as int] == (x.0@, x.1));
                let ghost before = out@;
                out.push(x);
                assert forall|i: int| 0 <= i < j implies #[trigger] out@[i] == before[i] by {}
                assert forall|i: int| 0 <= i < j implies (out@[i].0@, out@[i].1) == target[i] by {
                    assert(before.map_values(|x: (Import, bool)| (x.0@, x.1))[i] == target.subrange(0, j as int)[i]);
                }
                assert(out@.map_values(|x: (Import, bool)| (x.0@, x.1)) =~= target.subrange(
                    0,
                    j + 1,
                ));
            }
            assert(target.subrange(0, reps.len() as int) =~= target);
            Some(out)
        },
    }
}

/// The imports that the table `patterns` gives for `import`, with relative
/// replacements placed under `root`: those of the longest matching pattern,
/// one per replacement; none when no pattern matches.
pub fn imports_from_patterns(root: &str, patterns: &Vec<ImportPattern>, import: &str) -> (r: Vec<
    Import,
>)
    ensures
        r@.map_values(|i: Import| i@).to_set() == match resolve(
            root@,
            table_view(patterns@),
            import@,
        ) {
            Some(c) => imports_of(c),
            None => Set::empty(),
        },
{
    let anchor = chars_of(root);
    let mut out: Vec<Import> = Vec::new();
    match resolve_exec(&anchor, patterns, import) {
        None => {
            assert(out@.map_values(|i: Import| i@).to_set() =~= Set::empty());
        },
        Some(cands) => {
            let ghost c = cands@.map_values(|x: (Import, bool)| (x.0@, x.1));
            for j in 0..cands.len()
                invariant
                    c == cands@.map_values(|x: (Import, bool)| (x.0@, x.1)),
                    out.len() == j,
                    out@.map_values(|i: Import| i@) == c.subrange(0, j as int).map_values(
                        |x: (ImportView, bool)| x.0,
                    ),
            {
                let ghost before = out@;
                out.push(copy_import(&cands[j].0));
                assert forall|i: int| 0 <= i < j implies out@[i]@ == c[i].0 by {
                    assert(before[i] == out@[i]);
                    assert(before.map_values(|i: Import| i@)[i] == c.subrange(0, j as int).map_values(
                        |x: (ImportView, bool)| x.0,
                    )[i]);
                }
                assert(out@[j as int]@ == c[j as int].0);
                assert(out@.map_values(|i: Import| i@) =~= c.subrange(0, j + 1).map_values(
                    |x: (ImportView, bool)| x.0,
                ));
            }
            let ghost v = out@.map_values(|i: Import| i@);
            assert(c.subrange(0, cands.len() as int) =~= c);
            assert forall|x: ImportView| v.to_set().contains(x) <==> imports_of(c).contains(x) by {
                if imports_of(c).contains(x) {
                    let j = choose|j: int| 0 <= j < c.len() && (#[trigger] c[j]).0 == x;
                    assert(v[j] == x);
                }
            }
            assert(v.to_set() =~= imports_of(c));
        },
    }
    out
}

} // verus!
