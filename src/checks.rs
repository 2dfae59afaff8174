//! Checks of what collection and pattern matching give, for callers that
//! hold an expected outcome.

use vstd::prelude::*;
use crate::collector::{collect, contains_text, raw_imports, string_views};
use crate::pattern::{Pattern, StarMatch};
use crate::text::{chars_of, slice_eq};

verus! {

/// Whether the specifiers that `code` imports are exactly those of
/// `imports`.
pub fn assert_imports(code: &str, imports: &Vec<String>) -> (r: bool)
    ensures
        r == (raw_imports(code@) == string_views(imports@).to_set()),
{
    let found = collect(code);
    let ghost f = string_views(found@);
    let ghost e = string_views(imports@);
    for j in 0..imports.len()
        invariant
            e == string_views(imports@),
            f == string_views(found@),
            f.to_set() == raw_imports(code@),
            forall|m: int| 0 <= m < j ==> f.contains(#[trigger] e[m]),
    {
        let c = chars_of(imports[j].as_str());
        if !contains_text(&found, &c) {
            assert(e.to_set().contains(e[j as int]));
            return false;
        }
    }
    for j in 0..found.len()
        invariant
            e == string_views(imports@),
            f == string_views(found@),
            f.to_set() == raw_imports(code@),
            forall|m: int| 0 <= m < e.len() ==> f.contains(#[trigger] e[m]),
            forall|m: int| 0 <= m < j ==> e.contains(#[trigger] f[m]),
    {
        let c = chars_of(found[j].as_str());
        if !contains_text(imports, &c) {
            assert(f.to_set().contains(f[j as int]));
            return false;
        }
    }
    assert forall|x: Seq<char>| f.to_set().contains(x) <==> e.to_set().contains(x) by {
        if f.contains(x) {
            let m = choose|m: int| 0 <= m < f.len() && f[m] == x;
            assert(e.contains(f[m]));
        }
        if e.contains(x) {
            let m = choose|m: int| 0 <= m < e.len() && e[m] == x;
            assert(f.contains(e[m]));
        }
    }
    assert(f.to_set() =~= e.to_set());
    true
}

/// Whether `pattern` is a match that captured `matched` (`None`: a literal
/// match, which captures nothing).
pub fn assert_matches_with_star(pattern: &Pattern, matched: Option<&str>) -> (r: bool)
    ensures
        r == match matched {
            None => pattern.outcome() == Some(None::<Seq<char>>),
            Some(m) => pattern.outcome() == Some(Some(m@)),
        },
{
    match (pattern, matched) {
        (Pattern::Match(_, None), None) => true,
        (Pattern::Match(_, Some(StarMatch(c))), Some(m)) => {
            let a = chars_of(c.as_str());
            let b = chars_of(m);
            if a.len() == b.len() && slice_eq(&a, 0, &b, 0, a.len()) {
                assert(a@ =~= a@.subrange(0, a.len() as int));
                assert(b@ =~= b@.subrange(0, b.len() as int));
                true
            } else {
                assert(a@ == b@ ==> a@.subrange(0, a.len() as int) == b@.subrange(0, b.len() as int));
                false
            }
        },
        _ => false,
    }
}

} // verus!
