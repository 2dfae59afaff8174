//! Patterns of subpath imports and path aliases: a literal string, or a
//! string with one `*` that captures the characters aligned with it.

use vstd::prelude::*;
use crate::text::{chars_of, slice_eq};
use vstd::utf8::encode_utf8;

verus! {

broadcast use vstd::string::group_string_axioms;

/// `k` is the position of the first `*` of `p`.
pub open spec fn is_first_star(p: Seq<char>, k: int) -> bool {
    &&& 0 <= k < p.len()
    &&& p[k] == '*'
    &&& forall|j: int| 0 <= j < k ==> p[j] != '*'
}

/// `p` holds no `*`.
pub open spec fn star_free(p: Seq<char>) -> bool {
    forall|j: int| 0 <= j < p.len() ==> p[j] != '*'
}

/// `p` holds exactly one `*`, at position `k`.
pub open spec fn single_star_at(p: Seq<char>, k: int) -> bool {
    &&& 0 <= k < p.len()
    &&& p[k] == '*'
    &&& star_free(p.subrange(0, k))
    &&& star_free(p.subrange(k + 1, p.len() as int))
}

/// What matching `input` against `pattern` gives: `None` for no match,
/// `Some(None)` for a literal match, `Some(Some(c))` for a match whose star
/// captured `c`. Positions count characters, never bytes.
pub open spec fn star_match(pattern: Seq<char>, input: Seq<char>) -> Option<Option<Seq<char>>> {
    if pattern.len() == 0 || input.len() == 0 {
        None
    } else if exists|k: int| is_first_star(pattern, k) {
        let k = choose|k: int| is_first_star(pattern, k);
        let head = pattern.subrange(0, k);
        let tail = pattern.subrange(k + 1, pattern.len() as int);
        if head.len() + tail.len() <= input.len() && input.subrange(0, head.len() as int) == head
            && input.subrange(input.len() - tail.len(), input.len() as int) == tail {
            Some(Some(input.subrange(head.len() as int, input.len() - tail.len())))
        } else {
            None
        }
    } else if pattern == input {
        Some(None)
    } else {
        None
    }
}

/// The length in bytes of the UTF-8 encoding of `s`.
pub open spec fn byte_len(s: Seq<char>) -> nat {
    encode_utf8(s).len()
}

/// `r` with each `*` replaced by `c`.
pub open spec fn substitute(r: Seq<char>, c: Seq<char>) -> Seq<char>
    decreases r.len(),
{
    if r.len() == 0 {
        Seq::empty()
    } else if r.last() == '*' {
        substitute(r.drop_last(), c) + c
    } else {
        substitute(r.drop_last(), c).push(r.last())
    }
}

/// The characters that a star of a pattern captured.
#[derive(Debug, Clone, PartialEq, Eq)]
pub struct StarMatch(pub String);

/// The outcome of matching an import against a pattern: no match, or a match
/// with the pattern's length in bytes and, for a pattern with a star, what the
/// star captured.
#[derive(Debug, Clone, PartialEq, Eq)]
pub enum Pattern {
    NoMatch,
    Match(usize, Option<StarMatch>),
}

impl Pattern {
    /// The outcome in the shape of `star_match`.
    pub open spec fn outcome(self) -> Option<Option<Seq<char>>> {
        match self {
            Pattern::NoMatch => None,
            Pattern::Match(_, None) => Some(None),
            Pattern::Match(_, Some(m)) => Some(Some(m.0@)),
        }
    }

    /// Matches `import` against `pattern`. The length recorded in a match is
    /// the pattern's length in bytes, which orders competing patterns.
    pub fn matches(pattern: &str, import: &str) -> (r: Pattern)
        ensures
            r.outcome() == star_match(pattern@, import@),
            r matches Pattern::Match(n, _) ==> n == byte_len(pattern@) as usize,
    {
        let p = chars_of(pattern);
        let i = chars_of(import);
        if p.len() == 0 || i.len() == 0 {
            return Pattern::NoMatch;
        }
        match first_star(&p) {
            None => {
                if p.len() == i.len() && slice_eq(&p, 0, &i, 0, p.len()) {
                    assert(p@ == i@ ==> p@ =~= i@);
                    assert(p@ =~= p@.subrange(0, p.len() as int));
                    assert(i@ =~= i@.subrange(0, i.len() as int));
                    Pattern::Match(pattern.len(), None)
                } else {
                    Pattern::NoMatch
                }
            },
            Some(k) => {
                proof {
                    let k2 = choose|k2: int| is_first_star(p@, k2);
                    assert(k2 == k as int) by {
                        if k2 < k {
                            assert(p@[k2] != '*');
                        } else if k < k2 {
                            assert(p@[k as int] != '*');
                        }
                    }
                }
                let head_len = k;
                let tail_len = p.len() - k - 1;
                if head_len + tail_len <= i.len() && slice_eq(&p, 0, &i, 0, head_len)
                    && slice_eq(&p, k + 1, &i, i.len() - tail_len, tail_len) {
                    let captured = import.substring_char(head_len, i.len() - tail_len);
                    Pattern::Match(pattern.len(), Some(StarMatch(captured.to_owned())))
                } else {
                    Pattern::NoMatch
                }
            },
        }
    }
}

/// The position of the first `*` of `p`, if there is one.
fn first_star(p: &Vec<char>) -> (r: Option<usize>)
    ensures
        r matches Some(k) ==> is_first_star(p@, k as int),
        r is None ==> star_free(p@) && !(exists|k: int| is_first_star(p@, k)),
{
    let mut j: usize = 0;
    while j < p.len()
        invariant
            j <= p.len(),
            forall|m: int| 0 <= m < j ==> p@[m] != '*',
        decreases p.len() - j,
    {
        if p[j] == '*' {
            return Some(j);
        }
        j = j + 1;
    }
    assert forall|k: int| !is_first_star(p@, k) by {
        if 0 <= k < p.len() {
            assert(p@[k] != '*');
        }
    }
    None
}

/// `r` with each `*` replaced by `c`.
pub fn substitute_star(r: &Vec<char>, c: &Vec<char>) -> (out: Vec<char>)
    ensures
        out@ == substitute(r@, c@),
{
    let mut out: Vec<char> = Vec::new();
    for j in 0..r.len()
        invariant
            out@ == substitute(r@.subrange(0, j as int), c@),
    {
        assert(r@.subrange(0, j + 1).drop_last() =~= r@.subrange(0, j as int));
        if r[j] == '*' {
            let mut m: usize = 0;
            let ghost before = out@;
            while m < c.len()
                invariant
                    m <= c.len(),
                    out@ == before + c@.subrange(0, m as int),
                decreases c.len() - m,
            {
                out.push(c[m]);
                assert(c@.subrange(0, m + 1) =~= c@.subrange(0, m as int).push(c@[m as int]));
                m = m + 1;
            }
            assert(c@.subrange(0, c.len() as int) =~= c@);
        } else {
            out.push(r[j]);
        }
    }
    assert(r@.subrange(0, r.len() as int) =~= r@);
    out
}

proof fn lemma_substitute_star_free(r: Seq<char>, c: Seq<char>)
    requires
        star_free(r),
    ensures
        substitute(r, c) == r,
    decreases r.len(),
{
    if r.len() > 0 {
        assert(star_free(r.drop_last()));
        lemma_substitute_star_free(r.drop_last(), c);
        assert(r.drop_last().push(r.last()) =~= r);
    }
}

proof fn lemma_substitute_concat(a: Seq<char>, b: Seq<char>, c: Seq<char>)
    ensures
        substitute(a + b, c) == substitute(a, c) + substitute(b, c),
    decreases b.len(),
{
    if b.len() == 0 {
        assert(a + b =~= a);
        assert(substitute(a, c) + substitute(b, c) =~= substitute(a, c));
    } else {
        assert((a + b).drop_last() =~= a + b.drop_last());
        lemma_substitute_concat(a, b.drop_last(), c);
        if b.last() == '*' {
            assert(substitute(a, c) + substitute(b, c) =~= substitute(a, c) + substitute(b.drop_last(), c) + c);
        } else {
            assert(substitute(a, c) + substitute(b, c) =~= (substitute(a, c) + substitute(b.drop_last(), c)).push(b.last()));
        }
    }
}

/// With its only star at `k`, substituting `c` into `p` puts `c` between the
/// parts of `p` around the star.
proof fn lemma_substitute_single(p: Seq<char>, k: int, c: Seq<char>)
    requires
        single_star_at(p, k),
    ensures
        substitute(p, c) == p.subrange(0, k) + c + p.subrange(k + 1, p.len() as int),
        is_first_star(p, k),
        (choose|k2: int| is_first_star(p, k2)) == k,
{
    let head = p.subrange(0, k);
    let tail = p.subrange(k + 1, p.len() as int);
    assert(p =~= head + seq!['*'] + tail);
    lemma_substitute_concat(head + seq!['*'], tail, c);
    lemma_substitute_concat(head, seq!['*'], c);
    lemma_substitute_star_free(head, c);
    lemma_substitute_star_free(tail, c);
    assert(seq!['*'].drop_last() =~= Seq::<char>::empty());
    assert(substitute(Seq::<char>::empty(), c) == Seq::<char>::empty());
    assert(Seq::<char>::empty() + c =~= c);
    assert(substitute(seq!['*'], c) =~= c);
    assert forall|j: int| 0 <= j < k implies p[j] != '*' by {
        assert(head[j] == p[j]);
    }
    assert(is_first_star(p, k));
    let k2 = choose|k2: int| is_first_star(p, k2);
    if k2 < k {
        assert(p[k2] != '*');
    } else if k < k2 {
        assert(p[k] != '*');
    }
}

/// A pattern with a single star that matches an input captures exactly one
/// string whose substitution into the pattern gives back the input.
pub proof fn lemma_capture_is_unique(p: Seq<char>, k: int, input: Seq<char>)
    requires
        single_star_at(p, k),
        star_match(p, input) is Some,
    ensures
        star_match(p, input) matches Some(Some(c)) && substitute(p, c) == input,
        forall|c2: Seq<char>|
            #[trigger] substitute(p, c2) == input ==> star_match(p, input) == Some(Some(c2)),
{
    let head = p.subrange(0, k);
    let tail = p.subrange(k + 1, p.len() as int);
    let c = input.subrange(head.len() as int, input.len() - tail.len());
    lemma_substitute_single(p, k, c);
    assert(input =~= input.subrange(0, head.len() as int) + c + input.subrange(
        input.len() - tail.len(),
        input.len() as int,
    ));
    assert forall|c2: Seq<char>| #[trigger] substitute(p, c2) == input implies star_match(p, input)
        == Some(Some(c2)) by {
        lemma_substitute_single(p, k, c2);
        assert(c2 =~= (head + c2 + tail).subrange(head.len() as int, input.len() - tail.len()));
    }
}

/// Substituting a capture into a pattern with a single star gives an input
/// that the pattern matches, capturing that same string.
pub proof fn lemma_match_substitute_round_trip(p: Seq<char>, k: int, c: Seq<char>)
    requires
        single_star_at(p, k),
        substitute(p, c).len() > 0,
    ensures
        star_match(p, substitute(p, c)) == Some(Some(c)),
{
    let head = p.subrange(0, k);
    let tail = p.subrange(k + 1, p.len() as int);
    lemma_substitute_single(p, k, c);
    let input = head + c + tail;
    assert(input.subrange(0, head.len() as int) =~= head);
    assert(input.subrange(input.len() - tail.len(), input.len() as int) =~= tail);
    assert(input.subrange(head.len() as int, input.len() - tail.len()) =~= c);
}

} // verus!
