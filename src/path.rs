//! Workspace-relative paths: the directory of a file, and the collapsing of
//! `.` and `..` segments.

use vstd::prelude::*;

verus! {

/// The characters of a `..` segment.
pub open spec fn parent_segment() -> Seq<char> {
    seq!['.', '.']
}

/// The accumulated segments after one more segment: empty and `.` segments
/// are dropped, `..` removes the last kept segment, and a `..` with none left
/// escapes (`None`, which stays `None`).
pub open spec fn push_segment(acc: Option<Seq<Seq<char>>>, seg: Seq<char>) -> Option<Seq<Seq<char>>> {
    match acc {
        None => None,
        Some(a) => if seg.len() == 0 || seg == seq!['.'] {
            Some(a)
        } else if seg == parent_segment() {
            if a.len() == 0 {
                None
            } else {
                Some(a.drop_last())
            }
        } else {
            Some(a.push(seg))
        },
    }
}

/// The segments kept from the complete segments of `s`, and the segment
/// that `s` ends in (the characters after its last `/`).
pub open spec fn walk(s: Seq<char>) -> (Option<Seq<Seq<char>>>, Seq<char>)
    decreases s.len(),
{
    if s.len() == 0 {
        (Some(Seq::empty()), Seq::empty())
    } else {
        let (acc, cur) = walk(s.drop_last());
        if s.last() == '/' {
            (push_segment(acc, cur), Seq::empty())
        } else {
            (acc, cur.push(s.last()))
        }
    }
}

/// The segments joined by `/`.
pub open spec fn join_segments(segs: Seq<Seq<char>>) -> Seq<char>
    decreases segs.len(),
{
    if segs.len() == 0 {
        Seq::empty()
    } else if segs.len() == 1 {
        segs[0]
    } else {
        join_segments(segs.drop_last()) + seq!['/'] + segs.last()
    }
}

/// `s` with its empty and `.` segments dropped and each `..` collapsed into
/// the segment before it; `None` when a `..` rises above the start of `s`.
pub open spec fn normalize(s: Seq<char>) -> Option<Seq<char>> {
    match push_segment(walk(s).0, walk(s).1) {
        Some(segs) => Some(join_segments(segs)),
        None => None,
    }
}

/// `rel` placed under the directory `anchor`.
pub open spec fn join_path(anchor: Seq<char>, rel: Seq<char>) -> Seq<char> {
    anchor + seq!['/'] + rel
}

/// The directory part of a file path: what stands before its last `/`, or
/// the empty path for a file at the root.
pub open spec fn dir_of(path: Seq<char>) -> Seq<char>
    decreases path.len(),
{
    if path.len() == 0 {
        Seq::empty()
    } else if path.last() == '/' {
        path.drop_last()
    } else {
        dir_of(path.drop_last())
    }
}

spec fn segments_view(acc: Seq<Vec<char>>) -> Seq<Seq<char>> {
    acc.map_values(|v: Vec<char>| v@)
}

fn is_dot_segment(seg: &Vec<char>) -> (r: bool)
    ensures
        r == (seg@ == seq!['.']),
{
    if seg.len() == 1 && seg[0] == '.' {
        assert(seg@ =~= seq!['.']);
        true
    } else {
        false
    }
}

fn is_parent_segment(seg: &Vec<char>) -> (r: bool)
    ensures
        r == (seg@ == parent_segment()),
{
    if seg.len() == 2 && seg[0] == '.' && seg[1] == '.' {
        assert(seg@ =~= parent_segment());
        true
    } else {
        false
    }
}

/// Applies `push_segment` to the segments in `acc`; returns false where the
/// segment escapes, leaving `acc` as it was.
fn push_segment_exec(acc: &mut Vec<Vec<char>>, seg: Vec<char>) -> (ok: bool)
    ensures
        ok ==> push_segment(Some(segments_view(old(acc)@)), seg@) == Some(segments_view(final(acc)@)),
        !ok ==> push_segment(Some(segments_view(old(acc)@)), seg@) is None,
{
    if seg.len() == 0 || is_dot_segment(&seg) {
        true
    } else if is_parent_segment(&seg) {
        if acc.len() == 0 {
            false
        } else {
            let _ = acc.pop();
            assert(segments_view(final(acc)@) =~= segments_view(old(acc)@).drop_last());
            true
        }
    } else {
        let ghost s = seg@;
        acc.push(seg);
        assert(segments_view(final(acc)@) =~= segments_view(old(acc)@).push(s));
        true
    }
}

fn join_segments_exec(acc: &Vec<Vec<char>>) -> (r: Vec<char>)
    ensures
        r@ == join_segments(segments_view(acc@)),
{
    let mut out: Vec<char> = Vec::new();
    for j in 0..acc.len()
        invariant
            out@ == join_segments(segments_view(acc@).subrange(0, j as int)),
    {
        let ghost prev = out@;
        if j > 0 {
            out.push('/');
        }
        let seg = &acc[j];
        for m in 0..seg.len()
            invariant
                j > 0 ==> out@ == prev + seq!['/'] + seg@.subrange(0, m as int),
                j == 0 ==> out@ == prev + seg@.subrange(0, m as int),
        {
            out.push(seg[m]);
            assert(seg@.subrange(0, m + 1) =~= seg@.subrange(0, m as int).push(seg@[m as int]));
        }
        assert(seg@.subrange(0, seg.len() as int) =~= seg@);
        let ghost segs = segments_view(acc@).subrange(0, j + 1);
        assert(segs.drop_last() =~= segments_view(acc@).subrange(0, j as int));
        if j == 0 {
            assert(prev =~= Seq::<char>::empty());
            assert(out@ =~= segs[0]);
        }
    }
    assert(segments_view(acc@).subrange(0, acc.len() as int) =~= segments_view(acc@));
    out
}

/// Normalizes the path `s`: `None` when it rises above its start.
pub fn normalize_path(s: &Vec<char>) -> (r: Option<Vec<char>>)
    ensures
        r matches Some(v) ==> normalize(s@) == Some(v@),
        r is None ==> normalize(s@) is None,
{
    let mut acc: Vec<Vec<char>> = Vec::new();
    let mut cur: Vec<char> = Vec::new();
    let mut ok = true;
    for i in 0..s.len()
        invariant
            ok ==> walk(s@.subrange(0, i as int)).0 == Some(segments_view(acc@)),
            !ok ==> walk(s@.subrange(0, i as int)).0 is None,
            walk(s@.subrange(0, i as int)).1 == cur@,
    {
        assert(s@.subrange(0, i + 1).drop_last() =~= s@.subrange(0, i as int));
        if s[i] == '/' {
            let seg = cur;
            cur = Vec::new();
            if ok {
                ok = push_segment_exec(&mut acc, seg);
            }
            assert(cur@ =~= Seq::<char>::empty());
        } else {
            cur.push(s[i]);
        }
    }
    assert(s@.subrange(0, s.len() as int) =~= s@);
    if ok && push_segment_exec(&mut acc, cur) {
        Some(join_segments_exec(&acc))
    } else {
        None
    }
}

/// The directory part of `path` (see `dir_of`).
pub fn dir_of_path(path: &Vec<char>) -> (r: Vec<char>)
    ensures
        r@ == dir_of(path@),
{
    let mut j = path.len();
    assert(path@.subrange(0, j as int) =~= path@);
    while j > 0 && path[j - 1] != '/'
        invariant
            j <= path.len(),
            dir_of(path@) == dir_of(path@.subrange(0, j as int)),
        decreases j,
    {
        assert(path@.subrange(0, j as int).drop_last() =~= path@.subrange(0, j - 1));
        j = j - 1;
    }
    if j == 0 {
        assert(path@.subrange(0, 0) =~= Seq::<char>::empty());
        Vec::new()
    } else {
        assert(path@.subrange(0, j as int).drop_last() =~= path@.subrange(0, j - 1));
        let mut r: Vec<char> = Vec::new();
        let end = j - 1;
        for m in 0..end
            invariant
                end < path.len(),
                r@ == path@.subrange(0, m as int),
        {
            r.push(path[m]);
            assert(path@.subrange(0, m + 1) =~= path@.subrange(0, m as int).push(path@[m as int]));
        }
        r
    }
}

} // verus!
