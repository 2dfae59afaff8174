use vstd::prelude::*;

verus! {

broadcast use vstd::string::group_string_axioms;

/// Relies on `String::push`: appends one character to the end of the string.
#[verifier::external_body]
fn push_char(s: &mut String, c: char)
    ensures
        final(s)@ == old(s)@.push(c),
{
    s.push(c)
}

/// The characters of `s`, in order.
pub fn chars_of(s: &str) -> (r: Vec<char>)
    ensures
        r@ == s@,
{
    let mut r: Vec<char> = Vec::new();
    for c in it: s.chars()
        invariant
            r@ == it.seq().subrange(0, it.index() as int),
    {
        r.push(c);
    }
    r
}

/// The string made of the characters of `v`, in order.
pub fn string_of(v: &Vec<char>) -> (r: String)
    ensures
        r@ == v@,
{
    let mut r = String::new();
    for i in 0..v.len()
        invariant
            r@ == v@.subrange(0, i as int),
    {
        push_char(&mut r, v[i]);
        assert(v@.subrange(0, i + 1) == v@.subrange(0, i as int).push(v@[i as int]));
    }
    r
}

/// `a` from `a0` and `b` from `b0` agree on `n` characters.
pub(crate) fn slice_eq(a: &Vec<char>, a0: usize, b: &Vec<char>, b0: usize, n: usize) -> (r: bool)
    requires
        a0 + n <= a.len(),
        b0 + n <= b.len(),
    ensures
        r == (a@.subrange(a0 as int, a0 + n) == b@.subrange(b0 as int, b0 + n)),
{
    let mut j: usize = 0;
    while j < n
        invariant
            j <= n,
            a0 + n <= a.len(),
            b0 + n <= b.len(),
            forall|m: int| 0 <= m < j ==> #[trigger] a@[a0 + m] == b@[b0 + m],
        decreases n - j,
    {
        if a[a0 + j] != b[b0 + j] {
            assert(a@.subrange(a0 as int, a0 + n)[j as int] != b@.subrange(b0 as int, b0 + n)[j as int]);
            return false;
        }
        j = j + 1;
    }
    assert forall|m: int| 0 <= m < n implies #[trigger] a@.subrange(a0 as int, a0 + n)[m] == b@.subrange(
        b0 as int,
        b0 + n,
    )[m] by {
        assert(a@[a0 + m] == b@[b0 + m]);
    }
    assert(a@.subrange(a0 as int, a0 + n) =~= b@.subrange(b0 as int, b0 + n));
    true
}

} // verus!
