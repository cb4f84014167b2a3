//! Small helpers for building and comparing character strings. Markup is
//! built as `Vec<char>`; the host turns it into UTF-8 at its boundary.

use vstd::prelude::*;

verus! {

/// Append the characters of a literal to `out`.
pub fn push_lit(out: &mut Vec<char>, s: &str)
    ensures
        final(out)@ == old(out)@ + s@,
{
    broadcast use vstd::string::group_string_axioms;

    let ghost base = out@;
    for c in it: s.chars()
        invariant
            out@ == base + it.seq().take(it.index() as int),
    {
        out.push(c);
        proof {
            assert(out@ =~= base + it.seq().take(it.index() as int + 1));
        }
    }
    assert(out@ =~= base + s@);
}

/// Append a copy of `s` to `out`.
pub fn push_all(out: &mut Vec<char>, s: &Vec<char>)
    ensures
        final(out)@ == old(out)@ + s@,
{
    let ghost base = out@;
    let mut i: usize = 0;
    while i < s.len()
        invariant
            i <= s.len(),
            out@ == base + s@.take(i as int),
        decreases s.len() - i,
    {
        out.push(s[i]);
        proof {
            assert(out@ =~= base + s@.take(i as int + 1));
        }
        i += 1;
    }
    proof {
        assert(out@ =~= base + s@);
    }
}

/// Whether two character strings hold the same characters.
pub fn chars_eq(a: &Vec<char>, b: &Vec<char>) -> (r: bool)
    ensures
        r <==> a@ == b@,
{
    if a.len() != b.len() {
        proof {
            assert(a@.len() != b@.len());
        }
        return false;
    }
    let mut i: usize = 0;
    while i < a.len()
        invariant
            i <= a.len(),
            a@.len() == b@.len(),
            forall|j: int| 0 <= j < i ==> a@[j] == b@[j],
        decreases a.len() - i,
    {
        if a[i] != b[i] {
            return false;
        }
        i += 1;
    }
    proof {
        assert(a@ =~= b@);
    }
    true
}

} // verus!
