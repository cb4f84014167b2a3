//! Parsing of package-qualified store keys of the literal form
//! `@{namespace}/{name}/{major}.{minor}.{patch}/{path...}`: at most four
//! slash-separated segments, the fourth of which is the in-package path and
//! may itself contain separators.

use vstd::prelude::*;

verus! {

/// A namespaced, semantically versioned package identity.
pub struct PackageReference {
    pub namespace: Vec<char>,
    pub name: Vec<char>,
    pub major: u32,
    pub minor: u32,
    pub patch: u32,
}

/// The value of a package reference: what equality of references means.
pub open spec fn ref_view(r: PackageReference) -> (Seq<char>, Seq<char>, u32, u32, u32) {
    (r.namespace@, r.name@, r.major, r.minor, r.patch)
}

/// The least index at or after `from` holding `c`, or the length.
pub open spec fn find_from(s: Seq<char>, from: int, c: char) -> int
    decreases s.len() - from,
{
    if from < 0 || from >= s.len() {
        s.len() as int
    } else if s[from] == c {
        from
    } else {
        find_from(s, from + 1, c)
    }
}

/// Decimal reading of `s[i..]` onto the accumulator `acc`, as `u32::parse`
/// behaves on digit-only input: fails on an empty segment, a non-digit, or a
/// value past `u32::MAX`.
pub open spec fn parse_u32_rec(s: Seq<char>, i: int, acc: int) -> Option<u32>
    decreases s.len() - i,
{
    if acc > 0xFFFF_FFFF {
        None
    } else if i < 0 || i >= s.len() {
        Some(acc as u32)
    } else if '0' <= s[i] && s[i] <= '9' {
        parse_u32_rec(s, i + 1, acc * 10 + (s[i] as int - '0' as int))
    } else {
        None
    }
}

/// The numeric value of the segment `s[lo..hi]`, or nothing if it is empty,
/// holds a non-digit, or overflows.
pub open spec fn spec_parse_u32(s: Seq<char>, lo: int, hi: int) -> Option<u32> {
    if lo >= hi {
        None
    } else {
        parse_u32_rec(s.subrange(lo, hi), 0, 0)
    }
}

/// Exact reading of a package key `s` (with its leading `@` still present):
/// the three separators found in order, the version cut at its two dots, and
/// every piece in place. Nothing if fewer than four segments exist or a
/// version component is non-numeric.
pub open spec fn spec_parse_key(s: Seq<char>) -> Option<
    ((Seq<char>, Seq<char>, u32, u32, u32), Seq<char>),
> {
    if s.len() == 0 || s[0] != '@' {
        None
    } else {
        let p1 = find_from(s, 1, '/');
        let p2 = find_from(s, p1 + 1, '/');
        let p3 = find_from(s, p2 + 1, '/');
        if p3 >= s.len() {
            None
        } else {
            let d1 = find_from(s, p2 + 1, '.');
            let d2 = find_from(s, d1 + 1, '.');
            if d1 >= p3 || d2 >= p3 {
                None
            } else {
                let ma = spec_parse_u32(s, p2 + 1, d1);
                let mi = spec_parse_u32(s, d1 + 1, d2);
                let pa = spec_parse_u32(s, d2 + 1, p3);
                if ma is Some && mi is Some && pa is Some {
                    Some(
                        (
                            (
                                s.subrange(1, p1),
                                s.subrange(p1 + 1, p2),
                                ma->Some_0,
                                mi->Some_0,
                                pa->Some_0,
                            ),
                            s.subrange(p3 + 1, s.len() as int),
                        ),
                    )
                } else {
                    None
                }
            }
        }
    }
}

fn find_char(s: &Vec<char>, from: usize, c: char) -> (r: usize)
    requires
        from <= s.len(),
    ensures
        r as int == find_from(s@, from as int, c),
        from <= r <= s.len(),
        r < s.len() ==> s@[r as int] == c,
{
    let mut i: usize = from;
    while i < s.len()
        invariant
            from <= i <= s.len(),
            find_from(s@, from as int, c) == find_from(s@, i as int, c),
        decreases s.len() - i,
    {
        if s[i] == c {
            return i;
        }
        i += 1;
    }
    i
}

fn parse_u32_seg(s: &Vec<char>, lo: usize, hi: usize) -> (r: Option<u32>)
    requires
        lo <= hi <= s.len(),
    ensures
        r == spec_parse_u32(s@, lo as int, hi as int),
{
    if lo >= hi {
        return None;
    }
    let ghost seg = s@.subrange(lo as int, hi as int);
    let mut acc: u64 = 0;
    let mut i: usize = lo;
    while i < hi
        invariant
            lo <= i <= hi <= s.len(),
            acc <= 0xFFFF_FFFF,
            seg == s@.subrange(lo as int, hi as int),
            parse_u32_rec(seg, 0, 0) == parse_u32_rec(seg, i - lo, acc as int),
        decreases hi - i,
    {
        let c = s[i];
        if c < '0' || c > '9' {
            return None;
        }
        let d: u64 = (c as u64) - 48;
        proof {
            assert(seg[i - lo] == s@[i as int]);
            assert('0' <= s@[i as int] && s@[i as int] <= '9');
            assert(d as int == s@[i as int] as int - '0' as int);
        }
        acc = acc * 10 + d;
        if acc > 0xFFFF_FFFF {
            proof {
                assert(parse_u32_rec(seg, i as int + 1 - lo, acc as int) is None);
            }
            return None;
        }
        i += 1;
    }
    proof {
        assert(parse_u32_rec(seg, hi - lo, acc as int) == Some(acc as u32));
    }
    Some(acc as u32)
}

/// Split a package-qualified key into its reference and in-package path.
/// Returns the decomposition exactly when `spec_parse_key` has one.
pub fn parse_package_key(key: &Vec<char>) -> (r: Option<(PackageReference, Vec<char>)>)
    ensures
        match r {
            Some((pr, path)) => spec_parse_key(key@) == Some((ref_view(pr), path@)),
            None => spec_parse_key(key@) is None,
        },
{
    if key.len() == 0 {
        return None;
    }
    if key[0] != '@' {
        return None;
    }
    let p1 = find_char(key, 1, '/');
    let p2 = find_char(key, if p1 < key.len() { p1 + 1 } else { p1 }, '/');
    let p3 = find_char(key, if p2 < key.len() { p2 + 1 } else { p2 }, '/');
    proof {
        if p1 >= key.len() {
            assert(find_from(key@, p1 as int, '/') == key@.len());
        }
        if p2 >= key.len() {
            assert(find_from(key@, p2 as int, '/') == key@.len());
        }
        assert(p2 as int == find_from(key@, p1 as int + 1, '/'));
        assert(p3 as int == find_from(key@, p2 as int + 1, '/'));
    }
    if p3 >= key.len() {
        return None;
    }
    let d1 = find_char(key, p2 + 1, '.');
    let d2 = find_char(key, if d1 < key.len() { d1 + 1 } else { d1 }, '.');
    proof {
        if d1 >= key.len() {
            assert(find_from(key@, d1 as int, '.') == key@.len());
        }
        assert(d2 as int == find_from(key@, d1 as int + 1, '.'));
    }
    if d1 >= p3 || d2 >= p3 {
        return None;
    }
    let ma = parse_u32_seg(key, p2 + 1, d1);
    let mi = parse_u32_seg(key, d1 + 1, d2);
    let pa = parse_u32_seg(key, d2 + 1, p3);
    match (ma, mi, pa) {
        (Some(major), Some(minor), Some(patch)) => {
            let mut namespace: Vec<char> = Vec::new();
            let mut name: Vec<char> = Vec::new();
            let mut path: Vec<char> = Vec::new();
            copy_range(key, 1, p1, &mut namespace);
            copy_range(key, p1 + 1, p2, &mut name);
            copy_range(key, p3 + 1, key.len(), &mut path);
            Some((PackageReference { namespace, name, major, minor, patch }, path))
        },
        _ => None,
    }
}

fn copy_range(s: &Vec<char>, lo: usize, hi: usize, out: &mut Vec<char>)
    requires
        lo <= hi <= s.len(),
        old(out)@.len() == 0,
    ensures
        final(out)@ == s@.subrange(lo as int, hi as int),
{
    let mut i: usize = lo;
    while i < hi
        invariant
            lo <= i <= hi <= s.len(),
            out@ == s@.subrange(lo as int, i as int),
        decreases hi - i,
    {
        out.push(s[i]);
        proof {
            assert(out@ =~= s@.subrange(lo as int, i as int + 1));
        }
        i += 1;
    }
}

} // verus!
