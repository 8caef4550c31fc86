//! Byte-string helpers shared by the whole library.
//!
//! Identities, buffers and textual values are all modelled as `Vec<u8>`.

use vstd::prelude::*;

verus! {

/// Equality of two byte strings, stated over their views.
pub fn bytes_eq(a: &Vec<u8>, b: &Vec<u8>) -> (r: bool)
    ensures
        r == (a@ == b@),
{
    let r = a == b;
    proof {
        if r {
            assert(a@ =~= b@);
        }
    }
    r
}

/// An owned copy of a byte string.
pub fn clone_bytes(v: &Vec<u8>) -> (r: Vec<u8>)
    ensures
        r@ == v@,
{
    let n = v.len();
    let mut r: Vec<u8> = Vec::new();
    let mut i: usize = 0;
    proof {
        assert(r@ =~= v@.take(0));
    }
    while i < n
        invariant
            n == v.len(),
            0 <= i <= n,
            r@ == v@.take(i as int),
        decreases n - i,
    {
        r.push(v[i]);
        proof {
            assert(r@ =~= v@.take(i + 1));
        }
        i += 1;
    }
    proof {
        assert(v@.take(n as int) =~= v@);
    }
    r
}

/// Appends a copy of `src` to `dst`.
pub fn append_bytes(dst: &mut Vec<u8>, src: &Vec<u8>)
    ensures
        final(dst)@ == old(dst)@ + src@,
{
    let n = src.len();
    let mut i: usize = 0;
    proof {
        assert(dst@ =~= old(dst)@ + src@.take(0));
    }
    while i < n
        invariant
            n == src.len(),
            0 <= i <= n,
            dst@ == old(dst)@ + src@.take(i as int),
        decreases n - i,
    {
        dst.push(src[i]);
        proof {
            assert(dst@ =~= old(dst)@ + src@.take(i + 1));
        }
        i += 1;
    }
    proof {
        assert(old(dst)@ + src@.take(n as int) =~= old(dst)@ + src@);
    }
}

/// Whether the byte string `needle` occurs in the list `haystack`.
pub fn contains_bytes(haystack: &Vec<Vec<u8>>, needle: &Vec<u8>) -> (r: bool)
    ensures
        r == haystack.deep_view().contains(needle@),
{
    let n = haystack.len();
    let mut i: usize = 0;
    while i < n
        invariant
            n == haystack.len(),
            0 <= i <= n,
            forall|j: int| 0 <= j < i ==> haystack.deep_view()[j] != needle@,
        decreases n - i,
    {
        assert(haystack.deep_view()[i as int] == haystack@[i as int]@);
        if bytes_eq(&haystack[i], needle) {
            return true;
        }
        i += 1;
    }
    false
}

} // verus!
