//! Byte-level text utilities: substring search over byte sequences, used by
//! the outcome classifier to look for the success and abort markers.

use vstd::prelude::*;

verus! {

/// `needle` occurs in `hay` starting at position `i`.
pub open spec fn match_at(hay: Seq<u8>, needle: Seq<u8>, i: int) -> bool {
    &&& 0 <= i
    &&& i + needle.len() <= hay.len()
    &&& hay.subrange(i, i + needle.len() as int) == needle
}

/// `needle` occurs somewhere in `hay`.
pub open spec fn contains_seq(hay: Seq<u8>, needle: Seq<u8>) -> bool {
    exists|i: int| match_at(hay, needle, i)
}

/// Whether `needle` occurs in `hay` starting exactly at `from`.
pub(crate) fn match_bytes_at(hay: &Vec<u8>, needle: &Vec<u8>, from: usize) -> (r: bool)
    requires
        from + needle@.len() <= hay@.len(),
    ensures
        r == match_at(hay@, needle@, from as int),
{
    let n = needle.len();
    let h = hay.len();
    let mut j: usize = 0;
    while j < n
        invariant
            n == needle@.len(),
            h == hay@.len(),
            from + n <= h,
            0 <= j <= n,
            forall|k: int| 0 <= k < j ==> hay@[from + k] == needle@[k],
        decreases n - j,
    {
        if hay[from + j] != needle[j] {
            assert(hay@.subrange(from as int, from + needle@.len() as int)[j as int]
                != needle@[j as int]);
            return false;
        }
        j += 1;
    }
    assert(hay@.subrange(from as int, from + needle@.len() as int) =~= needle@);
    true
}

/// Append every byte of `src` to `dst`.
pub(crate) fn append_bytes(dst: &mut Vec<u8>, src: &Vec<u8>)
    ensures
        final(dst)@ == old(dst)@ + src@,
{
    let n = src.len();
    let mut j: usize = 0;
    while j < n
        invariant
            n == src@.len(),
            0 <= j <= n,
            dst@ == old(dst)@ + src@.subrange(0, j as int),
        decreases n - j,
    {
        dst.push(src[j]);
        assert(dst@ =~= old(dst)@ + src@.subrange(0, j + 1));
        j += 1;
    }
    assert(dst@ =~= old(dst)@ + src@);
}

/// Copy the bytes of `s` in `[a, b)` into a fresh vector.
pub(crate) fn copy_range(s: &Vec<u8>, a: usize, b: usize) -> (r: Vec<u8>)
    requires
        a <= b <= s@.len(),
    ensures
        r@ == s@.subrange(a as int, b as int),
{
    let mut r: Vec<u8> = Vec::new();
    let mut j = a;
    while j < b
        invariant
            a <= j <= b <= s@.len(),
            r@ == s@.subrange(a as int, j as int),
        decreases b - j,
    {
        r.push(s[j]);
        assert(r@ =~= s@.subrange(a as int, j + 1));
        j += 1;
    }
    r
}

/// Copy a whole byte vector.
pub(crate) fn copy_all(src: &Vec<u8>) -> (r: Vec<u8>)
    ensures
        r@ == src@,
{
    let r = copy_range(src, 0, src.len());
    assert(r@ =~= src@);
    r
}

/// Naive substring search over bytes.
pub fn contains_bytes(hay: &Vec<u8>, needle: &Vec<u8>) -> (r: bool)
    ensures
        r == contains_seq(hay@, needle@),
{
    if needle.len() > hay.len() {
        assert(forall|i: int| !match_at(hay@, needle@, i));
        return false;
    }
    let bound = hay.len() - needle.len();
    let mut i: usize = 0;
    loop
        invariant
            needle@.len() <= hay@.len(),
            bound == hay@.len() - needle@.len(),
            0 <= i <= bound,
            forall|k: int| 0 <= k < i ==> !match_at(hay@, needle@, k),
        decreases bound - i,
    {
        if match_bytes_at(hay, needle, i) {
            return true;
        }
        if i == bound {
            assert(forall|k: int| match_at(hay@, needle@, k) ==> 0 <= k <= bound);
            return false;
        }
        i += 1;
    }
}

} // verus!
