//! Byte-level helpers: little-endian readers, NUL-terminated strings, and
//! the splice model of overwriting a region of an image.

use vstd::prelude::*;

verus! {

/// Little-endian value of the two bytes of `d` at `o`.
pub open spec fn le16(d: Seq<u8>, o: int) -> int {
    d[o] + 0x100 * d[o + 1]
}

/// Little-endian value of the four bytes of `d` at `o`.
pub open spec fn le32(d: Seq<u8>, o: int) -> int {
    le16(d, o) + 0x1_0000 * le16(d, o + 2)
}

/// Little-endian value of the eight bytes of `d` at `o`.
pub open spec fn le64(d: Seq<u8>, o: int) -> int {
    le32(d, o) + 0x1_0000_0000 * le32(d, o + 4)
}

pub fn read_u16(d: &Vec<u8>, off: usize) -> (r: u16)
    requires
        off + 2 <= d.len(),
    ensures
        r == le16(d@, off as int),
{
    let b0 = d[off];
    let b1 = d[off + 1];
    (b0 as u16) + 0x100 * (b1 as u16)
}

pub fn read_u32(d: &Vec<u8>, off: usize) -> (r: u32)
    requires
        off + 4 <= d.len(),
    ensures
        r == le32(d@, off as int),
{
    let lo = read_u16(d, off);
    let hi = read_u16(d, off + 2);
    (lo as u32) + 0x1_0000 * (hi as u32)
}

pub fn read_u64(d: &Vec<u8>, off: usize) -> (r: u64)
    requires
        off + 8 <= d.len(),
    ensures
        r == le64(d@, off as int),
{
    let lo = read_u32(d, off);
    let hi = read_u32(d, off + 4);
    (lo as u64) + 0x1_0000_0000 * (hi as u64)
}

/// The NUL-terminated byte string of `d` that starts at `o`, read no
/// further than `end` and never past the end of `d`.  The terminator is
/// not part of the result.
pub open spec fn cstr(d: Seq<u8>, o: int, end: int) -> Seq<u8>
    decreases end - o,
{
    if o < 0 || o >= end || o >= d.len() || d[o] == 0 {
        Seq::empty()
    } else {
        seq![d[o]] + cstr(d, o + 1, end)
    }
}

pub fn read_cstr(d: &Vec<u8>, start: usize, end: usize) -> (r: Vec<u8>)
    ensures
        r@ == cstr(d@, start as int, end as int),
{
    let mut r: Vec<u8> = Vec::new();
    let mut i: usize = start;
    loop
        invariant
            start <= i,
            i < end ==> r@ + cstr(d@, i as int, end as int) == cstr(d@, start as int, end as int),
            i >= end ==> r@ == cstr(d@, start as int, end as int),
        decreases end - i,
    {
        if i >= end || i >= d.len() {
            proof {
                assert(cstr(d@, i as int, end as int) =~= Seq::<u8>::empty());
                if i < end {
                    assert(r@ =~= r@ + Seq::<u8>::empty());
                }
            }
            return r;
        }
        let b = d[i];
        if b == 0 {
            proof {
                assert(cstr(d@, i as int, end as int) =~= Seq::<u8>::empty());
                assert(r@ =~= r@ + Seq::<u8>::empty());
            }
            return r;
        }
        r.push(b);
        proof {
            assert(cstr(d@, i as int, end as int) == seq![d@[i as int]] + cstr(
                d@,
                i + 1,
                end as int,
            ));
            assert(r@ + cstr(d@, i + 1, end as int) =~= r@.drop_last() + cstr(
                d@,
                i as int,
                end as int,
            ));
        }
        i = i + 1;
    }
}

/// A fresh copy of the bytes.
pub fn copy_bytes(v: &Vec<u8>) -> (r: Vec<u8>)
    ensures
        r@ == v@,
{
    vstd::slice::slice_to_vec(v.as_slice())
}

/// Byte-for-byte equality of two slices.
pub fn bytes_eq(a: &[u8], b: &[u8]) -> (r: bool)
    ensures
        r == (a@ == b@),
{
    if a.len() != b.len() {
        return false;
    }
    let n = a.len();
    let mut i: usize = 0;
    while i < n
        invariant
            n == a@.len() == b@.len(),
            i <= n,
            forall|j: int| 0 <= j < i ==> a@[j] == b@[j],
        decreases n - i,
    {
        if a[i] != b[i] {
            return false;
        }
        i = i + 1;
    }
    proof {
        assert(a@ =~= b@);
    }
    true
}

/// The image `d` with its bytes at `[o, o + p.len())` replaced by `p`.
pub open spec fn splice(d: Seq<u8>, o: int, p: Seq<u8>) -> Seq<u8>
    recommends
        0 <= o,
        o + p.len() <= d.len(),
{
    d.subrange(0, o) + p + d.subrange(o + p.len(), d.len() as int)
}

/// Splicing writes the patch and nothing else: the patched region holds
/// exactly `p`, every byte outside it is unchanged, and the length is kept.
pub proof fn lemma_splice_effect(d: Seq<u8>, o: int, p: Seq<u8>)
    requires
        0 <= o,
        o + p.len() <= d.len(),
    ensures
        splice(d, o, p).len() == d.len(),
        splice(d, o, p).subrange(o, o + p.len() as int) == p,
        forall|i: int| 0 <= i < o ==> splice(d, o, p)[i] == d[i],
        forall|i: int| o + p.len() <= i < d.len() ==> splice(d, o, p)[i] == d[i],
{
    assert(splice(d, o, p).subrange(o, o + p.len() as int) =~= p);
}

/// Law: overwriting a region after capturing its bytes, then writing the
/// captured bytes back at the same offset, restores the image exactly.
pub proof fn lemma_splice_restore(d: Seq<u8>, o: int, p: Seq<u8>)
    requires
        0 <= o,
        o + p.len() <= d.len(),
    ensures
        splice(splice(d, o, p), o, d.subrange(o, o + p.len() as int)) == d,
{
    assert(splice(splice(d, o, p), o, d.subrange(o, o + p.len() as int)) =~= d);
}

/// A fresh copy of `d` with `p` written at offset `off`.
pub fn splice_bytes(d: &Vec<u8>, off: usize, p: &Vec<u8>) -> (r: Vec<u8>)
    requires
        off + p.len() <= d.len(),
    ensures
        r@ == splice(d@, off as int, p@),
{
    let mut r: Vec<u8> = Vec::new();
    let n = d.len();
    let mut i: usize = 0;
    while i < n
        invariant
            i <= n,
            n == d@.len(),
            r@ == d@.subrange(0, i as int),
        decreases n - i,
    {
        r.push(d[i]);
        proof {
            assert(r@ =~= d@.subrange(0, i + 1));
        }
        i = i + 1;
    }
    proof {
        assert(r@ =~= d@);
    }
    let m = p.len();
    let mut j: usize = 0;
    while j < m
        invariant
            j <= m,
            m == p@.len(),
            off + m <= d.len(),
            r@.len() == d@.len(),
            forall|k: int| 0 <= k < off ==> r@[k] == d@[k],
            forall|k: int| 0 <= k < j ==> r@[off + k] == p@[k],
            forall|k: int| off + m <= k < d@.len() ==> r@[k] == d@[k],
        decreases m - j,
    {
        r.set(off + j, p[j]);
        j = j + 1;
    }
    proof {
        assert(r@ =~= splice(d@, off as int, p@));
    }
    r
}

} // verus!
