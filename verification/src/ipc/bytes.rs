//! Byte-level helpers shared by the codecs.

use vstd::bytes::*;
use vstd::prelude::*;

verus! {

/// `dst` with the bytes from `at` on replaced by `src`.
pub open spec fn overwrite(dst: Seq<u8>, at: int, src: Seq<u8>) -> Seq<u8>
    recommends
        0 <= at,
        at + src.len() <= dst.len(),
{
    dst.subrange(0, at) + src + dst.subrange(at + src.len(), dst.len() as int)
}

/// Overwriting keeps the length, stores `src` at `at`, and leaves every other
/// byte as it was.
pub proof fn lemma_overwrite(dst: Seq<u8>, at: int, src: Seq<u8>)
    requires
        0 <= at,
        at + src.len() <= dst.len(),
    ensures
        overwrite(dst, at, src).len() == dst.len(),
        overwrite(dst, at, src).subrange(at, at + src.len()) == src,
        forall|i: int| 0 <= i < at ==> overwrite(dst, at, src)[i] == dst[i],
        forall|i: int| at + src.len() <= i < dst.len() ==> overwrite(dst, at, src)[i] == dst[i],
{
    assert(overwrite(dst, at, src).subrange(at, at + src.len()) =~= src);
}

/// Copies `src` into `dst`, starting at index `at`.
pub fn copy_into(dst: &mut [u8], at: usize, src: &[u8])
    requires
        at + src@.len() <= old(dst)@.len(),
    ensures
        final(dst)@ == overwrite(old(dst)@, at as int, src@),
{
    let total = dst.len();
    let count = src.len();
    let mut i: usize = 0;
    assert(dst@ =~= overwrite(old(dst)@, at as int, src@.subrange(0, 0)));
    while i < count
        invariant
            i <= count,
            count == src@.len(),
            total == dst@.len(),
            at + count <= total,
            dst@.len() == old(dst)@.len(),
            dst@ == overwrite(old(dst)@, at as int, src@.subrange(0, i as int)),
        decreases count - i,
    {
        dst[at + i] = src[i];
        i = i + 1;
        assert(dst@ =~= overwrite(old(dst)@, at as int, src@.subrange(0, i as int)));
    }
    assert(src@.subrange(0, i as int) =~= src@);
}

/// The four bytes at `at`, read as a little-endian `u32`.
pub fn read_u32_le(buf: &[u8], at: usize) -> (value: u32)
    requires
        at + 4 <= buf@.len(),
    ensures
        value == spec_u32_from_le_bytes(buf@.subrange(at as int, at + 4)),
{
    let total = buf.len();
    u32_from_le_bytes(&buf[at..at + 4])
}

/// The eight bytes at `at`, read as a little-endian `u64`.
pub fn read_u64_le(buf: &[u8], at: usize) -> (value: u64)
    requires
        at + 8 <= buf@.len(),
    ensures
        value == spec_u64_from_le_bytes(buf@.subrange(at as int, at + 8)),
{
    let total = buf.len();
    u64_from_le_bytes(&buf[at..at + 8])
}

} // verus!
