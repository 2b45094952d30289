//! CRC32 checksums, computed by the `crc32fast` crate.

use vstd::prelude::*;

verus! {

/// The CRC32 (IEEE) checksum of `data`, as `crc32fast` computes it.
pub uninterp spec fn crc32_of(data: Seq<u8>) -> u32;

/// The bytes that a hasher has been fed since it was made.
pub uninterp spec fn hasher_input(hasher: crc32fast::Hasher) -> Seq<u8>;

/// `crc32fast::Hasher`, an in-progress checksum computation; its state is
/// not looked into.
#[verifier::external_type_specification]
#[verifier::external_body]
pub struct ExHasher(crc32fast::Hasher);

/// `crc32fast::Hasher::new` starts a computation over no bytes.
pub assume_specification[ crc32fast::Hasher::new ]() -> (hasher: crc32fast::Hasher)
    ensures
        hasher_input(hasher) == Seq::<u8>::empty(),
;

/// `crc32fast::Hasher::update` appends `buf` to the bytes processed so far.
/// The hasher counts its bytes in a `u64`, which must not overflow.
pub assume_specification[ crc32fast::Hasher::update ](hasher: &mut crc32fast::Hasher, buf: &[u8])
    requires
        hasher_input(*old(hasher)).len() + buf@.len() <= u64::MAX,
    ensures
        hasher_input(*final(hasher)) == hasher_input(*old(hasher)) + buf@,
;

/// Calls `crc32fast::Hasher::finalize`, which returns the checksum of all
/// bytes that the hasher has processed.
#[verifier::external_body]
fn hasher_sum(hasher: crc32fast::Hasher) -> (sum: u32)
    ensures
        sum == crc32_of(hasher_input(hasher)),
{
    hasher.finalize()
}

/// The checksum of `head` followed by `tail`, without joining the two.
pub fn checksum_of_parts(head: &[u8], tail: &[u8]) -> (sum: u32)
    requires
        head@.len() + tail@.len() <= u64::MAX,
    ensures
        sum == crc32_of(head@ + tail@),
{
    let mut hasher = crc32fast::Hasher::new();
    hasher.update(head);
    hasher.update(tail);
    assert(Seq::<u8>::empty() + head@ =~= head@);
    hasher_sum(hasher)
}

} // verus!
