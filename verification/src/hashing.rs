//! The hash functions the engine uses to key its tables.

use vstd::prelude::*;

verus! {

/// Names the 64-bit MetroHash (variant 1, seed 0) that `fasthash::metro::hash64`
/// computes over a byte string. It is a pure function of the bytes for a given
/// build of the library.
pub uninterp spec fn metro_hash64_of(bytes: Seq<u8>) -> u64;

/// Calls `fasthash::metro::hash64` on `bytes`. Claimed: the result is the
/// MetroHash of exactly these bytes, that is, it depends on nothing else.
#[verifier::external_body]
pub(crate) fn metro_hash64(bytes: &[u8]) -> (r: u64)
    ensures
        r == metro_hash64_of(bytes@),
{
    fasthash::metro::hash64(bytes)
}

} // verus!
