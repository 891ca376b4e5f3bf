//! Identifiers and block hashes shared with the exact event plane.

use vstd::prelude::*;

verus! {

/// Identifies a worker.
pub type WorkerId = u64;

/// Data-parallel rank within a worker.
pub type DpRank = u32;

/// Seed of the hashing family that the exact event plane and this one share.
pub const XXH3_SEED: u64 = 1337;

/// Hash over the tokens of one span.
#[derive(Debug, Clone, Copy, PartialEq, Eq, Hash, Structural)]
pub struct LocalBlockHash(pub u64);

/// Hash that identifies a block by its lineage on the exact event plane.
#[derive(Debug, Clone, Copy, PartialEq, Eq, Hash, Structural)]
pub struct ExternalSequenceBlockHash(pub u64);

/// Memory tier at which KV resides, from the fastest to the most distant.
#[derive(Debug, Clone, Copy, PartialEq, Eq, Hash, Structural)]
pub enum StorageTier {
    /// Accelerator memory.
    Device,
    /// Pinned host memory.
    HostPinned,
    /// Local disk.
    Disk,
    /// A store outside the worker.
    External,
}

/// The 64-bit XXH3 hash of `input` under `seed`.
pub uninterp spec fn xxh3_64(input: Seq<u8>, seed: u64) -> u64;

/// `xxhash_rust::xxh3::xxh3_64_with_seed` is trusted to be a function of the bytes and the seed
/// alone. Nothing is claimed of the value itself.
pub assume_specification[ xxhash_rust::xxh3::xxh3_64_with_seed ](input: &[u8], seed: u64) -> (hash:
    u64)
    ensures
        hash == xxh3_64(input@, seed),
;

/// The hash of one block of bytes: XXH3 under the shared seed.
pub fn compute_block_hash(data: &[u8]) -> (hash: LocalBlockHash)
    ensures
        hash == LocalBlockHash(xxh3_64(data@, XXH3_SEED)),
{
    LocalBlockHash(xxhash_rust::xxh3::xxh3_64_with_seed(data, XXH3_SEED))
}

} // verus!
