//! Integrity digest over a token sequence.

use vstd::bytes::{spec_u64_to_le_bytes, u64_to_le_bytes};
use vstd::prelude::*;

use crate::protocols::{compute_block_hash, xxh3_64, LocalBlockHash, XXH3_SEED};

verus! {

/// The byte encoding of a token sequence: eight bytes per token, least significant first, tokens
/// in order.
pub open spec fn encoded_tokens(tokens: Seq<u64>) -> Seq<u8> {
    Seq::new(8 * tokens.len(), |i: int| spec_u64_to_le_bytes(tokens[i / 8])[i % 8])
}

/// The digest of a token sequence: the block hash of its encoding.
pub open spec fn digest_of(tokens: Seq<u64>) -> LocalBlockHash {
    LocalBlockHash(xxh3_64(encoded_tokens(tokens), XXH3_SEED))
}

/// Lays out `tokens` as bytes.
pub fn token_bytes(tokens: &[u64]) -> (bytes: Vec<u8>)
    ensures
        bytes@ == encoded_tokens(tokens@),
        bytes@.len() == 8 * tokens@.len(),
        forall|n: int, k: int|
            #![trigger bytes@[8 * n + k]]
            0 <= n < tokens@.len() && 0 <= k < 8 ==> bytes@[8 * n + k] == spec_u64_to_le_bytes(
                tokens@[n],
            )[k],
{
    let mut bytes: Vec<u8> = Vec::new();
    let mut n: usize = 0;
    while n < tokens.len()
        invariant
            n <= tokens@.len(),
            bytes@ == encoded_tokens(tokens@.take(n as int)),
        decreases tokens@.len() - n,
    {
        let mut word = u64_to_le_bytes(tokens[n]);
        bytes.append(&mut word);
        n = n + 1;
    }
    bytes
}

/// Non-reversible digest over a token sequence, in the hashing family of the exact event plane, so
/// that an engine-local provider can reproduce it from the tokens it observed. For integrity and
/// deduplication only, never a semantic key.
pub fn sequence_digest(tokens: &[u64]) -> (digest: LocalBlockHash)
    ensures
        digest == digest_of(tokens@),
        digest == LocalBlockHash(xxh3_64(encoded_tokens(tokens@), XXH3_SEED)),
{
    let bytes = token_bytes(tokens);
    compute_block_hash(bytes.as_slice())
}

} // verus!
