use semantic_events::{compute_block_hash, sequence_digest, token_bytes};
use xxhash_rust::xxh3::Xxh3;

#[test]
fn sequence_digest_is_stable_and_content_sensitive() {
    let a = sequence_digest(&[1, 2, 3, 4]);
    assert_eq!(a, sequence_digest(&[1, 2, 3, 4]));
    assert_ne!(a, sequence_digest(&[1, 2, 3, 5]));
    assert_ne!(a, sequence_digest(&[1, 2, 3]));
}

#[test]
fn tokens_are_laid_out_little_endian() {
    assert_eq!(token_bytes(&[]), Vec::<u8>::new());
    assert_eq!(
        token_bytes(&[1, 0x0807_0605_0403_0201]),
        vec![1, 0, 0, 0, 0, 0, 0, 0, 1, 2, 3, 4, 5, 6, 7, 8]
    );
}

#[test]
fn token_layout_keeps_sequences_apart() {
    assert_ne!(token_bytes(&[1, 2]), token_bytes(&[2, 1]));
    assert_ne!(token_bytes(&[0]), token_bytes(&[0, 0]));
    assert_ne!(token_bytes(&[256]), token_bytes(&[1]));
}

#[test]
fn digest_is_the_seeded_hash_of_the_layout() {
    let tokens = [5u64, 6, u64::MAX];
    let mut hasher = Xxh3::with_seed(1337);
    for token in tokens {
        hasher.update(&token.to_le_bytes());
    }
    assert_eq!(sequence_digest(&tokens).0, hasher.digest());
    assert_eq!(sequence_digest(&tokens), compute_block_hash(&token_bytes(&tokens)));
}

#[test]
fn long_sequences_are_hashed_whole() {
    let tokens: Vec<u64> = (0..500).collect();
    let mut hasher = Xxh3::with_seed(1337);
    for token in &tokens {
        hasher.update(&token.to_le_bytes());
    }
    assert_eq!(sequence_digest(&tokens).0, hasher.digest());
    let mut altered = tokens.clone();
    altered[499] = 0;
    assert_ne!(sequence_digest(&tokens), sequence_digest(&altered));
}
