use hash_color_lib::hash::{fnv1a_64, fnv1a_64_seeded};

#[test]
fn same_input_same_hash() {
    assert_eq!(fnv1a_64(b"hello"), fnv1a_64(b"hello"));
}

#[test]
fn different_inputs_different_hashes() {
    assert_ne!(fnv1a_64(b"hello"), fnv1a_64(b"world"));
}

#[test]
fn similar_inputs_different_hashes() {
    assert_ne!(fnv1a_64(b"web-01"), fnv1a_64(b"web-02"));
    assert_ne!(fnv1a_64(b"web-01"), fnv1a_64(b"web-03"));
    assert_ne!(fnv1a_64(b"alice"), fnv1a_64(b"alicf"));
}

#[test]
fn seed_changes_hash() {
    assert_ne!(fnv1a_64_seeded(b"hello", 0), fnv1a_64_seeded(b"hello", 1));
}

#[test]
fn adjacent_seeds_produce_different_hashes() {
    let h0 = fnv1a_64_seeded(b"a", 0);
    let h1 = fnv1a_64_seeded(b"a", 1);
    let h2 = fnv1a_64_seeded(b"a", 2);
    assert_ne!(h0, h1);
    assert_ne!(h1, h2);
    assert_ne!(h0, h2);
}

#[test]
fn seed_zero_matches_unseeded() {
    assert_eq!(fnv1a_64(b"hello"), fnv1a_64_seeded(b"hello", 0));
}

#[test]
fn hash_is_deterministic_across_calls() {
    for _ in 0..100 {
        assert_eq!(fnv1a_64(b"consistent"), fnv1a_64(b"consistent"));
    }
}

/// Reference computation written independently of the library.
fn reference(data: &[u8], seed: u64) -> u64 {
    let mut h = 14695981039346656037u64.wrapping_add(seed.wrapping_mul(0x9e3779b97f4a7c15));
    for &b in data {
        h ^= b as u64;
        h = h.wrapping_mul(1099511628211);
    }
    h ^= h >> 30;
    h = h.wrapping_mul(0xbf58476d1ce4e5b9);
    h ^= h >> 27;
    h = h.wrapping_mul(0x94d049bb133111eb);
    h ^= h >> 31;
    h
}

#[test]
fn hash_matches_fnv1a_with_splitmix_finalizer() {
    for (data, seed) in [(&b""[..], 0u64), (b"hello", 0), (b"hello", 42), (b"web-01", 7)] {
        assert_eq!(fnv1a_64_seeded(data, seed), reference(data, seed));
    }
}

#[test]
fn empty_input_hash_is_finalized_offset() {
    // The empty input hashes to the finalizer applied to the FNV offset basis.
    assert_eq!(fnv1a_64(b""), reference(b"", 0));
    assert_ne!(fnv1a_64(b""), 14695981039346656037u64);
}

#[test]
fn many_seeds_all_distinct() {
    let mut seen = std::collections::HashSet::new();
    for seed in 0u64..1000 {
        assert!(seen.insert(fnv1a_64_seeded(b"seed-test-input", seed)));
    }
}
