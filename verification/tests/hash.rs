use vw_text::hash::uniform_hash;

#[test]
fn hash_is_deterministic() {
    let inputs: [&[u8]; 4] = [b"", b"a", b"test", b"a longer feature name"];
    for seed in [0u64, 1, 42, u64::MAX] {
        for bytes in inputs {
            assert_eq!(uniform_hash(bytes, seed), uniform_hash(bytes, seed));
        }
    }
}

#[test]
fn hash_differs_on_one_byte_change() {
    // Statistical avalanche check on concrete pairs: equal-length inputs
    // differing in one byte hash apart.
    let pairs: [(&[u8], &[u8]); 4] = [
        (b"a", b"b"),
        (b"test", b"tesu"),
        (b"test", b"uest"),
        (b"feature_name", b"feature_nbme"),
    ];
    for (left, right) in pairs {
        assert_ne!(uniform_hash(left, 0), uniform_hash(right, 0));
        assert_ne!(uniform_hash(left, 7), uniform_hash(right, 7));
    }
}

#[test]
fn hash_differs_on_seed_change() {
    assert_ne!(uniform_hash(b"test", 0), uniform_hash(b"test", 1));
    assert_ne!(uniform_hash(b"", 0), uniform_hash(b"", 1));
}

#[test]
fn hash_chains_namespaces_apart() {
    // The two-level chaining: the same feature name in two namespaces gets
    // two different ids.
    let ns1 = uniform_hash(b"one", 0);
    let ns2 = uniform_hash(b"two", 0);
    assert_ne!(uniform_hash(b"feature", ns1), uniform_hash(b"feature", ns2));
}
