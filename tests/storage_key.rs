use substratee_stf::storage_key::{
    key_hash, storage_double_map_key, storage_key, storage_map_key, storage_value_key, MapKey,
    StorageHasher,
};

fn unhex(s: &str) -> Vec<u8> {
    (0..s.len() / 2).map(|i| u8::from_str_radix(&s[2 * i..2 * i + 2], 16).unwrap()).collect()
}

#[test]
fn value_key_of_system_account_matches_ledger() {
    let k = storage_value_key("System", "Account");
    assert_eq!(k, unhex("26aa394eea5630e07c48ae0c9558cef7b99d880ec681799c0cf30e8886371da9"));
}

#[test]
fn identity_hasher_keeps_key_bytes() {
    assert_eq!(key_hash(&[1, 2, 3], StorageHasher::Identity), vec![1, 2, 3]);
}

#[test]
fn blake2_256_of_empty_key() {
    assert_eq!(
        key_hash(&[], StorageHasher::Blake2_256),
        unhex("0e5751c026e543b2e8ab2eb06099daa1d1e5df47778f7787faab45cdf12fe3a8")
    );
}

#[test]
fn twox_64_concat_appends_key() {
    let h = key_hash(&[], StorageHasher::Twox64Concat);
    assert_eq!(h, unhex("99e9d85137db46ef"));
    let h2 = key_hash(&[7, 8], StorageHasher::Twox64Concat);
    assert_eq!(h2.len(), 10);
    assert_eq!(&h2[8..], &[7, 8]);
}

#[test]
fn blake2_128_concat_appends_key() {
    let h = key_hash(&[9; 32], StorageHasher::Blake2_128Concat);
    assert_eq!(h.len(), 48);
    assert_eq!(&h[16..], &[9; 32][..]);
    assert_eq!(&h[..16], &key_hash(&[9; 32], StorageHasher::Blake2_128)[..]);
}

#[test]
fn hash_lengths() {
    assert_eq!(key_hash(b"x", StorageHasher::Blake2_128).len(), 16);
    assert_eq!(key_hash(b"x", StorageHasher::Twox128).len(), 16);
    assert_eq!(key_hash(b"x", StorageHasher::Twox256).len(), 32);
    assert_eq!(key_hash(b"x", StorageHasher::Blake2_256).len(), 32);
}

#[test]
fn map_key_is_value_key_then_key_hash() {
    let k = storage_map_key("System", "Account", &[5; 32], StorageHasher::Blake2_128Concat);
    let mut expected = storage_value_key("System", "Account");
    expected.extend(key_hash(&[5; 32], StorageHasher::Blake2_128Concat));
    assert_eq!(k, expected);
    assert_eq!(k.len(), 32 + 16 + 32);
}

#[test]
fn general_key_agrees_with_double_map_key() {
    let keys = vec![
        MapKey { encoded: vec![1; 32], hasher: StorageHasher::Blake2_128Concat },
        MapKey { encoded: vec![2; 32], hasher: StorageHasher::Twox64Concat },
    ];
    let a = storage_key("EncointerBalances", "Balance", &keys);
    let b = storage_double_map_key(
        "EncointerBalances",
        "Balance",
        &[1; 32],
        StorageHasher::Blake2_128Concat,
        &[2; 32],
        StorageHasher::Twox64Concat,
    );
    assert_eq!(a, b);
    assert_eq!(storage_key("EncointerBalances", "Balance", &[]), storage_value_key("EncointerBalances", "Balance"));
}

#[test]
fn derivation_is_deterministic_and_sensitive() {
    let a = storage_map_key("M", "I", &[1, 2, 3, 4], StorageHasher::Twox128);
    let b = storage_map_key("M", "I", &[1, 2, 3, 4], StorageHasher::Twox128);
    assert_eq!(a, b);
    let c = storage_map_key("M", "I", &[1, 2, 3, 5], StorageHasher::Twox128);
    assert_ne!(a, c);
    let d = storage_map_key("N", "I", &[1, 2, 3, 4], StorageHasher::Twox128);
    assert_ne!(a, d);
    let e = storage_map_key("M", "J", &[1, 2, 3, 4], StorageHasher::Twox128);
    assert_ne!(a, e);
}
