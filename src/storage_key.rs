//! Storage addresses in the host ledger's layout:
//! `twox_128(module) ++ twox_128(item) ++ hash(key_1) ++ ... ++ hash(key_n)`.
use vstd::prelude::*;

verus! {

/// The 16-byte xxHash digest (seeds 0 and 1) of the input.
pub uninterp spec fn twox_128_of(data: Seq<u8>) -> Seq<u8>;

/// The 32-byte xxHash digest (seeds 0 to 3) of the input.
pub uninterp spec fn twox_256_of(data: Seq<u8>) -> Seq<u8>;

/// The 8-byte xxHash digest (seed 0) of the input.
pub uninterp spec fn twox_64_of(data: Seq<u8>) -> Seq<u8>;

/// The 16-byte BLAKE2b digest of the input.
pub uninterp spec fn blake2_128_of(data: Seq<u8>) -> Seq<u8>;

/// The 32-byte BLAKE2b digest of the input.
pub uninterp spec fn blake2_256_of(data: Seq<u8>) -> Seq<u8>;

/// A digest as a sequence of its fixed length `n`.
pub open spec fn sized(d: Seq<u8>, n: nat) -> Seq<u8> {
    Seq::new(n, |i: int| d[i])
}

proof fn lemma_sized(d: Seq<u8>, n: nat)
    requires
        d.len() == n,
    ensures
        sized(d, n) == d,
{
    assert(sized(d, n) =~= d);
}

/// Relies on sp_crypto_hashing::twox_128: a 16-byte digest that depends on the input alone.
#[verifier::external_body]
fn twox_128(data: &[u8]) -> (r: Vec<u8>)
    ensures
        r@ == twox_128_of(data@),
        r@.len() == 16,
{
    sp_crypto_hashing::twox_128(data).to_vec()
}

/// Relies on sp_crypto_hashing::twox_256: a 32-byte digest that depends on the input alone.
#[verifier::external_body]
fn twox_256(data: &[u8]) -> (r: Vec<u8>)
    ensures
        r@ == twox_256_of(data@),
        r@.len() == 32,
{
    sp_crypto_hashing::twox_256(data).to_vec()
}

/// Relies on sp_crypto_hashing::twox_64: an 8-byte digest that depends on the input alone.
#[verifier::external_body]
fn twox_64(data: &[u8]) -> (r: Vec<u8>)
    ensures
        r@ == twox_64_of(data@),
        r@.len() == 8,
{
    sp_crypto_hashing::twox_64(data).to_vec()
}

/// Relies on sp_crypto_hashing::blake2_128: a 16-byte digest that depends on the input alone.
#[verifier::external_body]
fn blake2_128(data: &[u8]) -> (r: Vec<u8>)
    ensures
        r@ == blake2_128_of(data@),
        r@.len() == 16,
{
    sp_crypto_hashing::blake2_128(data).to_vec()
}

/// Relies on sp_crypto_hashing::blake2_256: a 32-byte digest that depends on the input alone.
#[verifier::external_body]
fn blake2_256(data: &[u8]) -> (r: Vec<u8>)
    ensures
        r@ == blake2_256_of(data@),
        r@.len() == 32,
{
    sp_crypto_hashing::blake2_256(data).to_vec()
}

/// How one map key is turned into its part of a storage address.
#[allow(non_camel_case_types)]
#[derive(Clone, Copy, Debug, PartialEq, Eq, Structural)]
pub enum StorageHasher {
    Blake2_128,
    Blake2_256,
    Blake2_128Concat,
    Twox128,
    Twox256,
    Twox64Concat,
    Identity,
}

/// One map key of a storage address: its encoded bytes and the hasher applied to them.
#[derive(Debug)]
pub struct MapKey {
    pub encoded: Vec<u8>,
    pub hasher: StorageHasher,
}

/// The length of the part that a key of `n` bytes contributes under `hasher`.
pub open spec fn key_hash_len(n: nat, hasher: StorageHasher) -> nat {
    match hasher {
        StorageHasher::Identity => n,
        StorageHasher::Blake2_128 | StorageHasher::Twox128 => 16,
        StorageHasher::Blake2_256 | StorageHasher::Twox256 => 32,
        StorageHasher::Blake2_128Concat => 16 + n,
        StorageHasher::Twox64Concat => 8 + n,
    }
}

/// The part of an address that one encoded map key contributes.
pub open spec fn key_hash_spec(key: Seq<u8>, hasher: StorageHasher) -> Seq<u8> {
    match hasher {
        StorageHasher::Identity => key,
        StorageHasher::Blake2_128 => sized(blake2_128_of(key), 16),
        StorageHasher::Blake2_128Concat => sized(blake2_128_of(key), 16) + key,
        StorageHasher::Blake2_256 => sized(blake2_256_of(key), 32),
        StorageHasher::Twox128 => sized(twox_128_of(key), 16),
        StorageHasher::Twox256 => sized(twox_256_of(key), 32),
        StorageHasher::Twox64Concat => sized(twox_64_of(key), 8) + key,
    }
}

/// The address of a plain storage value, from the UTF-8 bytes of its module and item names.
pub open spec fn value_key_spec(module: Seq<char>, item: Seq<char>) -> Seq<u8> {
    sized(twox_128_of(vstd::utf8::encode_utf8(module)), 16) + sized(
        twox_128_of(vstd::utf8::encode_utf8(item)),
        16,
    )
}

/// The hashed map keys, in order, concatenated.
pub open spec fn map_keys_spec(keys: Seq<(Seq<u8>, StorageHasher)>) -> Seq<u8>
    decreases keys.len(),
{
    if keys.len() == 0 {
        Seq::empty()
    } else {
        map_keys_spec(keys.drop_last()) + key_hash_spec(keys.last().0, keys.last().1)
    }
}

/// The address of an entry of a storage map with any number of keys.
pub open spec fn storage_key_spec(
    module: Seq<char>,
    item: Seq<char>,
    keys: Seq<(Seq<u8>, StorageHasher)>,
) -> Seq<u8> {
    value_key_spec(module, item) + map_keys_spec(keys)
}

/// The mathematical view of a list of map keys.
pub open spec fn map_keys_view(keys: Seq<MapKey>) -> Seq<(Seq<u8>, StorageHasher)> {
    keys.map_values(|k: MapKey| (k.encoded@, k.hasher))
}

/// The part of an address that one encoded map key contributes under `hasher`.
pub fn key_hash(key: &[u8], hasher: StorageHasher) -> (r: Vec<u8>)
    ensures
        r@ == key_hash_spec(key@, hasher),
        r@.len() == key_hash_len(key@.len(), hasher),
{
    match hasher {
        StorageHasher::Identity => vstd::slice::slice_to_vec(key),
        StorageHasher::Blake2_128 => {
            let r = blake2_128(key);
            proof {
                lemma_sized(r@, 16);
            }
            r
        },
        StorageHasher::Blake2_128Concat => {
            let mut r = blake2_128(key);
            proof {
                lemma_sized(r@, 16);
            }
            let mut k = vstd::slice::slice_to_vec(key);
            r.append(&mut k);
            r
        },
        StorageHasher::Blake2_256 => {
            let r = blake2_256(key);
            proof {
                lemma_sized(r@, 32);
            }
            r
        },
        StorageHasher::Twox128 => {
            let r = twox_128(key);
            proof {
                lemma_sized(r@, 16);
            }
            r
        },
        StorageHasher::Twox256 => {
            let r = twox_256(key);
            proof {
                lemma_sized(r@, 32);
            }
            r
        },
        StorageHasher::Twox64Concat => {
            let mut r = twox_64(key);
            proof {
                lemma_sized(r@, 8);
            }
            let mut k = vstd::slice::slice_to_vec(key);
            r.append(&mut k);
            r
        },
    }
}

/// The part a key contributes has the length its hasher gives.
pub proof fn lemma_key_hash_len(key: Seq<u8>, hasher: StorageHasher)
    ensures
        key_hash_spec(key, hasher).len() == key_hash_len(key.len(), hasher),
{
}

/// The address of the plain storage value `storage_prefix` of module `module_prefix`.
pub fn storage_value_key(module_prefix: &str, storage_prefix: &str) -> (r: Vec<u8>)
    ensures
        r@ == value_key_spec(module_prefix@, storage_prefix@),
        r@.len() == 32,
{
    let mut r = twox_128(module_prefix.as_bytes());
    let mut item = twox_128(storage_prefix.as_bytes());
    proof {
        lemma_sized(r@, 16);
        lemma_sized(item@, 16);
    }
    r.append(&mut item);
    r
}

/// The address of the entry under `keys` (in order) of the storage map `storage_prefix`
/// of module `module_prefix`.
pub fn storage_key(module_prefix: &str, storage_prefix: &str, keys: &[MapKey]) -> (r: Vec<u8>)
    ensures
        r@ == storage_key_spec(module_prefix@, storage_prefix@, map_keys_view(keys@)),
{
    let mut r = storage_value_key(module_prefix, storage_prefix);
    let ghost prefix = r@;
    let mut i: usize = 0;
    while i < keys.len()
        invariant
            0 <= i <= keys@.len(),
            prefix == value_key_spec(module_prefix@, storage_prefix@),
            r@ == prefix + map_keys_spec(map_keys_view(keys@.subrange(0, i as int))),
        decreases keys@.len() - i,
    {
        let mut part = key_hash(keys[i].encoded.as_slice(), keys[i].hasher);
        proof {
            let s = map_keys_view(keys@.subrange(0, i as int + 1));
            assert(s.drop_last() =~= map_keys_view(keys@.subrange(0, i as int)));
            assert(s.last() == (keys@[i as int].encoded@, keys@[i as int].hasher));
        }
        r.append(&mut part);
        proof {
            assert(r@ =~= prefix + map_keys_spec(map_keys_view(keys@.subrange(0, i as int + 1))));
        }
        i = i + 1;
    }
    assert(keys@.subrange(0, keys@.len() as int) =~= keys@);
    r
}

/// The address of the entry under `mapkey1` of a storage map with one key.
pub fn storage_map_key(
    module_prefix: &str,
    storage_prefix: &str,
    mapkey1: &[u8],
    hasher1: StorageHasher,
) -> (r: Vec<u8>)
    ensures
        r@ == value_key_spec(module_prefix@, storage_prefix@) + key_hash_spec(mapkey1@, hasher1),
        r@.len() == 32 + key_hash_len(mapkey1@.len(), hasher1),
        r@.subrange(0, 32) == value_key_spec(module_prefix@, storage_prefix@),
{
    let mut r = storage_value_key(module_prefix, storage_prefix);
    let mut k = key_hash(mapkey1, hasher1);
    let ghost prefix = r@;
    r.append(&mut k);
    assert(r@.subrange(0, 32) =~= prefix);
    r
}

/// The address of the entry under `mapkey1` and `mapkey2` of a storage map with two keys.
pub fn storage_double_map_key(
    module_prefix: &str,
    storage_prefix: &str,
    mapkey1: &[u8],
    hasher1: StorageHasher,
    mapkey2: &[u8],
    hasher2: StorageHasher,
) -> (r: Vec<u8>)
    ensures
        r@ == value_key_spec(module_prefix@, storage_prefix@) + key_hash_spec(mapkey1@, hasher1)
            + key_hash_spec(mapkey2@, hasher2),
        r@.len() == 32 + key_hash_len(mapkey1@.len(), hasher1) + key_hash_len(
            mapkey2@.len(),
            hasher2,
        ),
        r@.subrange(0, 32) == value_key_spec(module_prefix@, storage_prefix@),
{
    let mut r = storage_value_key(module_prefix, storage_prefix);
    let ghost prefix = r@;
    let mut k1 = key_hash(mapkey1, hasher1);
    let mut k2 = key_hash(mapkey2, hasher2);
    r.append(&mut k1);
    r.append(&mut k2);
    assert(r@.subrange(0, 32) =~= prefix);
    r
}

/// The one-key and two-key addresses are the general address with that many keys.
pub proof fn lemma_storage_key_forms(
    module: Seq<char>,
    item: Seq<char>,
    key1: Seq<u8>,
    hasher1: StorageHasher,
    key2: Seq<u8>,
    hasher2: StorageHasher,
)
    ensures
        storage_key_spec(module, item, seq![(key1, hasher1)]) == value_key_spec(module, item)
            + key_hash_spec(key1, hasher1),
        storage_key_spec(module, item, seq![(key1, hasher1), (key2, hasher2)]) == value_key_spec(
            module,
            item,
        ) + key_hash_spec(key1, hasher1) + key_hash_spec(key2, hasher2),
{
    let one = seq![(key1, hasher1)];
    let two = seq![(key1, hasher1), (key2, hasher2)];
    assert(one.drop_last() =~= Seq::<(Seq<u8>, StorageHasher)>::empty());
    assert(map_keys_spec(one.drop_last()) =~= Seq::<u8>::empty());
    assert(one.last() == (key1, hasher1));
    assert(two.drop_last() =~= one);
    assert(map_keys_spec(one) =~= key_hash_spec(key1, hasher1));
    assert(storage_key_spec(module, item, two) =~= value_key_spec(module, item) + key_hash_spec(
        key1,
        hasher1,
    ) + key_hash_spec(key2, hasher2));
}

/// Under a hasher that keeps the key's bytes (`Identity`, `Blake2_128Concat`,
/// `Twox64Concat`), two different keys of one length give different addresses in the same map.
pub proof fn lemma_transparent_keys_distinguish(
    module: Seq<char>,
    item: Seq<char>,
    key1: Seq<u8>,
    key2: Seq<u8>,
    hasher: StorageHasher,
)
    requires
        key1.len() == key2.len(),
        key1 != key2,
        hasher == StorageHasher::Identity || hasher == StorageHasher::Blake2_128Concat
            || hasher == StorageHasher::Twox64Concat,
    ensures
        value_key_spec(module, item) + key_hash_spec(key1, hasher) != value_key_spec(module, item)
            + key_hash_spec(key2, hasher),
{
    let a = value_key_spec(module, item) + key_hash_spec(key1, hasher);
    let b = value_key_spec(module, item) + key_hash_spec(key2, hasher);
    if a == b {
        assert(a.len() == b.len());
        let n = a.len() - key1.len();
        assert(a.subrange(n, a.len() as int) =~= key1);
        assert(b.subrange(n, b.len() as int) =~= key2);
    }
}

} // verus!
