//! Balances per currency and account in the shard's state, and transfers between them.
//!
//! This is a model of the host ledger's balances module, written for this library: the
//! storage address follows that module's names, the error cases are this model's own.
use vstd::prelude::*;
use crate::attendance::{AccountId, CurrencyIdentifier, array_bytes};
use crate::demurrage::{BalanceEntry, BlockNumber, DemurrageError, apply_demurrage, present_value_spec};
use crate::fixed::BalanceType;
use crate::scale::{
    lemma_le_decode_encode, lemma_pow256_values, lemma_i128_bits_round_trip,
    le_encode, le_decode, i128_bits, i128_of_bits, encode_i128, encode_u32, decode_i128, decode_u32,
};
use crate::runtime::{DispatchError, Runtime, reports, keeps_nonces, lemma_insert_keeps_nonces, same_at};
use crate::state::State;
use crate::storage_key::{StorageHasher, value_key_spec, key_hash_spec, storage_double_map_key};

verus! {

/// The address of the balance entry of `who` in currency `cid`.
pub open spec fn balance_key_spec(cid: Seq<u8>, who: Seq<u8>) -> Seq<u8> {
    value_key_spec("EncointerBalances"@, "Balance"@) + key_hash_spec(
        cid,
        StorageHasher::Blake2_128Concat,
    ) + key_hash_spec(who, StorageHasher::Blake2_128Concat)
}

/// The encoding of a balance entry: the principal's sixteen bytes, then the height's four.
pub open spec fn entry_bytes(e: BalanceEntry) -> Seq<u8> {
    le_encode(i128_bits(e.principal.bits), 16) + le_encode(e.last_update as nat, 4)
}

/// The balance entry whose encoding starts `s` (at least twenty bytes).
pub open spec fn entry_of_bytes(s: Seq<u8>) -> BalanceEntry {
    BalanceEntry {
        principal: BalanceType { bits: i128_of_bits(le_decode(s.subrange(0, 16))) as i128 },
        last_update: le_decode(s.subrange(16, 20)) as u32,
    }
}

/// Decoding an encoded entry gives the entry back.
pub proof fn lemma_entry_round_trip(e: BalanceEntry)
    ensures
        entry_bytes(e).len() == 20,
        entry_of_bytes(entry_bytes(e)) == e,
{
    let p = le_encode(i128_bits(e.principal.bits), 16);
    let h = le_encode(e.last_update as nat, 4);
    lemma_pow256_values();
    lemma_i128_bits_round_trip(e.principal.bits);
    lemma_le_decode_encode(i128_bits(e.principal.bits), 16);
    lemma_le_decode_encode(e.last_update as nat, 4);
    assert(entry_bytes(e).subrange(0, 16) =~= p);
    assert(entry_bytes(e).subrange(16, 20) =~= h);
}

/// The entry stored at `k`, where one is there and can be decoded.
pub open spec fn stored_entry(m: Map<Seq<u8>, Seq<u8>>, k: Seq<u8>) -> Option<BalanceEntry> {
    if m.contains_key(k) && m[k].len() >= 20 {
        Some(entry_of_bytes(m[k]))
    } else {
        None
    }
}

/// The balance at `k` as of the current height; an absent or undecodable entry counts as zero.
pub open spec fn present_balance_spec(m: Map<Seq<u8>, Seq<u8>>, k: Seq<u8>, rt: Runtime) -> Result<
    BalanceType,
    DispatchError,
> {
    match stored_entry(m, k) {
        None => Ok(BalanceType { bits: 0 }),
        Some(e) => match present_value_spec(e, rt.block_number, rt.demurrage_per_block) {
            Ok(v) => Ok(v),
            Err(d) => Err(DispatchError::Demurrage(d)),
        },
    }
}

/// The state after `from` sends `amount` of currency `cid` to `to`. Both entries are brought
/// to the current height.
pub open spec fn transfer_spec(
    m: Map<Seq<u8>, Seq<u8>>,
    from: AccountId,
    to: AccountId,
    cid: CurrencyIdentifier,
    amount: BalanceType,
    rt: Runtime,
) -> Result<Map<Seq<u8>, Seq<u8>>, DispatchError> {
    let kf = balance_key_spec(cid@, from@);
    let kt = balance_key_spec(cid@, to@);
    if amount.bits < 0 {
        Err(DispatchError::NegativeAmount)
    } else {
        match present_balance_spec(m, kf, rt) {
            Err(e) => Err(e),
            Ok(bf) => if bf.bits < amount.bits {
                Err(DispatchError::InsufficientBalance)
            } else if from@ == to@ {
                Ok(
                    m.insert(
                        kf,
                        entry_bytes(BalanceEntry { principal: bf, last_update: rt.block_number }),
                    ),
                )
            } else {
                match present_balance_spec(m, kt, rt) {
                    Err(e) => Err(e),
                    Ok(bt) => if bt.bits + amount.bits > i128::MAX {
                        Err(DispatchError::Overflow)
                    } else {
                        Ok(
                            m.insert(
                                kf,
                                entry_bytes(
                                    BalanceEntry {
                                        principal: BalanceType { bits: (bf.bits - amount.bits) as i128 },
                                        last_update: rt.block_number,
                                    },
                                ),
                            ).insert(
                                kt,
                                entry_bytes(
                                    BalanceEntry {
                                        principal: BalanceType { bits: (bt.bits + amount.bits) as i128 },
                                        last_update: rt.block_number,
                                    },
                                ),
                            ),
                        )
                    },
                }
            },
        }
    }
}

/// A balance address has 128 bytes: the table prefix, then each 32-byte key after its
/// 16-byte digest.
pub proof fn lemma_balance_key_len(cid: CurrencyIdentifier, who: AccountId)
    ensures
        balance_key_spec(cid@, who@).len() == 128,
{
}

/// Different currencies or accounts have different balance addresses.
pub proof fn lemma_balance_keys_distinct(
    c1: CurrencyIdentifier,
    w1: AccountId,
    c2: CurrencyIdentifier,
    w2: AccountId,
)
    requires
        c1 != c2 || w1 != w2,
    ensures
        balance_key_spec(c1@, w1@) != balance_key_spec(c2@, w2@),
{
    let k1 = balance_key_spec(c1@, w1@);
    let k2 = balance_key_spec(c2@, w2@);
    if k1 == k2 {
        assert(k1.subrange(48, 80) =~= c1@);
        assert(k2.subrange(48, 80) =~= c2@);
        assert(k1.subrange(96, 128) =~= w1@);
        assert(k2.subrange(96, 128) =~= w2@);
        assert(c1 =~= c2);
        assert(w1 =~= w2);
    }
}

/// A transfer that succeeds writes only balance addresses, so every nonce stays.
pub proof fn lemma_transfer_keeps_nonces(
    m: Map<Seq<u8>, Seq<u8>>,
    from: AccountId,
    to: AccountId,
    cid: CurrencyIdentifier,
    amount: BalanceType,
    rt: Runtime,
)
    ensures
        transfer_spec(m, from, to, cid, amount, rt) matches Ok(m2) ==> keeps_nonces(m, m2),
{
    let kf = balance_key_spec(cid@, from@);
    let kt = balance_key_spec(cid@, to@);
    lemma_balance_key_len(cid, from);
    lemma_balance_key_len(cid, to);
    if let Ok(m2) = transfer_spec(m, from, to, cid, amount, rt) {
        if from@ == to@ {
            lemma_insert_keeps_nonces(m, kf, m2[kf]);
            assert(m2 == m.insert(kf, m2[kf]));
        } else {
            let m1 = m.insert(kf, m2[kf]);
            lemma_insert_keeps_nonces(m, kf, m2[kf]);
            lemma_insert_keeps_nonces(m1, kt, m2[kt]);
            assert(keeps_nonces(m, m1.insert(kt, m2[kt])));
            let bf = present_balance_spec(m, kf, rt).unwrap();
            let bt = present_balance_spec(m, kt, rt).unwrap();
            assert(m2 == m1.insert(kt, m2[kt]));
        }
    }
}

/// A transfer that succeeds changes no balance entry but the sender's and the recipient's in
/// its own currency.
pub proof fn lemma_transfer_keeps_other_balances(
    m: Map<Seq<u8>, Seq<u8>>,
    from: AccountId,
    to: AccountId,
    cid: CurrencyIdentifier,
    amount: BalanceType,
    rt: Runtime,
    c: CurrencyIdentifier,
    w: AccountId,
)
    requires
        c != cid || (w != from && w != to),
    ensures
        transfer_spec(m, from, to, cid, amount, rt) matches Ok(m2) ==> same_at(
            m,
            m2,
            balance_key_spec(c@, w@),
        ),
{
    lemma_balance_keys_distinct(c, w, cid, from);
    lemma_balance_keys_distinct(c, w, cid, to);
}

/// The address of the balance entry of `who` in currency `cid`.
pub fn balance_key(cid: &CurrencyIdentifier, who: &AccountId) -> (r: Vec<u8>)
    ensures
        r@ == balance_key_spec(cid@, who@),
        r@.len() == 128,
{
    let c = array_bytes(cid);
    let w = array_bytes(who);
    storage_double_map_key(
        "EncointerBalances",
        "Balance",
        c.as_slice(),
        StorageHasher::Blake2_128Concat,
        w.as_slice(),
        StorageHasher::Blake2_128Concat,
    )
}

/// The encoding of a balance entry.
pub fn encode_entry(e: BalanceEntry) -> (r: Vec<u8>)
    ensures
        r@ == entry_bytes(e),
{
    let mut r = encode_i128(e.principal.bits);
    let mut h = encode_u32(e.last_update);
    r.append(&mut h);
    r
}

/// The balance entry that `bytes` start with, if they hold one.
pub fn decode_entry(bytes: &[u8]) -> (r: Option<BalanceEntry>)
    ensures
        bytes@.len() >= 20 ==> r == Some(entry_of_bytes(bytes@)),
        bytes@.len() < 20 ==> r is None,
{
    if bytes.len() < 20 {
        return None;
    }
    let bits = decode_i128(bytes, 0);
    let height = decode_u32(bytes, 16);
    Some(BalanceEntry { principal: BalanceType { bits }, last_update: height })
}

/// The entry stored at `key`, if one is there and can be decoded.
pub fn read_entry(state: &State, key: &[u8]) -> (r: Option<BalanceEntry>)
    requires
        state.wf(),
    ensures
        r == stored_entry(state@, key@),
{
    match state.get(key) {
        None => None,
        Some(b) => decode_entry(b.as_slice()),
    }
}

/// The balance at `key` as of the runtime's height.
pub fn present_balance(state: &State, key: &[u8], rt: &Runtime) -> (r: Result<
    BalanceType,
    DispatchError,
>)
    requires
        state.wf(),
    ensures
        r == present_balance_spec(state@, key@, *rt),
{
    match read_entry(state, key) {
        None => Ok(BalanceType { bits: 0 }),
        Some(e) => match apply_demurrage(e, rt.block_number, rt.demurrage_per_block) {
            Ok(v) => Ok(v),
            Err(d) => Err(DispatchError::Demurrage(d)),
        },
    }
}

/// Moves `amount` of currency `cid` from `from` to `to`, both brought to the current height.
pub fn transfer(
    rt: &Runtime,
    state: &mut State,
    from: &AccountId,
    to: &AccountId,
    cid: &CurrencyIdentifier,
    amount: BalanceType,
) -> (r: Result<(), DispatchError>)
    requires
        old(state).wf(),
    ensures
        final(state).wf(),
        reports(r, old(state)@, final(state)@, transfer_spec(old(state)@, *from, *to, *cid, amount, *rt)),
{
    if amount.bits < 0 {
        return Err(DispatchError::NegativeAmount);
    }
    let kf = balance_key(cid, from);
    let bf = match present_balance(state, kf.as_slice(), rt) {
        Ok(v) => v,
        Err(e) => {
            return Err(e);
        },
    };
    if bf.bits < amount.bits {
        return Err(DispatchError::InsufficientBalance);
    }
    let fa = array_bytes(from);
    let ta = array_bytes(to);
    if crate::state::bytes_eq(fa.as_slice(), ta.as_slice()) {
        let e = encode_entry(BalanceEntry { principal: bf, last_update: rt.block_number });
        state.set(kf, e);
        return Ok(());
    }
    let kt = balance_key(cid, to);
    let bt = match present_balance(state, kt.as_slice(), rt) {
        Ok(v) => v,
        Err(e) => {
            return Err(e);
        },
    };
    if bt.bits > i128::MAX - amount.bits {
        return Err(DispatchError::Overflow);
    }
    let ef = encode_entry(
        BalanceEntry {
            principal: BalanceType { bits: bf.bits - amount.bits },
            last_update: rt.block_number,
        },
    );
    let et = encode_entry(
        BalanceEntry {
            principal: BalanceType { bits: bt.bits + amount.bits },
            last_update: rt.block_number,
        },
    );
    state.set(kf, ef);
    state.set(kt, et);
    Ok(())
}

/// The present balance that a balance getter's reply stands for: no reply, or one that does
/// not hold an entry, counts as zero; an entry is brought to `current_block`.
pub fn balance_from_reply(
    reply: Option<Vec<u8>>,
    current_block: BlockNumber,
    demurrage_per_block: BalanceType,
) -> (r: Result<BalanceType, DemurrageError>)
    ensures
        match reply {
            Some(v) if v@.len() >= 20 => r == present_value_spec(
                entry_of_bytes(v@),
                current_block,
                demurrage_per_block,
            ),
            _ => r == Ok::<BalanceType, DemurrageError>(BalanceType { bits: 0 }),
        },
{
    match reply {
        None => Ok(BalanceType { bits: 0 }),
        Some(v) => match decode_entry(v.as_slice()) {
            None => Ok(BalanceType { bits: 0 }),
            Some(e) => apply_demurrage(e, current_block, demurrage_per_block),
        },
    }
}

} // verus!
