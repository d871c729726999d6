//! The state transition function: trusted calls applied under a nonce guard, and trusted
//! getters answered, against the state of one shard.
use vstd::prelude::*;
use crate::attendance::{AccountId, CurrencyIdentifier, ProofOfAttendance, array_bytes};
use crate::balances::{present_balance_spec, lemma_balance_key_len, lemma_entry_round_trip, balance_key, balance_key_spec, read_entry, stored_entry, entry_bytes, encode_entry};
use crate::ceremonies::{read_u32, read_u32_spec};
use crate::runtime::{DispatchError, Runtime, Trait, nonce_key_spec, same_at, keeps_nonces, lemma_nonce_key_len};
use crate::demurrage::BalanceEntry;
use crate::fixed::{BalanceType, ONE_BITS};
use crate::scale::{le_encode, i128_bits, encode_u32, encode_u64, encode_i128, lemma_le_decode_encode, lemma_pow256_values};
use crate::state::State;
use crate::storage_key::{StorageHasher, value_key_spec, storage_map_key, storage_value_key, lemma_transparent_keys_distinguish};

verus! {

/// The 32-byte identifier of a shard.
pub type ShardIdentifier = [u8; 32];

/// A state-changing operation, signed by its account.
#[allow(non_camel_case_types)]
#[derive(Clone, Copy, Debug)]
pub enum TrustedCall {
    /// `from` sends `amount` of currency `cid` to `to`.
    balance_transfer(AccountId, AccountId, CurrencyIdentifier, BalanceType),
    /// `from` registers for the next ceremony of currency `cid`, with an optional proof of
    /// attendance at the one before.
    ceremonies_register_participant(AccountId, CurrencyIdentifier, Option<ProofOfAttendance>),
}

/// A read-only query, signed by its account.
#[allow(non_camel_case_types)]
#[derive(Clone, Copy, Debug)]
pub enum TrustedGetter {
    /// The balance entry of an account in a currency.
    balance(AccountId, CurrencyIdentifier),
}

/// Why a trusted call was rejected. The state is left as it was.
#[derive(Clone, Copy, Debug, PartialEq, Eq, Structural)]
pub enum StfError {
    /// The presented nonce differs from the account's stored nonce.
    InvalidNonce,
    /// The stored nonce cannot be decoded.
    UndecodableNonce,
    /// The account's nonce is at its largest value.
    NonceOverflow,
}

/// The state transition function of a shard.
pub struct Stf;

/// The account that signs a call.
pub open spec fn call_account(call: TrustedCall) -> AccountId {
    match call {
        TrustedCall::balance_transfer(from, _, _, _) => from,
        TrustedCall::ceremonies_register_participant(from, _, _) => from,
    }
}

impl TrustedCall {
    /// The account that signs this call.
    pub fn account(&self) -> (r: &AccountId)
        ensures
            *r == call_account(*self),
    {
        match self {
            TrustedCall::balance_transfer(from, _, _, _) => from,
            TrustedCall::ceremonies_register_participant(from, _, _) => from,
        }
    }
}

/// The effect of the runtime's handler for the call.
pub open spec fn dispatch_spec<R: Trait>(m: Map<Seq<u8>, Seq<u8>>, call: TrustedCall, rt: R) -> Result<
    Map<Seq<u8>, Seq<u8>>,
    DispatchError,
> {
    match call {
        TrustedCall::balance_transfer(from, to, cid, amount) => rt.transfer_outcome(
            m,
            from,
            to,
            cid,
            amount,
        ),
        TrustedCall::ceremonies_register_participant(from, cid, poa) => rt.register_outcome(
            m,
            from,
            cid,
            poa,
        ),
    }
}

/// The outcome of `call` presented with `nonce`. The call is accepted when the nonce equals
/// the stored one (absent means zero) and can still be raised: then the stored nonce goes up
/// by one, and the handler runs on that state. The handler's refusal is reported beside the
/// state, which then differs from before only in the raised nonce.
pub open spec fn execute_spec<R: Trait>(
    m: Map<Seq<u8>, Seq<u8>>,
    call: TrustedCall,
    nonce: u32,
    rt: R,
) -> Result<(Map<Seq<u8>, Seq<u8>>, Result<(), DispatchError>), StfError> {
    let k = nonce_key_spec(call_account(call)@);
    match read_u32_spec(m, k) {
        None => Err(StfError::UndecodableNonce),
        Some(stored) => if nonce != stored {
            Err(StfError::InvalidNonce)
        } else if nonce == u32::MAX {
            Err(StfError::NonceOverflow)
        } else {
            let m1 = m.insert(k, le_encode((nonce + 1) as nat, 4));
            match dispatch_spec(m1, call, rt) {
                Err(e) => Ok((m1, Err(e))),
                Ok(m2) => Ok((m2, Ok(()))),
            }
        },
    }
}

/// `r` reports `outcome`: a rejection leaves the state; an accepted call leaves the
/// outcome's state and reports the handler's result.
pub open spec fn executes(
    r: Result<Result<(), DispatchError>, StfError>,
    before: Map<Seq<u8>, Seq<u8>>,
    after: Map<Seq<u8>, Seq<u8>>,
    outcome: Result<(Map<Seq<u8>, Seq<u8>>, Result<(), DispatchError>), StfError>,
) -> bool {
    match outcome {
        Err(e) => r == Err::<Result<(), DispatchError>, StfError>(e) && after == before,
        Ok((m, d)) => r == Ok::<Result<(), DispatchError>, StfError>(d) && after == m,
    }
}

/// The balance entry a getter reports: the stored one, or zero as of block zero.
pub open spec fn reported_entry(m: Map<Seq<u8>, Seq<u8>>, who: AccountId, cid: CurrencyIdentifier) -> BalanceEntry {
    match stored_entry(m, balance_key_spec(cid@, who@)) {
        Some(e) => e,
        None => BalanceEntry { principal: BalanceType { bits: 0 }, last_update: 0 },
    }
}

/// The answer to a getter.
pub open spec fn getter_spec(m: Map<Seq<u8>, Seq<u8>>, getter: TrustedGetter) -> Option<Seq<u8>> {
    match getter {
        TrustedGetter::balance(who, cid) => Some(entry_bytes(reported_entry(m, who, cid))),
    }
}

/// The defaults a fresh state holds.
pub open spec fn initial_state_spec() -> Map<Seq<u8>, Seq<u8>> {
    Map::empty().insert(
        value_key_spec("EncointerCeremonies"@, "CeremonyReward"@),
        le_encode(i128_bits(ONE_BITS), 16),
    ).insert(
        value_key_spec("EncointerCeremonies"@, "TimeTolerance"@),
        le_encode(600_000, 8),
    ).insert(value_key_spec("EncointerCeremonies"@, "LocationTolerance"@), le_encode(1_000, 4))
}

/// The state after writing each pair of `updates` in order.
pub open spec fn updated_spec(m: Map<Seq<u8>, Seq<u8>>, updates: Seq<(Vec<u8>, Vec<u8>)>) -> Map<
    Seq<u8>,
    Seq<u8>,
>
    decreases updates.len(),
{
    if updates.len() == 0 {
        m
    } else {
        updated_spec(m, updates.drop_last()).insert(updates.last().0@, updates.last().1@)
    }
}

/// The addresses a call may change that mirror the public ledger.
pub open spec fn storage_hashes_spec(call: TrustedCall) -> Seq<Seq<u8>> {
    match call {
        TrustedCall::balance_transfer(from, _, _, _) => seq![nonce_key_spec(from@)],
        TrustedCall::ceremonies_register_participant(_, _, _) => seq![
            value_key_spec("EncointerScheduler"@, "CurrentPhase"@),
            value_key_spec("EncointerScheduler"@, "CurrentCeremonyIndex"@),
            value_key_spec("EncointerCurrencies"@, "CurrencyIdentifiers"@),
        ],
    }
}

/// The address of an account's nonce.
pub fn nonce_key_hash(account: &AccountId) -> (r: Vec<u8>)
    ensures
        r@ == nonce_key_spec(account@),
        r@.len() == 80,
{
    let a = array_bytes(account);
    storage_map_key("System", "Account", a.as_slice(), StorageHasher::Blake2_128Concat)
}

impl Stf {
    /// A fresh state holding the default ceremony reward, time tolerance (in milliseconds)
    /// and location tolerance (in metres).
    pub fn init_state() -> (r: State)
        ensures
            r.wf(),
            r@ == initial_state_spec(),
            forall|a: AccountId| !r@.contains_key(#[trigger] nonce_key_spec(a@)),
    {
        proof {
            lemma_fresh_state_has_no_nonce();
        }
        let mut ext = State::new();
        ext.set(
            storage_value_key("EncointerCeremonies", "CeremonyReward"),
            encode_i128(BalanceType::from_num(1).bits),
        );
        ext.set(storage_value_key("EncointerCeremonies", "TimeTolerance"), encode_u64(600_000));
        ext.set(storage_value_key("EncointerCeremonies", "LocationTolerance"), encode_u32(1_000));
        ext
    }

    /// Writes each pair of `map_update` in order.
    pub fn update_storage(ext: &mut State, map_update: Vec<(Vec<u8>, Vec<u8>)>)
        requires
            old(ext).wf(),
        ensures
            final(ext).wf(),
            final(ext)@ == updated_spec(old(ext)@, map_update@),
    {
        let ghost start = ext@;
        let ghost all = map_update@;
        let mut rest = map_update;
        let mut i: usize = 0;
        let n = rest.len();
        while i < n
            invariant
                ext.wf(),
                n == all.len(),
                i <= n,
                rest@ == all.subrange(i as int, n as int),
                ext@ == updated_spec(start, all.subrange(0, i as int)),
            decreases n - i,
        {
            let (k, v) = rest.remove(0);
            proof {
                assert(rest@ =~= all.subrange(i + 1, n as int));
            }
            proof {
                assert(all.subrange(0, i + 1).drop_last() =~= all.subrange(0, i as int));
                assert(all.subrange(0, i + 1).last() == all[i as int]);
            }
            ext.set(k, v);
            i = i + 1;
        }
        assert(all.subrange(0, n as int) =~= all);
    }

    /// Applies `call` presented with `nonce`, or rejects it and leaves the state as it was.
    /// An accepted call raises the account's nonce and reports whether its handler applied.
    pub fn execute<R: Trait>(ext: &mut State, call: &TrustedCall, nonce: u32, runtime: &R) -> (r: Result<
        Result<(), DispatchError>,
        StfError,
    >)
        requires
            old(ext).wf(),
        ensures
            final(ext).wf(),
            executes(r, old(ext)@, final(ext)@, execute_spec(old(ext)@, *call, nonce, *runtime)),
            forall|b: AccountId|
                b != call_account(*call) ==> #[trigger] same_at(
                    old(ext)@,
                    final(ext)@,
                    nonce_key_spec(b@),
                ),
    {
        proof {
            lemma_nonce_guard(old(ext)@, *call, nonce, *runtime);
        }
        let k = nonce_key_hash(call.account());
        let stored = match read_u32(ext, k.as_slice()) {
            None => {
                return Err(StfError::UndecodableNonce);
            },
            Some(s) => s,
        };
        if nonce != stored {
            return Err(StfError::InvalidNonce);
        }
        if nonce == u32::MAX {
            return Err(StfError::NonceOverflow);
        }
        ext.set(k, encode_u32(nonce + 1));
        let ghost m1 = ext@;
        let dispatched = match call {
            TrustedCall::balance_transfer(from, to, cid, value) => runtime.transfer(
                ext,
                from,
                to,
                cid,
                *value,
            ),
            TrustedCall::ceremonies_register_participant(from, cid, poa) => {
                runtime.register_participant(ext, from, cid, poa)
            },
        };
        proof {
            let outcome = dispatch_spec(m1, *call, *runtime);
            match outcome {
                Ok(m2) => {
                    assert(dispatched == Ok::<(), DispatchError>(()) && ext@ == m2);
                },
                Err(e) => {
                    assert(dispatched == Err::<(), DispatchError>(e) && ext@ == m1);
                },
            }
        }
        Ok(dispatched)
    }

    /// The answer to `getter`; the state is not changed.
    pub fn get_state(ext: &mut State, getter: &TrustedGetter) -> (r: Option<Vec<u8>>)
        requires
            old(ext).wf(),
        ensures
            final(ext).wf(),
            final(ext)@ == old(ext)@,
            r matches Some(v) && getter_spec(old(ext)@, *getter) == Some(v@),
    {
        match getter {
            TrustedGetter::balance(who, cid) => {
                let k = balance_key(cid, who);
                let e = match read_entry(ext, k.as_slice()) {
                    Some(e) => e,
                    None => BalanceEntry { principal: BalanceType { bits: 0 }, last_update: 0 },
                };
                Some(encode_entry(e))
            },
        }
    }

    /// The addresses `call` may change that mirror the public ledger, to be refreshed from it.
    pub fn get_storage_hashes_to_update(call: &TrustedCall) -> (r: Vec<Vec<u8>>)
        ensures
            r@.len() == storage_hashes_spec(*call).len(),
            forall|i: int| 0 <= i < r@.len() ==> r@[i]@ == storage_hashes_spec(*call)[i],
    {
        let mut key_hashes: Vec<Vec<u8>> = Vec::new();
        match call {
            TrustedCall::balance_transfer(account, _, _, _) => {
                key_hashes.push(nonce_key_hash(account));
            },
            TrustedCall::ceremonies_register_participant(_, _, _) => {
                key_hashes.push(storage_value_key("EncointerScheduler", "CurrentPhase"));
                key_hashes.push(storage_value_key("EncointerScheduler", "CurrentCeremonyIndex"));
                key_hashes.push(storage_value_key("EncointerCurrencies", "CurrencyIdentifiers"));
            },
        }
        key_hashes
    }
}

/// A fresh state holds no nonce, so every account's nonce is zero.
pub proof fn lemma_fresh_state_has_no_nonce()
    ensures
        forall|a: AccountId| !initial_state_spec().contains_key(#[trigger] nonce_key_spec(a@)),
        forall|a: AccountId| read_u32_spec(initial_state_spec(), #[trigger] nonce_key_spec(a@)) == Some(0u32),
{
    assert forall|a: AccountId| !initial_state_spec().contains_key(#[trigger] nonce_key_spec(a@)) by {
        lemma_nonce_key_len(a);
    }
}

/// Different accounts have different nonce addresses.
pub proof fn lemma_nonce_keys_distinct(a: AccountId, b: AccountId)
    requires
        a != b,
    ensures
        nonce_key_spec(a@) != nonce_key_spec(b@),
{
    assert(a@ != b@) by {
        if a@ == b@ {
            assert(a =~= b);
        }
    }
    lemma_transparent_keys_distinguish("System"@, "Account"@, a@, b@, StorageHasher::Blake2_128Concat);
}

/// The nonce guard: a call is accepted exactly when it presents the stored nonce and that
/// nonce can still be raised; an accepted call raises it by one, whatever its handler does,
/// and leaves every other account's nonce; a call presenting another nonce is rejected.
pub proof fn lemma_nonce_guard<R: Trait>(m: Map<Seq<u8>, Seq<u8>>, call: TrustedCall, nonce: u32, rt: R)
    ensures
        execute_spec(m, call, nonce, rt) is Ok <==> read_u32_spec(
            m,
            nonce_key_spec(call_account(call)@),
        ) == Some(nonce) && nonce < u32::MAX,
        execute_spec(m, call, nonce, rt) matches Ok((m2, _)) ==> read_u32_spec(
            m2,
            nonce_key_spec(call_account(call)@),
        ) == Some((nonce + 1) as u32),
        execute_spec(m, call, nonce, rt) matches Ok((m2, _)) ==> forall|b: AccountId|
            b != call_account(call) ==> #[trigger] same_at(m, m2, nonce_key_spec(b@)),
        read_u32_spec(m, nonce_key_spec(call_account(call)@)) matches Some(s) && s != nonce
            ==> execute_spec(m, call, nonce, rt) == Err::<
            (Map<Seq<u8>, Seq<u8>>, Result<(), DispatchError>),
            StfError,
        >(StfError::InvalidNonce),
{
    let a = call_account(call);
    let k = nonce_key_spec(a@);
    if execute_spec(m, call, nonce, rt) is Ok {
        let enc = le_encode((nonce + 1) as nat, 4);
        let m1 = m.insert(k, enc);
        lemma_pow256_values();
        lemma_le_decode_encode((nonce + 1) as nat, 4);
        assert(enc.subrange(0, 4) =~= enc);
        match call {
            TrustedCall::balance_transfer(from, to, cid, amount) => {
                rt.lemma_transfer_keeps_nonces(m1, from, to, cid, amount);
            },
            TrustedCall::ceremonies_register_participant(who, cid, poa) => {
                rt.lemma_register_keeps_nonces(m1, who, cid, poa);
            },
        }
        let m2 = execute_spec(m, call, nonce, rt).unwrap().0;
        assert(keeps_nonces(m1, m2));
        assert(same_at(m1, m2, nonce_key_spec(a@)));
        assert forall|b: AccountId| b != a implies #[trigger] same_at(m, m2, nonce_key_spec(b@)) by {
            lemma_nonce_keys_distinct(a, b);
            assert(same_at(m1, m2, nonce_key_spec(b@)));
        }
    }
}

/// The state after each call of `ops` with its nonce, in order; a rejected call leaves the
/// state as it was.
pub open spec fn run_spec<R: Trait>(
    m: Map<Seq<u8>, Seq<u8>>,
    ops: Seq<(TrustedCall, u32)>,
    rt: R,
) -> Map<Seq<u8>, Seq<u8>>
    decreases ops.len(),
{
    if ops.len() == 0 {
        m
    } else {
        let m1 = run_spec(m, ops.drop_last(), rt);
        match execute_spec(m1, ops.last().0, ops.last().1, rt) {
            Ok((m2, _)) => m2,
            Err(_) => m1,
        }
    }
}

/// How many calls of `ops` by `account` were accepted.
pub open spec fn accepted_count<R: Trait>(
    m: Map<Seq<u8>, Seq<u8>>,
    ops: Seq<(TrustedCall, u32)>,
    rt: R,
    account: AccountId,
) -> nat
    decreases ops.len(),
{
    if ops.len() == 0 {
        0
    } else {
        let m1 = run_spec(m, ops.drop_last(), rt);
        accepted_count(m, ops.drop_last(), rt, account) + if call_account(ops.last().0) == account
            && execute_spec(m1, ops.last().0, ops.last().1, rt) is Ok {
            1nat
        } else {
            0nat
        }
    }
}

/// Over any sequence of calls, an account's stored nonce grows by exactly the number of its
/// calls that were accepted.
pub proof fn lemma_nonce_counts_accepted_calls<R: Trait>(
    m: Map<Seq<u8>, Seq<u8>>,
    ops: Seq<(TrustedCall, u32)>,
    rt: R,
    account: AccountId,
    start: u32,
)
    requires
        read_u32_spec(m, nonce_key_spec(account@)) == Some(start),
    ensures
        start + accepted_count(m, ops, rt, account) <= u32::MAX,
        read_u32_spec(run_spec(m, ops, rt), nonce_key_spec(account@)) == Some(
            (start + accepted_count(m, ops, rt, account)) as u32,
        ),
    decreases ops.len(),
{
    if ops.len() > 0 {
        let init = ops.drop_last();
        lemma_nonce_counts_accepted_calls(m, init, rt, account, start);
        let m1 = run_spec(m, init, rt);
        let (call, nonce) = ops.last();
        lemma_nonce_guard(m1, call, nonce, rt);
        if execute_spec(m1, call, nonce, rt) is Ok && call_account(call) != account {
            let m2 = execute_spec(m1, call, nonce, rt).unwrap().0;
            assert(same_at(m1, m2, nonce_key_spec(account@)));
        }
    }
}

/// Starting from a fresh state, after any sequence of calls, a call by `account` is accepted
/// exactly when it presents the number of that account's calls accepted so far (and that
/// number can still be raised), and then raises the stored nonce to one more.
pub proof fn lemma_nonce_from_fresh_state<R: Trait>(
    ops: Seq<(TrustedCall, u32)>,
    rt: R,
    call: TrustedCall,
    nonce: u32,
)
    ensures
        ({
            let m = run_spec(initial_state_spec(), ops, rt);
            let n = accepted_count(initial_state_spec(), ops, rt, call_account(call));
            &&& execute_spec(m, call, nonce, rt) is Ok <==> (nonce == n && n < u32::MAX)
            &&& execute_spec(m, call, nonce, rt) matches Ok((m2, _)) ==> read_u32_spec(
                m2,
                nonce_key_spec(call_account(call)@),
            ) == Some((n + 1) as u32)
        }),
{
    let a = call_account(call);
    lemma_fresh_state_has_no_nonce();
    assert(read_u32_spec(initial_state_spec(), nonce_key_spec(a@)) == Some(0u32));
    lemma_nonce_counts_accepted_calls(initial_state_spec(), ops, rt, a, 0);
    lemma_nonce_guard(run_spec(initial_state_spec(), ops, rt), call, nonce, rt);
}

/// An accepted transfer between two accounts that its handler applies raises the sender's
/// nonce by one and leaves both balance entries at the current height: the sender's present
/// balance less the amount, the recipient's present balance plus the amount.
pub proof fn lemma_accepted_transfer(
    m: Map<Seq<u8>, Seq<u8>>,
    from: AccountId,
    to: AccountId,
    cid: CurrencyIdentifier,
    amount: BalanceType,
    nonce: u32,
    rt: Runtime,
)
    requires
        from != to,
    ensures
        execute_spec(m, TrustedCall::balance_transfer(from, to, cid, amount), nonce, rt) matches Ok(
            (m2, Ok(_)),
        ) ==> {
            &&& read_u32_spec(m, nonce_key_spec(from@)) == Some(nonce)
            &&& read_u32_spec(m2, nonce_key_spec(from@)) == Some((nonce + 1) as u32)
            &&& stored_entry(m2, balance_key_spec(cid@, from@)) == Some(
                BalanceEntry {
                    principal: BalanceType {
                        bits: (present_balance_spec(m, balance_key_spec(cid@, from@), rt).unwrap().bits
                            - amount.bits) as i128,
                    },
                    last_update: rt.block_number,
                },
            )
            &&& stored_entry(m2, balance_key_spec(cid@, to@)) == Some(
                BalanceEntry {
                    principal: BalanceType {
                        bits: (present_balance_spec(m, balance_key_spec(cid@, to@), rt).unwrap().bits
                            + amount.bits) as i128,
                    },
                    last_update: rt.block_number,
                },
            )
        },
{
    let call = TrustedCall::balance_transfer(from, to, cid, amount);
    lemma_nonce_guard(m, call, nonce, rt);
    if let Ok((m2, d)) = execute_spec(m, call, nonce, rt) {
        if d is Ok {
            let k = nonce_key_spec(from@);
            let m1 = m.insert(k, le_encode((nonce + 1) as nat, 4));
            let kf = balance_key_spec(cid@, from@);
            let kt = balance_key_spec(cid@, to@);
            lemma_nonce_key_len(from);
            lemma_balance_key_len(cid, from);
            lemma_balance_key_len(cid, to);
            assert(from@ != to@) by {
                if from@ == to@ {
                    assert(from =~= to);
                }
            }
            crate::balances::lemma_balance_keys_distinct(cid, from, cid, to);
            assert(stored_entry(m1, kf) == stored_entry(m, kf));
            assert(stored_entry(m1, kt) == stored_entry(m, kt));
            assert(present_balance_spec(m1, kf, rt) == present_balance_spec(m, kf, rt));
            assert(present_balance_spec(m1, kt, rt) == present_balance_spec(m, kt, rt));
            let bf = present_balance_spec(m, kf, rt).unwrap();
            let bt = present_balance_spec(m, kt, rt).unwrap();
            let ef = BalanceEntry {
                principal: BalanceType { bits: (bf.bits - amount.bits) as i128 },
                last_update: rt.block_number,
            };
            let et = BalanceEntry {
                principal: BalanceType { bits: (bt.bits + amount.bits) as i128 },
                last_update: rt.block_number,
            };
            lemma_entry_round_trip(ef);
            lemma_entry_round_trip(et);
            assert(m2 == m1.insert(kf, entry_bytes(ef)).insert(kt, entry_bytes(et)));
        }
    }
}

} // verus!
