use substratee_stf::attendance::{prove_attendance, public_from_seed};
use substratee_stf::balances::{balance_from_reply, balance_key, decode_entry, encode_entry};
use substratee_stf::runtime::{DispatchError, Runtime, Trait};
use substratee_stf::demurrage::{apply_demurrage, BalanceEntry};
use substratee_stf::fixed::{BalanceType, ONE_BITS};
use substratee_stf::scale::{encode_i128, encode_u32, encode_u64};
use substratee_stf::state::State;
use substratee_stf::stf::{nonce_key_hash, Stf, StfError, TrustedCall, TrustedGetter};
use substratee_stf::storage_key::{storage_double_map_key, storage_map_key, storage_value_key, StorageHasher};

const A: [u8; 32] = [0xaa; 32];
const B: [u8; 32] = [0xbb; 32];
const S: [u8; 32] = [0x55; 32];

fn num(n: u32) -> BalanceType {
    BalanceType::from_num(n)
}

fn rt(block: u32, rate_bits: i128) -> Runtime {
    Runtime { block_number: block, demurrage_per_block: BalanceType { bits: rate_bits } }
}

fn funded(principal: u32) -> State {
    let mut st = Stf::init_state();
    let entry = BalanceEntry { principal: num(principal), last_update: 0 };
    Stf::update_storage(&mut st, vec![(balance_key(&S, &A), encode_entry(entry))]);
    st
}

fn entry_of(st: &mut State, who: [u8; 32]) -> BalanceEntry {
    let bytes = Stf::get_state(st, &TrustedGetter::balance(who, S)).unwrap();
    decode_entry(&bytes).unwrap()
}

fn transfer(amount: u32) -> TrustedCall {
    TrustedCall::balance_transfer(A, B, S, num(amount))
}

#[test]
fn transfer_scenario_with_nonces() {
    let mut st = funded(1000);
    let r = rt(5, 0);
    assert_eq!(Stf::execute(&mut st, &transfer(100), 0, &r), Ok(Ok(())));
    assert_eq!(st.get(&nonce_key_hash(&A)), Some(encode_u32(1)));
    assert_eq!(entry_of(&mut st, B), BalanceEntry { principal: num(100), last_update: 5 });
    assert_eq!(entry_of(&mut st, A), BalanceEntry { principal: num(900), last_update: 5 });

    assert_eq!(Stf::execute(&mut st, &transfer(100), 0, &r), Err(StfError::InvalidNonce));
    assert_eq!(st.get(&nonce_key_hash(&A)), Some(encode_u32(1)));
    assert_eq!(entry_of(&mut st, A), BalanceEntry { principal: num(900), last_update: 5 });

    assert_eq!(Stf::execute(&mut st, &transfer(50), 1, &r), Ok(Ok(())));
    assert_eq!(st.get(&nonce_key_hash(&A)), Some(encode_u32(2)));
    assert_eq!(entry_of(&mut st, A), BalanceEntry { principal: num(850), last_update: 5 });
    assert_eq!(entry_of(&mut st, B), BalanceEntry { principal: num(150), last_update: 5 });
}

#[test]
fn transfer_scenario_with_demurrage() {
    let mut st = funded(1000);
    let rate = ONE_BITS / 1000;
    assert_eq!(Stf::execute(&mut st, &transfer(100), 0, &rt(10, rate)), Ok(Ok(())));
    let a1 = entry_of(&mut st, A);
    assert_eq!(a1.last_update, 10);
    let expected = 1000.0 * (-0.01f64).exp() - 100.0;
    assert!((a1.principal.bits as f64 / ONE_BITS as f64 - expected).abs() < 1e-6);
    assert_eq!(entry_of(&mut st, B), BalanceEntry { principal: num(100), last_update: 10 });

    assert_eq!(Stf::execute(&mut st, &transfer(50), 1, &rt(20, rate)), Ok(Ok(())));
    let a2 = entry_of(&mut st, A);
    let present = apply_demurrage(a1, 20, BalanceType { bits: rate }).unwrap();
    assert_eq!(a2, BalanceEntry { principal: BalanceType { bits: present.bits - num(50).bits }, last_update: 20 });
    assert!(a2.principal.bits < a1.principal.bits - num(50).bits);
}

#[test]
fn nonce_ahead_is_rejected() {
    let mut st = funded(1000);
    assert_eq!(Stf::execute(&mut st, &transfer(1), 1, &rt(1, 0)), Err(StfError::InvalidNonce));
    assert_eq!(st.get(&nonce_key_hash(&A)), None);
}

#[test]
fn undecodable_nonce_is_rejected() {
    let mut st = funded(1000);
    st.set(nonce_key_hash(&A), vec![1, 2]);
    assert_eq!(Stf::execute(&mut st, &transfer(1), 0, &rt(1, 0)), Err(StfError::UndecodableNonce));
}

#[test]
fn largest_nonce_is_rejected() {
    let mut st = funded(1000);
    st.set(nonce_key_hash(&A), encode_u32(u32::MAX));
    assert_eq!(Stf::execute(&mut st, &transfer(1), u32::MAX, &rt(1, 0)), Err(StfError::NonceOverflow));
}

#[test]
fn refused_call_raises_only_the_nonce() {
    let mut st = funded(10);
    let r = rt(1, 0);
    assert_eq!(
        Stf::execute(&mut st, &transfer(11), 0, &r),
        Ok(Err(DispatchError::InsufficientBalance))
    );
    assert_eq!(st.get(&nonce_key_hash(&A)), Some(encode_u32(1)));
    assert_eq!(entry_of(&mut st, A), BalanceEntry { principal: num(10), last_update: 0 });
    assert_eq!(Stf::execute(&mut st, &transfer(11), 0, &r), Err(StfError::InvalidNonce));
    let neg = TrustedCall::balance_transfer(A, B, S, BalanceType { bits: -1 });
    assert_eq!(Stf::execute(&mut st, &neg, 1, &r), Ok(Err(DispatchError::NegativeAmount)));
    assert_eq!(st.get(&nonce_key_hash(&A)), Some(encode_u32(2)));
}

#[test]
fn transfer_overflow_and_demurrage_errors() {
    let r = rt(1, 0);
    let mut st = funded(10);
    st.set(balance_key(&S, &B), encode_entry(BalanceEntry { principal: BalanceType { bits: i128::MAX }, last_update: 0 }));
    assert_eq!(r.transfer(&mut st, &A, &B, &S, num(1)), Err(DispatchError::Overflow));
    let mut st = funded(10);
    st.set(balance_key(&S, &A), encode_entry(BalanceEntry { principal: num(10), last_update: 9 }));
    assert_eq!(
        r.transfer(&mut st, &A, &B, &S, num(1)),
        Err(DispatchError::Demurrage(substratee_stf::demurrage::DemurrageError::HeightBeforeUpdate))
    );
}

#[test]
fn transfer_to_self_only_refreshes_the_entry() {
    let mut st = funded(10);
    let r = rt(3, 0);
    assert_eq!(r.transfer(&mut st, &A, &A, &S, num(4)), Ok(()));
    assert_eq!(entry_of(&mut st, A), BalanceEntry { principal: num(10), last_update: 3 });
}

#[test]
fn getter_reports_zero_for_unknown_accounts() {
    let mut st = Stf::init_state();
    assert_eq!(entry_of(&mut st, B), BalanceEntry { principal: num(0), last_update: 0 });
    let bytes = Stf::get_state(&mut st, &TrustedGetter::balance(B, S)).unwrap();
    assert_eq!(bytes, vec![0u8; 20]);
}

#[test]
fn init_state_holds_defaults() {
    let st = Stf::init_state();
    assert_eq!(st.get(&storage_value_key("EncointerCeremonies", "CeremonyReward")), Some(encode_i128(ONE_BITS)));
    assert_eq!(st.get(&storage_value_key("EncointerCeremonies", "TimeTolerance")), Some(encode_u64(600_000)));
    assert_eq!(st.get(&storage_value_key("EncointerCeremonies", "LocationTolerance")), Some(encode_u32(1_000)));
}

#[test]
fn update_storage_writes_in_order() {
    let mut st = State::new();
    Stf::update_storage(&mut st, vec![(vec![1], vec![1]), (vec![2], vec![2]), (vec![1], vec![3])]);
    assert_eq!(st.get(&[1]), Some(vec![3]));
    assert_eq!(st.get(&[2]), Some(vec![2]));
    assert_eq!(st.get(&[3]), None);
}

#[test]
fn storage_hashes_per_call_kind() {
    assert_eq!(Stf::get_storage_hashes_to_update(&transfer(1)), vec![nonce_key_hash(&A)]);
    let reg = TrustedCall::ceremonies_register_participant(A, S, None);
    assert_eq!(
        Stf::get_storage_hashes_to_update(&reg),
        vec![
            storage_value_key("EncointerScheduler", "CurrentPhase"),
            storage_value_key("EncointerScheduler", "CurrentCeremonyIndex"),
            storage_value_key("EncointerCurrencies", "CurrencyIdentifiers"),
        ]
    );
}

#[test]
fn nonce_key_is_system_account_entry() {
    assert_eq!(nonce_key_hash(&A), storage_map_key("System", "Account", &A, StorageHasher::Blake2_128Concat));
}

fn ceremony(cindex: u32) -> Vec<u8> {
    let mut c = S.to_vec();
    c.extend(encode_u32(cindex));
    c
}

fn registry_state(cindex: u32) -> State {
    let mut st = Stf::init_state();
    st.set(storage_value_key("EncointerScheduler", "CurrentCeremonyIndex"), encode_u32(cindex));
    st
}

#[test]
fn registration_assigns_consecutive_indices() {
    let mut st = registry_state(2);
    let r = rt(1, 0);
    assert_eq!(Stf::execute(&mut st, &TrustedCall::ceremonies_register_participant(A, S, None), 0, &r), Ok(Ok(())));
    assert_eq!(Stf::execute(&mut st, &TrustedCall::ceremonies_register_participant(B, S, None), 0, &r), Ok(Ok(())));
    let c = ceremony(2);
    let count = storage_map_key("EncointerCeremonies", "ParticipantCount", &c, StorageHasher::Blake2_128Concat);
    assert_eq!(st.get(&count), Some(encode_u64(2)));
    let idx_b = storage_double_map_key("EncointerCeremonies", "ParticipantIndex", &c, StorageHasher::Blake2_128Concat, &B, StorageHasher::Blake2_128Concat);
    assert_eq!(st.get(&idx_b), Some(encode_u64(2)));
    let reg_1 = storage_double_map_key("EncointerCeremonies", "ParticipantRegistry", &c, StorageHasher::Blake2_128Concat, &encode_u64(1), StorageHasher::Blake2_128Concat);
    assert_eq!(st.get(&reg_1), Some(A.to_vec()));
    assert_eq!(
        Stf::execute(&mut st, &TrustedCall::ceremonies_register_participant(A, S, None), 1, &r),
        Ok(Err(DispatchError::AlreadyRegistered))
    );
}

#[test]
fn registration_outside_registering_phase_is_refused() {
    let mut st = registry_state(2);
    st.set(storage_value_key("EncointerScheduler", "CurrentPhase"), vec![1]);
    assert_eq!(
        Stf::execute(&mut st, &TrustedCall::ceremonies_register_participant(A, S, None), 0, &rt(1, 0)),
        Ok(Err(DispatchError::WrongPhase))
    );
    st.set(storage_value_key("EncointerScheduler", "CurrentPhase"), vec![7]);
    assert_eq!(
        Stf::execute(&mut st, &TrustedCall::ceremonies_register_participant(A, S, None), 1, &rt(1, 0)),
        Ok(Err(DispatchError::Undecodable))
    );
}

#[test]
fn registration_with_proof_of_attendance() {
    let attendee_seed = [21u8; 32];
    let good = prove_attendance(&A, S, 1, &attendee_seed);
    assert_eq!(good.attendee_public, public_from_seed(&attendee_seed));
    let mut st = registry_state(2);
    let r = rt(1, 0);
    assert_eq!(Stf::execute(&mut st, &TrustedCall::ceremonies_register_participant(A, S, Some(good)), 0, &r), Ok(Ok(())));
    let rep = storage_double_map_key("EncointerCeremonies", "ParticipantReputation", &ceremony(2), StorageHasher::Blake2_128Concat, &A, StorageHasher::Blake2_128Concat);
    assert_eq!(st.get(&rep), Some(vec![1]));

    let wrong_ceremony = prove_attendance(&B, S, 0, &attendee_seed);
    assert_eq!(
        Stf::execute(&mut st, &TrustedCall::ceremonies_register_participant(B, S, Some(wrong_ceremony)), 0, &r),
        Ok(Err(DispatchError::InvalidProof))
    );
    let wrong_shard = prove_attendance(&B, [9; 32], 1, &attendee_seed);
    assert_eq!(
        Stf::execute(&mut st, &TrustedCall::ceremonies_register_participant(B, S, Some(wrong_shard)), 1, &r),
        Ok(Err(DispatchError::InvalidProof))
    );
    let mut forged = prove_attendance(&B, S, 1, &attendee_seed);
    forged.attendee_signature[0] ^= 1;
    assert_eq!(
        Stf::execute(&mut st, &TrustedCall::ceremonies_register_participant(B, S, Some(forged)), 2, &r),
        Ok(Err(DispatchError::InvalidProof))
    );
}

#[test]
fn registration_counter_overflow_is_refused() {
    let mut st = registry_state(0);
    let count = storage_map_key("EncointerCeremonies", "ParticipantCount", &ceremony(0), StorageHasher::Blake2_128Concat);
    st.set(count, encode_u64(u64::MAX));
    assert_eq!(
        Stf::execute(&mut st, &TrustedCall::ceremonies_register_participant(A, S, None), 0, &rt(1, 0)),
        Ok(Err(DispatchError::Overflow))
    );
}

#[test]
fn fresh_state_holds_no_nonce_and_calls_only_touch_their_own() {
    let mut st = funded(1000);
    assert_eq!(st.get(&nonce_key_hash(&A)), None);
    assert_eq!(st.get(&nonce_key_hash(&B)), None);
    assert_eq!(nonce_key_hash(&A).len(), 80);
    assert_eq!(balance_key(&S, &A).len(), 128);
    assert_eq!(Stf::execute(&mut st, &transfer(1), 0, &rt(1, 0)), Ok(Ok(())));
    assert_eq!(st.get(&nonce_key_hash(&B)), None);
}

#[test]
fn reply_to_present_balance() {
    assert_eq!(balance_from_reply(None, 5, num(0)), Ok(num(0)));
    assert_eq!(balance_from_reply(Some(vec![1, 2, 3]), 5, num(0)), Ok(num(0)));
    let e = encode_entry(BalanceEntry { principal: num(7), last_update: 2 });
    assert_eq!(balance_from_reply(Some(e.clone()), 5, num(0)), Ok(num(7)));
    assert_eq!(
        balance_from_reply(Some(e), 1, num(0)),
        Err(substratee_stf::demurrage::DemurrageError::HeightBeforeUpdate)
    );
    let mut st = funded(1000);
    let reply = Stf::get_state(&mut st, &TrustedGetter::balance(A, S));
    assert_eq!(balance_from_reply(reply, 9, num(0)), Ok(num(1000)));
}
