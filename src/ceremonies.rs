//! Registration of participants for the next ceremony of a currency.
//!
//! This is a model of the host ledger's ceremonies module, written for this library: the
//! storage addresses follow that module's names; the error cases and the stored reputation
//! byte are this model's own.
use vstd::prelude::*;
use crate::attendance::{
    AccountId, CurrencyIdentifier, ProofOfAttendance, array_bytes, proof_payload,
    sr25519_verifies, verify_proof_signature,
};
use crate::runtime::{DispatchError, reports, keeps_nonces, lemma_insert_keeps_nonces};
use crate::scale::{lemma_le_encode_len, le_encode, le_decode, encode_u32, encode_u64, decode_u32, decode_u64};
use crate::scheduler::CeremonyPhaseType;
use crate::state::State;
use crate::storage_key::{
    StorageHasher, value_key_spec, key_hash_spec, storage_value_key, storage_map_key,
    storage_double_map_key,
};

verus! {

/// The index of a participant within a ceremony; zero means not registered.
pub type ParticipantIndexType = u64;

/// The reputation this model stores for a participant who registered with a proof of
/// attendance.
pub const UNVERIFIED_REPUTABLE: u8 = 1;

/// The address of the current ceremony phase.
pub open spec fn phase_key_spec() -> Seq<u8> {
    value_key_spec("EncointerScheduler"@, "CurrentPhase"@)
}

/// The address of the current ceremony index.
pub open spec fn ceremony_index_key_spec() -> Seq<u8> {
    value_key_spec("EncointerScheduler"@, "CurrentCeremonyIndex"@)
}

/// The encoded pair of a currency and a ceremony index.
pub open spec fn ceremony_spec(cid: Seq<u8>, cindex: u32) -> Seq<u8> {
    cid + le_encode(cindex as nat, 4)
}

/// The address of a ceremony's participant count.
pub open spec fn count_key_spec(ceremony: Seq<u8>) -> Seq<u8> {
    value_key_spec("EncointerCeremonies"@, "ParticipantCount"@) + key_hash_spec(
        ceremony,
        StorageHasher::Blake2_128Concat,
    )
}

/// The address of a participant's index in a ceremony.
pub open spec fn index_key_spec(ceremony: Seq<u8>, who: Seq<u8>) -> Seq<u8> {
    value_key_spec("EncointerCeremonies"@, "ParticipantIndex"@) + key_hash_spec(
        ceremony,
        StorageHasher::Blake2_128Concat,
    ) + key_hash_spec(who, StorageHasher::Blake2_128Concat)
}

/// The address of the participant with index `n` in a ceremony.
pub open spec fn registry_key_spec(ceremony: Seq<u8>, n: u64) -> Seq<u8> {
    value_key_spec("EncointerCeremonies"@, "ParticipantRegistry"@) + key_hash_spec(
        ceremony,
        StorageHasher::Blake2_128Concat,
    ) + key_hash_spec(le_encode(n as nat, 8), StorageHasher::Blake2_128Concat)
}

/// The address of a participant's reputation in a ceremony.
pub open spec fn reputation_key_spec(ceremony: Seq<u8>, who: Seq<u8>) -> Seq<u8> {
    value_key_spec("EncointerCeremonies"@, "ParticipantReputation"@) + key_hash_spec(
        ceremony,
        StorageHasher::Blake2_128Concat,
    ) + key_hash_spec(who, StorageHasher::Blake2_128Concat)
}

/// The stored phase; absent means registering.
pub open spec fn read_phase_spec(m: Map<Seq<u8>, Seq<u8>>) -> Option<CeremonyPhaseType> {
    let k = phase_key_spec();
    if !m.contains_key(k) {
        Some(CeremonyPhaseType::REGISTERING)
    } else if m[k].len() >= 1 && m[k][0] == 0 {
        Some(CeremonyPhaseType::REGISTERING)
    } else if m[k].len() >= 1 && m[k][0] == 1 {
        Some(CeremonyPhaseType::ASSIGNING)
    } else if m[k].len() >= 1 && m[k][0] == 2 {
        Some(CeremonyPhaseType::ATTESTING)
    } else {
        None
    }
}

/// The four-byte number stored at `k`; absent means zero.
pub open spec fn read_u32_spec(m: Map<Seq<u8>, Seq<u8>>, k: Seq<u8>) -> Option<u32> {
    if !m.contains_key(k) {
        Some(0)
    } else if m[k].len() >= 4 {
        Some(le_decode(m[k].subrange(0, 4)) as u32)
    } else {
        None
    }
}

/// The eight-byte number stored at `k`; absent means zero.
pub open spec fn read_u64_spec(m: Map<Seq<u8>, Seq<u8>>, k: Seq<u8>) -> Option<u64> {
    if !m.contains_key(k) {
        Some(0)
    } else if m[k].len() >= 8 {
        Some(le_decode(m[k].subrange(0, 8)) as u64)
    } else {
        None
    }
}

/// Whether the proof `poa` lets `who` claim reputation from the ceremony before `cindex` of `cid`.
pub open spec fn proof_valid_spec(
    poa: ProofOfAttendance,
    who: AccountId,
    cid: CurrencyIdentifier,
    cindex: u32,
) -> bool {
    &&& poa.currency_identifier == cid
    &&& poa.prover_public == who
    &&& poa.ceremony_index + 1 == cindex
    &&& sr25519_verifies(
        poa.attendee_signature@,
        proof_payload(poa.prover_public@, poa.ceremony_index),
        poa.attendee_public@,
    )
}

/// The state after `who` registers for the current ceremony of `cid`.
pub open spec fn register_spec(
    m: Map<Seq<u8>, Seq<u8>>,
    who: AccountId,
    cid: CurrencyIdentifier,
    poa: Option<ProofOfAttendance>,
) -> Result<Map<Seq<u8>, Seq<u8>>, DispatchError> {
    match read_phase_spec(m) {
        None => Err(DispatchError::Undecodable),
        Some(phase) => if phase != CeremonyPhaseType::REGISTERING {
            Err(DispatchError::WrongPhase)
        } else {
            match read_u32_spec(m, ceremony_index_key_spec()) {
                None => Err(DispatchError::Undecodable),
                Some(cindex) => {
                    let c = ceremony_spec(cid@, cindex);
                    match read_u64_spec(m, index_key_spec(c, who@)) {
                        None => Err(DispatchError::Undecodable),
                        Some(i) => if i != 0 {
                            Err(DispatchError::AlreadyRegistered)
                        } else {
                            match read_u64_spec(m, count_key_spec(c)) {
                                None => Err(DispatchError::Undecodable),
                                Some(count) => if count == u64::MAX {
                                    Err(DispatchError::Overflow)
                                } else if poa is Some && !proof_valid_spec(
                                    poa.unwrap(),
                                    who,
                                    cid,
                                    cindex,
                                ) {
                                    Err(DispatchError::InvalidProof)
                                } else {
                                    let n = (count + 1) as u64;
                                    let m1 = m.insert(registry_key_spec(c, n), who@).insert(
                                        index_key_spec(c, who@),
                                        le_encode(n as nat, 8),
                                    ).insert(count_key_spec(c), le_encode(n as nat, 8));
                                    if poa is Some {
                                        Ok(m1.insert(reputation_key_spec(c, who@), seq![UNVERIFIED_REPUTABLE]))
                                    } else {
                                        Ok(m1)
                                    }
                                },
                            }
                        },
                    }
                },
            }
        },
    }
}

fn read_phase(state: &State) -> (r: Option<CeremonyPhaseType>)
    requires
        state.wf(),
    ensures
        r == read_phase_spec(state@),
{
    let k = storage_value_key("EncointerScheduler", "CurrentPhase");
    match state.get(k.as_slice()) {
        None => Some(CeremonyPhaseType::REGISTERING),
        Some(b) => if b.len() >= 1 && b[0] == 0 {
            Some(CeremonyPhaseType::REGISTERING)
        } else if b.len() >= 1 && b[0] == 1 {
            Some(CeremonyPhaseType::ASSIGNING)
        } else if b.len() >= 1 && b[0] == 2 {
            Some(CeremonyPhaseType::ATTESTING)
        } else {
            None
        },
    }
}

/// A registration that succeeds writes only registry addresses (of 84, 108 and 132 bytes),
/// so every nonce stays.
pub proof fn lemma_register_keeps_nonces(
    m: Map<Seq<u8>, Seq<u8>>,
    who: AccountId,
    cid: CurrencyIdentifier,
    poa: Option<ProofOfAttendance>,
)
    ensures
        register_spec(m, who, cid, poa) matches Ok(m2) ==> keeps_nonces(m, m2),
{
    if let Ok(m2) = register_spec(m, who, cid, poa) {
        let cindex = read_u32_spec(m, ceremony_index_key_spec()).unwrap();
        let c = ceremony_spec(cid@, cindex);
        lemma_le_encode_len(cindex as nat, 4);
        let count = read_u64_spec(m, count_key_spec(c)).unwrap();
        let n = (count + 1) as u64;
        lemma_le_encode_len(n as nat, 8);
        let k1 = registry_key_spec(c, n);
        let k2 = index_key_spec(c, who@);
        let k3 = count_key_spec(c);
        let k4 = reputation_key_spec(c, who@);
        assert(k1.len() == 108);
        assert(k2.len() == 132);
        assert(k3.len() == 84);
        assert(k4.len() == 132);
        let ma = m.insert(k1, who@);
        let mb = ma.insert(k2, le_encode(n as nat, 8));
        let mc = mb.insert(k3, le_encode(n as nat, 8));
        lemma_insert_keeps_nonces(m, k1, who@);
        lemma_insert_keeps_nonces(ma, k2, le_encode(n as nat, 8));
        lemma_insert_keeps_nonces(mb, k3, le_encode(n as nat, 8));
        assert(keeps_nonces(m, mc));
        if poa is Some {
            lemma_insert_keeps_nonces(mc, k4, seq![UNVERIFIED_REPUTABLE]);
            assert(keeps_nonces(m, mc.insert(k4, seq![UNVERIFIED_REPUTABLE])));
        }
    }
}

pub(crate) fn read_u32(state: &State, k: &[u8]) -> (r: Option<u32>)
    requires
        state.wf(),
    ensures
        r == read_u32_spec(state@, k@),
{
    match state.get(k) {
        None => Some(0),
        Some(b) => if b.len() >= 4 {
            Some(decode_u32(b.as_slice(), 0))
        } else {
            None
        },
    }
}

fn read_u64(state: &State, k: &[u8]) -> (r: Option<u64>)
    requires
        state.wf(),
    ensures
        r == read_u64_spec(state@, k@),
{
    match state.get(k) {
        None => Some(0),
        Some(b) => if b.len() >= 8 {
            Some(decode_u64(b.as_slice(), 0))
        } else {
            None
        },
    }
}

/// Whether the proof `poa` lets `who` claim reputation from the ceremony before `cindex` of `cid`.
pub fn check_proof(
    poa: &ProofOfAttendance,
    who: &AccountId,
    cid: &CurrencyIdentifier,
    cindex: u32,
) -> (r: bool)
    ensures
        r == proof_valid_spec(*poa, *who, *cid, cindex),
{
    let pc = array_bytes(&poa.currency_identifier);
    let c = array_bytes(cid);
    let pp = array_bytes(&poa.prover_public);
    let w = array_bytes(who);
    if !crate::state::bytes_eq(pc.as_slice(), c.as_slice()) {
        return false;
    }
    if !crate::state::bytes_eq(pp.as_slice(), w.as_slice()) {
        return false;
    }
    proof {
        assert(poa.currency_identifier =~= *cid);
        assert(poa.prover_public =~= *who);
    }
    if cindex == 0 || poa.ceremony_index != cindex - 1 {
        return false;
    }
    verify_proof_signature(poa)
}

/// Registers `who` for the current ceremony of `cid`, with reputation where the proof `poa`
/// shows attendance at the ceremony before.
pub fn register_participant(
    state: &mut State,
    who: &AccountId,
    cid: &CurrencyIdentifier,
    poa: &Option<ProofOfAttendance>,
) -> (r: Result<(), DispatchError>)
    requires
        old(state).wf(),
    ensures
        final(state).wf(),
        reports(r, old(state)@, final(state)@, register_spec(old(state)@, *who, *cid, *poa)),
{
    match read_phase(state) {
        None => {
            return Err(DispatchError::Undecodable);
        },
        Some(CeremonyPhaseType::REGISTERING) => {},
        Some(_) => {
            return Err(DispatchError::WrongPhase);
        },
    }
    let cik = storage_value_key("EncointerScheduler", "CurrentCeremonyIndex");
    let cindex = match read_u32(state, cik.as_slice()) {
        None => {
            return Err(DispatchError::Undecodable);
        },
        Some(c) => c,
    };
    let mut ceremony = array_bytes(cid);
    let mut ci = encode_u32(cindex);
    ceremony.append(&mut ci);
    let w = array_bytes(who);
    let ik = storage_double_map_key(
        "EncointerCeremonies",
        "ParticipantIndex",
        ceremony.as_slice(),
        StorageHasher::Blake2_128Concat,
        w.as_slice(),
        StorageHasher::Blake2_128Concat,
    );
    match read_u64(state, ik.as_slice()) {
        None => {
            return Err(DispatchError::Undecodable);
        },
        Some(i) => if i != 0 {
            return Err(DispatchError::AlreadyRegistered);
        },
    }
    let ck = storage_map_key(
        "EncointerCeremonies",
        "ParticipantCount",
        ceremony.as_slice(),
        StorageHasher::Blake2_128Concat,
    );
    let count = match read_u64(state, ck.as_slice()) {
        None => {
            return Err(DispatchError::Undecodable);
        },
        Some(c) => c,
    };
    if count == u64::MAX {
        return Err(DispatchError::Overflow);
    }
    match poa {
        Some(p) => if !check_proof(p, who, cid, cindex) {
            return Err(DispatchError::InvalidProof);
        },
        None => {},
    }
    let n = count + 1;
    let nb = encode_u64(n);
    let ghost c = ceremony_spec(cid@, cindex);
    assert(ceremony@ == c);
    let rk = storage_double_map_key(
        "EncointerCeremonies",
        "ParticipantRegistry",
        ceremony.as_slice(),
        StorageHasher::Blake2_128Concat,
        nb.as_slice(),
        StorageHasher::Blake2_128Concat,
    );
    let ghost m0 = state@;
    state.set(rk, w);
    state.set(ik, encode_u64(n));
    state.set(ck, encode_u64(n));
    assert(poa is Some ==> proof_valid_spec(poa.unwrap(), *who, *cid, cindex));
    assert(state@ == m0.insert(registry_key_spec(c, n), who@).insert(
        index_key_spec(c, who@),
        le_encode(n as nat, 8),
    ).insert(count_key_spec(c), le_encode(n as nat, 8)));
    if poa.is_some() {
        let w2 = array_bytes(who);
        let pk = storage_double_map_key(
            "EncointerCeremonies",
            "ParticipantReputation",
            ceremony.as_slice(),
            StorageHasher::Blake2_128Concat,
            w2.as_slice(),
            StorageHasher::Blake2_128Concat,
        );
        let rep = vec![UNVERIFIED_REPUTABLE];
        assert(rep@ == seq![UNVERIFIED_REPUTABLE]);
        state.set(pk, rep);
    }
    Ok(())
}

} // verus!
