//! Claims of attendance, attestations of them, and proofs of past attendance, signed with
//! sr25519 keys.
use vstd::prelude::*;
use sp_core::sr25519;
use crate::scale::{le_encode, i64_bits, encode_u32, encode_u64, encode_i64};
use crate::scheduler::{Location, Moment};

verus! {

/// A 32-byte account identifier: an sr25519 public key.
pub type AccountId = [u8; 32];

/// A 32-byte currency identifier; each currency has its own shard.
pub type CurrencyIdentifier = [u8; 32];

/// The index of a ceremony.
pub type CeremonyIndexType = u32;

/// The index of a meetup within a ceremony.
pub type MeetupIndexType = u64;

/// A 64-byte sr25519 signature.
pub type SignatureBytes = [u8; 64];

/// The public key that an sr25519 key pair made from `seed` has.
pub uninterp spec fn sr25519_public_of(seed: Seq<u8>) -> Seq<u8>;

/// Whether `sig` is a valid sr25519 signature of `msg` under the public key `public`.
pub uninterp spec fn sr25519_verifies(sig: Seq<u8>, msg: Seq<u8>, public: Seq<u8>) -> bool;

/// Relies on sp_core's sr25519 Pair::from_seed and Pair::public: the public key depends on
/// the seed alone.
#[verifier::external_body]
fn sr25519_public(seed: &[u8; 32]) -> (r: [u8; 32])
    ensures
        r@ == sr25519_public_of(seed@),
{
    sp_core::Pair::public(&<sr25519::Pair as sp_core::Pair>::from_seed(seed)).into()
}

/// Relies on sp_core's sr25519 Pair::from_seed and Pair::sign: a randomized signature that
/// Pair::verify accepts under the pair's public key.
#[verifier::external_body]
fn sr25519_sign(seed: &[u8; 32], msg: &[u8]) -> (r: [u8; 64])
    ensures
        sr25519_verifies(r@, msg@, sr25519_public_of(seed@)),
{
    sp_core::Pair::sign(&<sr25519::Pair as sp_core::Pair>::from_seed(seed), msg).into()
}

/// Relies on sp_core's sr25519 Pair::verify: whether the signature is valid, a function of
/// its three arguments.
#[verifier::external_body]
fn sr25519_verify(sig: &[u8; 64], msg: &[u8], public: &[u8; 32]) -> (r: bool)
    ensures
        r == sr25519_verifies(sig@, msg@, public@),
{
    <sr25519::Pair as sp_core::Pair>::verify(
        &sr25519::Signature::from_raw(*sig),
        msg,
        &sr25519::Public::from_raw(*public),
    )
}

/// A participant's claim to have attended a meetup.
#[derive(Clone, Copy, Debug)]
pub struct ClaimOfAttendance {
    pub claimant_public: AccountId,
    pub currency_identifier: CurrencyIdentifier,
    pub ceremony_index: CeremonyIndexType,
    pub meetup_index: MeetupIndexType,
    pub location: Location,
    pub timestamp: Moment,
    pub number_of_participants_confirmed: u32,
}

/// A co-participant's signature over a claim of attendance.
#[derive(Clone, Copy, Debug)]
pub struct Attestation {
    pub claim: ClaimOfAttendance,
    pub signature: SignatureBytes,
    pub public: AccountId,
}

/// An attendee's signed endorsement of `prover_public` for ceremony `ceremony_index`.
#[derive(Clone, Copy, Debug)]
pub struct ProofOfAttendance {
    pub prover_public: AccountId,
    pub currency_identifier: CurrencyIdentifier,
    pub ceremony_index: CeremonyIndexType,
    pub attendee_public: AccountId,
    pub attendee_signature: SignatureBytes,
}

/// The bytes of a claim, field after field.
pub open spec fn claim_bytes(c: ClaimOfAttendance) -> Seq<u8> {
    c.claimant_public@ + c.currency_identifier@ + le_encode(c.ceremony_index as nat, 4)
        + le_encode(c.meetup_index as nat, 8) + le_encode(i64_bits(c.location.lat), 8)
        + le_encode(i64_bits(c.location.lon), 8) + le_encode(c.timestamp as nat, 8)
        + le_encode(c.number_of_participants_confirmed as nat, 4)
}

/// The payload an attendee signs for a proof of attendance: the prover and the ceremony.
pub open spec fn proof_payload(prover: Seq<u8>, ceremony_index: CeremonyIndexType) -> Seq<u8> {
    prover + le_encode(ceremony_index as nat, 4)
}

/// The bytes of a 32-byte array.
pub fn array_bytes(a: &[u8; 32]) -> (r: Vec<u8>)
    ensures
        r@ == a@,
{
    vstd::slice::slice_to_vec(a.as_slice())
}

/// The encoding of a claim of attendance.
pub fn encode_claim(c: &ClaimOfAttendance) -> (r: Vec<u8>)
    ensures
        r@ == claim_bytes(*c),
{
    let mut r = array_bytes(&c.claimant_public);
    let mut cid = array_bytes(&c.currency_identifier);
    let mut cindex = encode_u32(c.ceremony_index);
    let mut mindex = encode_u64(c.meetup_index);
    let mut lat = encode_i64(c.location.lat);
    let mut lon = encode_i64(c.location.lon);
    let mut ts = encode_u64(c.timestamp);
    let mut n = encode_u32(c.number_of_participants_confirmed);
    r.append(&mut cid);
    r.append(&mut cindex);
    r.append(&mut mindex);
    r.append(&mut lat);
    r.append(&mut lon);
    r.append(&mut ts);
    r.append(&mut n);
    r
}

/// The encoded payload of a proof of attendance.
pub fn encode_proof_payload(prover: &AccountId, ceremony_index: CeremonyIndexType) -> (r: Vec<u8>)
    ensures
        r@ == proof_payload(prover@, ceremony_index),
{
    let mut r = array_bytes(prover);
    let mut c = encode_u32(ceremony_index);
    r.append(&mut c);
    r
}

/// The public key of the key pair made from `seed`.
pub fn public_from_seed(seed: &[u8; 32]) -> (r: AccountId)
    ensures
        r@ == sr25519_public_of(seed@),
{
    sr25519_public(seed)
}

/// Signs `claim` with the key pair made from `signer_seed`.
pub fn sign_claim(claim: &ClaimOfAttendance, signer_seed: &[u8; 32]) -> (r: Attestation)
    ensures
        r.claim == *claim,
        r.public@ == sr25519_public_of(signer_seed@),
        sr25519_verifies(r.signature@, claim_bytes(*claim), r.public@),
{
    let msg = encode_claim(claim);
    let signature = sr25519_sign(signer_seed, msg.as_slice());
    Attestation { claim: *claim, signature, public: sr25519_public(signer_seed) }
}

/// Whether the attestation's signature is valid for its claim under its signer's key.
pub fn verify_attestation(a: &Attestation) -> (r: bool)
    ensures
        r == sr25519_verifies(a.signature@, claim_bytes(a.claim), a.public@),
{
    let msg = encode_claim(&a.claim);
    sr25519_verify(&a.signature, msg.as_slice(), &a.public)
}

/// A proof, signed by the attendee made from `attendee_seed`, that `prover` may claim the
/// attendance at ceremony `cindex` of currency `cid`.
pub fn prove_attendance(
    prover: &AccountId,
    cid: CurrencyIdentifier,
    cindex: CeremonyIndexType,
    attendee_seed: &[u8; 32],
) -> (r: ProofOfAttendance)
    ensures
        r.prover_public == *prover,
        r.currency_identifier == cid,
        r.ceremony_index == cindex,
        r.attendee_public@ == sr25519_public_of(attendee_seed@),
        sr25519_verifies(r.attendee_signature@, proof_payload(prover@, cindex), r.attendee_public@),
{
    let msg = encode_proof_payload(prover, cindex);
    ProofOfAttendance {
        prover_public: *prover,
        currency_identifier: cid,
        ceremony_index: cindex,
        attendee_public: sr25519_public(attendee_seed),
        attendee_signature: sr25519_sign(attendee_seed, msg.as_slice()),
    }
}

/// Whether the proof's signature is valid for its prover and ceremony under its attendee's key.
pub fn verify_proof_signature(p: &ProofOfAttendance) -> (r: bool)
    ensures
        r == sr25519_verifies(
            p.attendee_signature@,
            proof_payload(p.prover_public@, p.ceremony_index),
            p.attendee_public@,
        ),
{
    let msg = encode_proof_payload(&p.prover_public, p.ceremony_index);
    sr25519_verify(&p.attendee_signature, msg.as_slice(), &p.attendee_public)
}

} // verus!
