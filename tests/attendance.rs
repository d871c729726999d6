use substratee_stf::attendance::{
    encode_claim, prove_attendance, public_from_seed, sign_claim, verify_attestation,
    verify_proof_signature, ClaimOfAttendance,
};
use substratee_stf::scheduler::Location;

fn claim() -> ClaimOfAttendance {
    ClaimOfAttendance {
        claimant_public: [1; 32],
        currency_identifier: [2; 32],
        ceremony_index: 3,
        meetup_index: 4,
        location: Location { lat: 5 << 32, lon: -(6 << 32) },
        timestamp: 1_600_000_000_000,
        number_of_participants_confirmed: 3,
    }
}

#[test]
fn claim_encoding_is_field_after_field() {
    let b = encode_claim(&claim());
    assert_eq!(b.len(), 32 + 32 + 4 + 8 + 8 + 8 + 8 + 4);
    assert_eq!(&b[64..68], &[3, 0, 0, 0]);
    assert_eq!(&b[68..76], &[4, 0, 0, 0, 0, 0, 0, 0]);
    assert_eq!(&b[76..84], &[0, 0, 0, 0, 5, 0, 0, 0]);
    assert_eq!(&b[84..92], &[0, 0, 0, 0, 0xfa, 0xff, 0xff, 0xff]);
}

#[test]
fn attestation_verifies_against_its_claim() {
    let seed = [42u8; 32];
    let a = sign_claim(&claim(), &seed);
    assert_eq!(a.public, public_from_seed(&seed));
    assert_ne!(a.public, seed);
    assert!(verify_attestation(&a));
}

#[test]
fn attestation_fails_on_any_mutated_claim_field() {
    let a = sign_claim(&claim(), &[42u8; 32]);
    let mutations: Vec<Box<dyn Fn(&mut ClaimOfAttendance)>> = vec![
        Box::new(|c| c.claimant_public[0] ^= 1),
        Box::new(|c| c.currency_identifier[31] ^= 1),
        Box::new(|c| c.ceremony_index += 1),
        Box::new(|c| c.meetup_index += 1),
        Box::new(|c| c.location.lat += 1),
        Box::new(|c| c.location.lon += 1),
        Box::new(|c| c.timestamp += 1),
        Box::new(|c| c.number_of_participants_confirmed += 1),
    ];
    for m in mutations {
        let mut b = a;
        m(&mut b.claim);
        assert!(!verify_attestation(&b));
    }
}

#[test]
fn attestation_fails_under_another_key() {
    let mut a = sign_claim(&claim(), &[42u8; 32]);
    a.public = public_from_seed(&[43u8; 32]);
    assert!(!verify_attestation(&a));
}

#[test]
fn proof_of_attendance_binds_prover_and_ceremony() {
    let p = prove_attendance(&[7; 32], [2; 32], 9, &[11u8; 32]);
    assert_eq!(p.prover_public, [7; 32]);
    assert_eq!(p.currency_identifier, [2; 32]);
    assert_eq!(p.ceremony_index, 9);
    assert_eq!(p.attendee_public, public_from_seed(&[11u8; 32]));
    assert!(verify_proof_signature(&p));
    let mut q = p;
    q.ceremony_index = 8;
    assert!(!verify_proof_signature(&q));
    let mut q = p;
    q.prover_public = [8; 32];
    assert!(!verify_proof_signature(&q));
}
