use substratee_stf::attendance::prove_attendance;
use substratee_stf::fixed::BalanceType;
use substratee_stf::stf::{TrustedCall, TrustedGetter};

fn same_call(a: &TrustedCall, b: &TrustedCall) -> bool {
    format!("{:?}", a) == format!("{:?}", b)
}

#[test]
fn transfer_round_trip() {
    let c = TrustedCall::balance_transfer([1; 32], [2; 32], [3; 32], BalanceType { bits: -5 });
    let bytes = c.encode();
    assert_eq!(bytes.len(), 113);
    assert_eq!(bytes[0], 0);
    assert_eq!(&bytes[97..], &(-5i128).to_le_bytes()[..]);
    let d = TrustedCall::decode(&bytes).unwrap();
    assert!(same_call(&c, &d));
    assert_eq!(d.encode(), bytes);
}

#[test]
fn registration_round_trip_without_proof() {
    let c = TrustedCall::ceremonies_register_participant([1; 32], [3; 32], None);
    let bytes = c.encode();
    assert_eq!(bytes.len(), 66);
    assert_eq!((bytes[0], bytes[65]), (1, 0));
    let d = TrustedCall::decode(&bytes).unwrap();
    assert!(same_call(&c, &d));
    assert_eq!(d.encode(), bytes);
}

#[test]
fn registration_round_trip_with_proof() {
    let p = prove_attendance(&[1; 32], [3; 32], 6, &[4; 32]);
    let c = TrustedCall::ceremonies_register_participant([1; 32], [3; 32], Some(p));
    let bytes = c.encode();
    assert_eq!(bytes.len(), 231);
    assert_eq!((bytes[65], bytes[166]), (1, 1));
    assert_eq!(&bytes[130..134], &[6, 0, 0, 0]);
    let d = TrustedCall::decode(&bytes).unwrap();
    assert!(same_call(&c, &d));
    assert_eq!(d.encode(), bytes);
}

#[test]
fn getter_round_trip() {
    let g = TrustedGetter::balance([8; 32], [9; 32]);
    let bytes = g.encode();
    assert_eq!(bytes.len(), 65);
    let d = TrustedGetter::decode(&bytes).unwrap();
    assert_eq!(format!("{:?}", d), format!("{:?}", g));
    assert_eq!(d.encode(), bytes);
}

#[test]
fn malformed_bytes_do_not_decode() {
    assert!(TrustedCall::decode(&[]).is_none());
    assert!(TrustedCall::decode(&[2; 113]).is_none());
    let mut b = TrustedCall::ceremonies_register_participant([1; 32], [3; 32], None).encode();
    b[65] = 2;
    assert!(TrustedCall::decode(&b).is_none());
    let mut t = TrustedCall::balance_transfer([1; 32], [2; 32], [3; 32], BalanceType { bits: 0 }).encode();
    t.push(0);
    assert!(TrustedCall::decode(&t).is_none());
    assert!(TrustedGetter::decode(&[1; 65]).is_none());
    assert!(TrustedGetter::decode(&[0; 64]).is_none());
}
