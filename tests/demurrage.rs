use substratee_stf::demurrage::{
    apply_decay_factor, apply_demurrage, demurrage_exponent, BalanceEntry, DemurrageError,
};
use substratee_stf::fixed::{BalanceType, ONE_BITS};

fn num(n: u32) -> BalanceType {
    BalanceType::from_num(n)
}

fn to_f64(b: BalanceType) -> f64 {
    b.bits as f64 / ONE_BITS as f64
}

#[test]
fn no_elapsed_blocks_keep_the_principal() {
    let e = BalanceEntry { principal: num(1000), last_update: 7 };
    let rate = BalanceType { bits: ONE_BITS / 100 };
    assert_eq!(apply_demurrage(e, 7, rate), Ok(num(1000)));
    assert_eq!(apply_demurrage(e, 7, BalanceType { bits: i128::MIN }), Ok(num(1000)));
}

#[test]
fn zero_rate_keeps_the_principal() {
    let e = BalanceEntry { principal: num(1000), last_update: 7 };
    assert_eq!(apply_demurrage(e, 1_000_000, num(0)), Ok(num(1000)));
}

#[test]
fn height_before_update_is_an_error() {
    let e = BalanceEntry { principal: num(1000), last_update: 7 };
    assert_eq!(apply_demurrage(e, 6, num(0)), Err(DemurrageError::HeightBeforeUpdate));
}

#[test]
fn value_decays_with_elapsed_blocks() {
    let e = BalanceEntry { principal: num(1000), last_update: 0 };
    let rate = BalanceType { bits: ONE_BITS / 100 };
    let v10 = apply_demurrage(e, 10, rate).unwrap();
    let v20 = apply_demurrage(e, 20, rate).unwrap();
    assert!(v20.bits <= v10.bits);
    assert!(v10.bits < num(1000).bits);
    assert!((to_f64(v10) - 1000.0 * (-0.1f64).exp()).abs() < 1e-6);
    assert!((to_f64(v20) - 1000.0 * (-0.2f64).exp()).abs() < 1e-6);
}

#[test]
fn decay_step_formulas() {
    assert_eq!(demurrage_exponent(BalanceType { bits: ONE_BITS / 2 }, 4), Some(BalanceType { bits: -2 * ONE_BITS }));
    assert_eq!(demurrage_exponent(num(0), 4), Some(num(0)));
    assert_eq!(apply_decay_factor(num(2), BalanceType { bits: ONE_BITS / 2 }), Ok(num(1)));
    assert_eq!(apply_decay_factor(BalanceType { bits: i128::MAX }, num(2)), Err(DemurrageError::Overflow));
}

#[test]
fn overflowing_exponent_is_an_error() {
    let e = BalanceEntry { principal: num(1), last_update: 0 };
    let rate = BalanceType { bits: i128::MAX };
    assert_eq!(apply_demurrage(e, 2, rate), Err(DemurrageError::Overflow));
}

#[test]
fn checked_mul_rounds_down() {
    assert_eq!(BalanceType { bits: 3 }.checked_mul(BalanceType { bits: ONE_BITS / 2 }), Some(BalanceType { bits: 1 }));
    assert_eq!(BalanceType { bits: -3 }.checked_mul(BalanceType { bits: ONE_BITS / 2 }), Some(BalanceType { bits: -2 }));
    assert_eq!(num(0).exp(), Some(num(1)));
}

#[test]
fn product_of_two_negative_numbers() {
    let big = BalanceType { bits: i128::MIN + (1i128 << 64) - 1 };
    assert_eq!(big.checked_mul(big), None);
    assert_eq!(num(0).checked_mul(num(0)), Some(num(0)));
    let m2 = BalanceType { bits: -2 * ONE_BITS };
    let m3 = BalanceType { bits: -3 * ONE_BITS };
    assert_eq!(m2.checked_mul(m3), Some(num(6)));
    let min = BalanceType { bits: i128::MIN };
    assert_eq!(min.checked_mul(BalanceType { bits: -ONE_BITS / 2 }), Some(BalanceType { bits: 1i128 << 126 }));
    assert_eq!(BalanceType { bits: -ONE_BITS / 2 }.checked_mul(min), Some(BalanceType { bits: 1i128 << 126 }));
    assert_eq!(min.checked_mul(BalanceType { bits: -ONE_BITS + 1 }), Some(BalanceType { bits: ((1i128 << 64) - 1) << 63 }));
    assert_eq!(min.checked_mul(BalanceType { bits: -ONE_BITS }), None);
    assert_eq!(min.checked_mul(min), None);
}
