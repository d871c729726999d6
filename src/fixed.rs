//! Signed fixed-point numbers with 64 integer and 64 fractional bits, held as their raw bits.
use vstd::prelude::*;
use substrate_fixed::types::I64F64;

verus! {

/// `2^64`: the raw bits of the number one.
pub const ONE_BITS: i128 = 0x1_0000_0000_0000_0000;

/// A balance: the fixed-point number `bits / 2^64`.
#[derive(Clone, Copy, Debug, PartialEq, Eq, Structural)]
pub struct BalanceType {
    pub bits: i128,
}

/// The raw bits of a fixed-point product: the exact product rounded down, if it fits.
pub open spec fn mul_bits_spec(a: i128, b: i128) -> Option<i128> {
    let p = (a as int * b as int) / (ONE_BITS as int);
    if i128::MIN <= p <= i128::MAX {
        Some(p as i128)
    } else {
        None
    }
}

/// The result of `substrate_fixed::transcendental::exp` on the number with raw bits `bits`
/// (its raw bits, or `None` where it fails).
pub uninterp spec fn exp_bits_of(bits: i128) -> Option<i128>;

/// `e^x` in raw bits as the approximation gives it: exactly one at zero.
pub open spec fn exp_spec(bits: i128) -> Option<i128> {
    if bits == 0 {
        Some(ONE_BITS)
    } else {
        exp_bits_of(bits)
    }
}

/// Relies on I64F64::checked_mul, which forms the full 256-bit product of the raw bits, shifts
/// it right by 64 bits and returns `None` where that does not fit. With both factors negative
/// a carry in its 128-bit multiply can be negative, which a debug assertion refuses; so one
/// factor must be non-negative.
#[verifier::external_body]
fn checked_mul_bits(a: i128, b: i128) -> (r: Option<i128>)
    requires
        a >= 0 || b >= 0,
    ensures
        r == mul_bits_spec(a, b),
{
    I64F64::from_bits(a).checked_mul(I64F64::from_bits(b)).map(|x| x.to_bits())
}

/// Relies on substrate_fixed::transcendental::exp, a series approximation of `e^x` that
/// depends on its argument alone and returns exactly one for zero.
#[verifier::external_body]
fn exp_bits(bits: i128) -> (r: Option<i128>)
    ensures
        r == exp_spec(bits),
        bits != 0 ==> r == exp_bits_of(bits),
{
    substrate_fixed::transcendental::exp::<I64F64, I64F64>(I64F64::from_bits(bits)).ok().map(
        |x| x.to_bits(),
    )
}

impl BalanceType {
    /// The number `n`.
    pub fn from_num(n: u32) -> (r: BalanceType)
        ensures
            r.bits == n as int * ONE_BITS,
    {
        BalanceType { bits: n as i128 * ONE_BITS }
    }

    /// The product, rounded down to the fixed-point grid, or `None` where it does not fit.
    pub fn checked_mul(self, rhs: BalanceType) -> (r: Option<BalanceType>)
        ensures
            r == (match mul_bits_spec(self.bits, rhs.bits) {
                Some(b) => Some(BalanceType { bits: b }),
                None => None,
            }),
    {
        let a = self.bits;
        let b = rhs.bits;
        let r = if a >= 0 || b >= 0 {
            checked_mul_bits(a, b)
        } else if a == i128::MIN || b == i128::MIN {
            // Both negative and one of them is -2^127: the product is 2^127 * |other|, whose
            // value after the shift is 2^63 * |other|.
            let other: i128 = if a == i128::MIN {
                b
            } else {
                a
            };
            proof {
                lemma_mul_min(a, b);
            }
            if other == i128::MIN || -other >= ONE_BITS {
                None
            } else {
                Some((-other) * 0x8000_0000_0000_0000)
            }
        } else {
            // Both negative: the product equals that of the negations.
            assert((-a) as int * (-b) as int == a as int * b as int) by (nonlinear_arith);
            checked_mul_bits(-a, -b)
        };
        match r {
            Some(v) => Some(BalanceType { bits: v }),
            None => None,
        }
    }

    /// `e` to the power of this number, or `None` where the approximation fails.
    pub fn exp(self) -> (r: Option<BalanceType>)
        ensures
            r == (match exp_spec(self.bits) {
                Some(b) => Some(BalanceType { bits: b }),
                None => None,
            }),
    {
        match exp_bits(self.bits) {
            Some(b) => Some(BalanceType { bits: b }),
            None => None,
        }
    }
}

/// The product of `-2^127` and another negative number, as the shifted product sees it.
proof fn lemma_mul_min(a: i128, b: i128)
    requires
        a < 0 && b < 0,
        a == i128::MIN || b == i128::MIN,
    ensures
        ({
            let other: int = if a == i128::MIN { b as int } else { a as int };
            &&& (a as int * b as int) / (ONE_BITS as int) == -other * 0x8000_0000_0000_0000
            &&& (other == i128::MIN || -other >= ONE_BITS) ==> mul_bits_spec(a, b) is None
            &&& (other != i128::MIN && -other < ONE_BITS) ==> mul_bits_spec(a, b) == Some(
                (-other * 0x8000_0000_0000_0000) as i128,
            )
        }),
{
    let other: int = if a == i128::MIN { b as int } else { a as int };
    assert(a as int * b as int == -other * 0x8000_0000_0000_0000_0000_0000_0000_0000) by (nonlinear_arith)
        requires
            (a == i128::MIN && other == b as int) || (b == i128::MIN && other == a as int),
    ;
    assert((-other * 0x8000_0000_0000_0000_0000_0000_0000_0000) / 0x1_0000_0000_0000_0000 == -other
        * 0x8000_0000_0000_0000) by (nonlinear_arith);
    if -other >= ONE_BITS {
        assert(-other * 0x8000_0000_0000_0000 >= 0x1_0000_0000_0000_0000 * 0x8000_0000_0000_0000)
            by (nonlinear_arith)
            requires
                -other >= 0x1_0000_0000_0000_0000,
        ;
    } else {
        assert(-other * 0x8000_0000_0000_0000 < 0x1_0000_0000_0000_0000 * 0x8000_0000_0000_0000)
            by (nonlinear_arith)
            requires
                0 < -other < 0x1_0000_0000_0000_0000,
        ;
    }
}

/// Multiplying by one gives the number back.
pub proof fn lemma_mul_one(a: i128)
    ensures
        mul_bits_spec(a, ONE_BITS) == Some(a),
{
    assert((a as int * ONE_BITS as int) / (ONE_BITS as int) == a as int) by (nonlinear_arith);
}

/// Multiplying by zero gives zero.
pub proof fn lemma_mul_zero(a: i128)
    ensures
        mul_bits_spec(a, 0) == Some(0i128),
{
    assert(a as int * 0 == 0) by (nonlinear_arith);
}

} // verus!
