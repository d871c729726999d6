//! Present value of a balance under continuous exponential decay per block.
use vstd::prelude::*;
use crate::fixed::{BalanceType, ONE_BITS, mul_bits_spec, exp_spec, lemma_mul_one, lemma_mul_zero};

verus! {

/// A block height.
pub type BlockNumber = u32;

/// A balance as of the block `last_update`.
#[derive(Clone, Copy, Debug, PartialEq, Eq, Structural)]
pub struct BalanceEntry {
    pub principal: BalanceType,
    pub last_update: BlockNumber,
}

/// Why a present value could not be computed.
#[derive(Clone, Copy, Debug, PartialEq, Eq, Structural)]
pub enum DemurrageError {
    /// The current height lies before the entry's last update.
    HeightBeforeUpdate,
    /// A fixed-point step overflowed, or the exponential could not be approximated.
    Overflow,
}

/// The exponent `-(rate * elapsed)` in raw bits, where it fits.
pub open spec fn exponent_spec(rate: i128, elapsed: nat) -> Option<i128> {
    match mul_bits_spec(rate, (elapsed * ONE_BITS) as i128) {
        Some(p) => if p == i128::MIN {
            None
        } else {
            Some((-p) as i128)
        },
        None => None,
    }
}

/// `principal * e^(-rate * (current - last_update))`, step by step in fixed point.
pub open spec fn present_value_spec(
    entry: BalanceEntry,
    current: BlockNumber,
    rate: BalanceType,
) -> Result<BalanceType, DemurrageError> {
    if current < entry.last_update {
        Err(DemurrageError::HeightBeforeUpdate)
    } else {
        match exponent_spec(rate.bits, (current - entry.last_update) as nat) {
            None => Err(DemurrageError::Overflow),
            Some(x) => match exp_spec(x) {
                None => Err(DemurrageError::Overflow),
                Some(f) => decay_spec(entry.principal, f),
            },
        }
    }
}

/// The principal scaled by a decay factor given in raw bits.
pub open spec fn decay_spec(principal: BalanceType, factor: i128) -> Result<
    BalanceType,
    DemurrageError,
> {
    match mul_bits_spec(principal.bits, factor) {
        Some(b) => Ok(BalanceType { bits: b }),
        None => Err(DemurrageError::Overflow),
    }
}

/// The principal scaled by `factor` (the value of `e^(-rate * elapsed)`).
pub fn apply_decay_factor(principal: BalanceType, factor: BalanceType) -> (r: Result<
    BalanceType,
    DemurrageError,
>)
    ensures
        r == decay_spec(principal, factor.bits),
{
    match principal.checked_mul(factor) {
        Some(v) => Ok(v),
        None => Err(DemurrageError::Overflow),
    }
}

/// The exponent `-(rate * elapsed)`, or `None` where it does not fit.
pub fn demurrage_exponent(rate: BalanceType, elapsed: u32) -> (r: Option<BalanceType>)
    ensures
        r == (match exponent_spec(rate.bits, elapsed as nat) {
            Some(b) => Some(BalanceType { bits: b }),
            None => None,
        }),
{
    let elapsed_time = BalanceType::from_num(elapsed);
    match rate.checked_mul(elapsed_time) {
        Some(p) => if p.bits == i128::MIN {
            None
        } else {
            Some(BalanceType { bits: -p.bits })
        },
        None => None,
    }
}

/// The value of `entry` at block `current_block` under the decay `demurrage_per_block`.
pub fn apply_demurrage(
    entry: BalanceEntry,
    current_block: BlockNumber,
    demurrage_per_block: BalanceType,
) -> (r: Result<BalanceType, DemurrageError>)
    ensures
        r == present_value_spec(entry, current_block, demurrage_per_block),
{
    if current_block < entry.last_update {
        return Err(DemurrageError::HeightBeforeUpdate);
    }
    let elapsed = current_block - entry.last_update;
    let exponent = match demurrage_exponent(demurrage_per_block, elapsed) {
        Some(x) => x,
        None => {
            return Err(DemurrageError::Overflow);
        },
    };
    match exponent.exp() {
        Some(f) => apply_decay_factor(entry.principal, f),
        None => Err(DemurrageError::Overflow),
    }
}

/// No time elapsed: the present value is the principal, whatever the rate.
pub proof fn lemma_no_elapsed_no_decay(entry: BalanceEntry, rate: BalanceType)
    ensures
        present_value_spec(entry, entry.last_update, rate) == Ok::<BalanceType, DemurrageError>(
            entry.principal,
        ),
{
    lemma_mul_zero(rate.bits);
    assert((0 * ONE_BITS) as i128 == 0i128);
    assert(exponent_spec(rate.bits, 0) == Some(0i128));
    lemma_mul_one(entry.principal.bits);
}

/// A zero rate: the present value is the principal at every later height.
pub proof fn lemma_zero_rate_no_decay(entry: BalanceEntry, current: BlockNumber)
    requires
        current >= entry.last_update,
    ensures
        present_value_spec(entry, current, BalanceType { bits: 0 }) == Ok::<
            BalanceType,
            DemurrageError,
        >(entry.principal),
{
    let elapsed = (current - entry.last_update) as nat;
    assert(0 * (elapsed * ONE_BITS) == 0) by (nonlinear_arith);
    assert(mul_bits_spec(0, (elapsed * ONE_BITS) as i128) == Some(0i128));
    lemma_mul_one(entry.principal.bits);
}

} // verus!
