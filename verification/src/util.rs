//! Small numeric helpers: the pluralization rule and the overflow-checked
//! multiply-then-add accumulators used by the scalar conversions.

use vstd::prelude::*;

verus! {

/// Whether a formatted value takes the plural form of its unit name:
/// every value but exactly one does.
pub fn should_apply_plural(input: u64) -> (result: bool)
    ensures
        result == (input != 1),
{
    input != 1
}

/// An `Option<u64>` accumulator for chained multiply-then-add steps with
/// overflow checking: once a step overflows, the accumulator stays failed
/// and every later step is a no-op.
#[derive(Debug)]
pub struct CheckedU64(pub Option<u64>);

impl CheckedU64 {
    /// Starts an accumulation from a definite value.
    pub fn new(value: u64) -> (result: CheckedU64)
        ensures
            result.0 == Some(value),
    {
        CheckedU64(Some(value))
    }

    /// Calculates `self + (lhs * rhs)`, failing permanently when the
    /// product or the sum exceeds `u64::MAX`.
    pub fn add_mul_result(self, lhs: u64, rhs: u64) -> (result: CheckedU64)
        ensures
            result.0 == match self.0 {
                Some(v) => if v + lhs * rhs <= u64::MAX {
                    Some((v + lhs * rhs) as u64)
                } else {
                    None::<u64>
                },
                None => None::<u64>,
            },
    {
        match self.0 {
            Some(v) => match lhs.checked_mul(rhs) {
                Some(p) => match v.checked_add(p) {
                    Some(sum) => CheckedU64(Some(sum)),
                    None => CheckedU64(None),
                },
                None => CheckedU64(None),
            },
            None => CheckedU64(None),
        }
    }
}

/// An `Option<u128>` accumulator for chained multiply-then-add steps with
/// overflow checking: once a step overflows, the accumulator stays failed
/// and every later step is a no-op.
#[derive(Debug)]
pub struct CheckedU128(pub Option<u128>);

impl CheckedU128 {
    /// Starts an accumulation from a definite value.
    pub fn new(value: u128) -> (result: CheckedU128)
        ensures
            result.0 == Some(value),
    {
        CheckedU128(Some(value))
    }

    /// Calculates `self + (lhs * rhs)`, failing permanently when the
    /// product or the sum exceeds `u128::MAX`.
    pub fn add_mul_result(self, lhs: u128, rhs: u128) -> (result: CheckedU128)
        ensures
            result.0 == match self.0 {
                Some(v) => if v + lhs * rhs <= u128::MAX {
                    Some((v + lhs * rhs) as u128)
                } else {
                    None::<u128>
                },
                None => None::<u128>,
            },
    {
        match self.0 {
            Some(v) => match lhs.checked_mul(rhs) {
                Some(p) => match v.checked_add(p) {
                    Some(sum) => CheckedU128(Some(sum)),
                    None => CheckedU128(None),
                },
                None => CheckedU128(None),
            },
            None => CheckedU128(None),
        }
    }
}

} // verus!
