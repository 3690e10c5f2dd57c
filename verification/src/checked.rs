//! Unsigned 64-bit arithmetic that reports leaving the range as an error
//! instead of wrapping or saturating.

use vstd::prelude::*;
use crate::error::CustomError;

verus! {

/// `a + b`, or `ArithmeticOverflow` when the sum does not fit.
pub fn checked_add(a: u64, b: u64) -> (r: Result<u64, CustomError>)
    ensures
        a + b <= u64::MAX ==> r == Ok::<u64, CustomError>((a + b) as u64),
        a + b > u64::MAX ==> r == Err::<u64, CustomError>(CustomError::ArithmeticOverflow),
{
    match a.checked_add(b) {
        Some(v) => Ok(v),
        None => Err(CustomError::ArithmeticOverflow),
    }
}

/// `a - b`, or `ArithmeticOverflow` when `b` exceeds `a`.
pub fn checked_sub(a: u64, b: u64) -> (r: Result<u64, CustomError>)
    ensures
        b <= a ==> r == Ok::<u64, CustomError>((a - b) as u64),
        b > a ==> r == Err::<u64, CustomError>(CustomError::ArithmeticOverflow),
{
    match a.checked_sub(b) {
        Some(v) => Ok(v),
        None => Err(CustomError::ArithmeticOverflow),
    }
}

/// `a * b`, or `ArithmeticOverflow` when the product does not fit.
pub fn checked_mul(a: u64, b: u64) -> (r: Result<u64, CustomError>)
    ensures
        a * b <= u64::MAX ==> r == Ok::<u64, CustomError>((a * b) as u64),
        a * b > u64::MAX ==> r == Err::<u64, CustomError>(CustomError::ArithmeticOverflow),
{
    match a.checked_mul(b) {
        Some(v) => Ok(v),
        None => Err(CustomError::ArithmeticOverflow),
    }
}

/// `a / b` rounded down, or `ArithmeticOverflow` when `b` is zero.
pub fn checked_div(a: u64, b: u64) -> (r: Result<u64, CustomError>)
    ensures
        b != 0 ==> r == Ok::<u64, CustomError>(a / b),
        b == 0 ==> r == Err::<u64, CustomError>(CustomError::ArithmeticOverflow),
{
    match a.checked_div(b) {
        Some(v) => Ok(v),
        None => Err(CustomError::ArithmeticOverflow),
    }
}

} // verus!
