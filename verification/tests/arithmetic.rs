use bonding_curve::checked::{checked_add, checked_div, checked_mul, checked_sub};
use bonding_curve::trade::debit;
use bonding_curve::CustomError;

#[test]
fn checked_add_gives_the_sum() {
    assert_eq!(checked_add(2, 3), Ok(5));
    assert_eq!(checked_add(0, 0), Ok(0));
    assert_eq!(checked_add(u64::MAX - 1, 1), Ok(u64::MAX));
    assert_eq!(checked_add(0, u64::MAX), Ok(u64::MAX));
}

#[test]
fn checked_add_reports_overflow() {
    assert_eq!(checked_add(u64::MAX, 1), Err(CustomError::ArithmeticOverflow));
    assert_eq!(checked_add(1, u64::MAX), Err(CustomError::ArithmeticOverflow));
    assert_eq!(checked_add(u64::MAX, u64::MAX), Err(CustomError::ArithmeticOverflow));
}

#[test]
fn checked_sub_gives_the_difference() {
    assert_eq!(checked_sub(5, 3), Ok(2));
    assert_eq!(checked_sub(7, 7), Ok(0));
    assert_eq!(checked_sub(u64::MAX, 0), Ok(u64::MAX));
}

#[test]
fn checked_sub_reports_underflow() {
    assert_eq!(checked_sub(3, 5), Err(CustomError::ArithmeticOverflow));
    assert_eq!(checked_sub(0, 1), Err(CustomError::ArithmeticOverflow));
}

#[test]
fn checked_mul_gives_the_product() {
    assert_eq!(checked_mul(6, 7), Ok(42));
    assert_eq!(checked_mul(0, u64::MAX), Ok(0));
    assert_eq!(checked_mul(u64::MAX, 1), Ok(u64::MAX));
    assert_eq!(checked_mul(1 << 32, (1 << 32) - 1), Ok(u64::MAX - (1 << 32) + 1));
}

#[test]
fn checked_mul_reports_overflow() {
    assert_eq!(checked_mul(1 << 32, 1 << 32), Err(CustomError::ArithmeticOverflow));
    assert_eq!(checked_mul(u64::MAX, 2), Err(CustomError::ArithmeticOverflow));
}

#[test]
fn checked_div_rounds_down() {
    assert_eq!(checked_div(7, 2), Ok(3));
    assert_eq!(checked_div(6, 2), Ok(3));
    assert_eq!(checked_div(0, 5), Ok(0));
    assert_eq!(checked_div(u64::MAX, 1), Ok(u64::MAX));
}

#[test]
fn checked_div_refuses_a_zero_divisor() {
    assert_eq!(checked_div(7, 0), Err(CustomError::ArithmeticOverflow));
    assert_eq!(checked_div(0, 0), Err(CustomError::ArithmeticOverflow));
}

#[test]
fn debit_takes_the_amount_out() {
    assert_eq!(debit(10, 4), Ok(6));
    assert_eq!(debit(10, 10), Ok(0));
    assert_eq!(debit(10, 0), Ok(10));
}

#[test]
fn debit_refuses_more_than_the_balance() {
    assert_eq!(debit(10, 11), Err(CustomError::InsufficientFunds));
    assert_eq!(debit(0, 1), Err(CustomError::InsufficientFunds));
}
