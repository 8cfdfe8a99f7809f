use libmgen::bigint::{big_abs, big_eq, big_le, big_neg, big_pow10, decimal, signed_decimal};
use num_bigint::BigInt;

#[test]
fn big_integers_compare_by_value() {
    let a = BigInt::from(-3);
    let b = BigInt::from(7);
    assert!(big_eq(&a, &BigInt::from(-3)));
    assert!(!big_eq(&a, &b));
    assert!(big_le(&a, &b));
    assert!(big_le(&a, &a));
    assert!(!big_le(&b, &a));
}

#[test]
fn negation_and_absolute_value() {
    assert_eq!(big_neg(&BigInt::from(5)), BigInt::from(-5));
    assert_eq!(big_neg(&BigInt::from(-5)), BigInt::from(5));
    assert_eq!(big_neg(&BigInt::from(0)), BigInt::from(0));
    assert_eq!(big_abs(&BigInt::from(-5)), BigInt::from(5));
    assert_eq!(big_abs(&BigInt::from(5)), BigInt::from(5));
    assert_eq!(big_abs(&BigInt::from(0)), BigInt::from(0));
}

#[test]
fn powers_of_ten() {
    assert_eq!(big_pow10(0), BigInt::from(1));
    assert_eq!(big_pow10(3), BigInt::from(1000));
    assert_eq!(big_pow10(30).to_string(), "1000000000000000000000000000000");
}

#[test]
fn integers_print_in_decimal() {
    assert_eq!(decimal(0), "0");
    assert_eq!(decimal(9), "9");
    assert_eq!(decimal(10), "10");
    assert_eq!(decimal(u64::MAX), "18446744073709551615");
    assert_eq!(signed_decimal(0), "0");
    assert_eq!(signed_decimal(-1), "-1");
    assert_eq!(signed_decimal(i64::MIN), "-9223372036854775808");
    assert_eq!(signed_decimal(i64::MAX), "9223372036854775807");
}
