//! Decimal numerals written by the library.

use num_bigint_etna::text::{push_bool, push_decimal, push_signed_decimal};

#[test]
fn decimals_of_unsigned_values() {
    let mut s = String::new();
    push_decimal(&mut s, 0);
    s.push(' ');
    push_decimal(&mut s, 9);
    s.push(' ');
    push_decimal(&mut s, 10);
    s.push(' ');
    push_decimal(&mut s, u128::MAX);
    assert_eq!(s, format!("0 9 10 {}", u128::MAX));
}

#[test]
fn decimals_of_signed_values() {
    let mut s = String::new();
    push_signed_decimal(&mut s, i64::MIN);
    s.push(' ');
    push_signed_decimal(&mut s, -7);
    s.push(' ');
    push_signed_decimal(&mut s, 0);
    s.push(' ');
    push_signed_decimal(&mut s, i64::MAX);
    assert_eq!(s, "-9223372036854775808 -7 0 9223372036854775807");
}

#[test]
fn booleans() {
    let mut s = String::new();
    push_bool(&mut s, true);
    push_bool(&mut s, false);
    assert_eq!(s, "truefalse");
}
