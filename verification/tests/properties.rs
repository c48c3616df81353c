//! Exact results of the property checks, beyond the witnesses.

use num_bigint_etna::etna::{
    all_properties, fuzzed_mul_1_inputs, is_multiple_of_zero_verdict, neg_isize_addassign_verdict,
    square_all_ones_verdict, property_is_multiple_of_zero, property_mul_does_not_panic,
    property_mul_square_all_ones, property_neg_isize_addassign, scalar_div_by_zero_verdict,
    PropertyResult, FUZZED_MUL_1_A, FUZZED_MUL_1_B,
};
use num_bigint_etna::integer::{BigInteger, Sign};
use num_bigint_etna::natural::BigNat;

#[test]
fn multiple_of_zero_passes_on_assorted_inputs() {
    for a in [0u64, 1, 2, 255, 256, 1 << 32, u64::MAX - 1] {
        assert_eq!(property_is_multiple_of_zero(a), PropertyResult::Pass);
    }
}

#[test]
fn neg_isize_addassign_passes_when_the_sum_fits() {
    assert_eq!(property_neg_isize_addassign(i64::MIN, 0), PropertyResult::Pass);
    assert_eq!(property_neg_isize_addassign(i64::MAX, -1), PropertyResult::Pass);
    assert_eq!(property_neg_isize_addassign(-1000, i16::MIN), PropertyResult::Pass);
    assert_eq!(property_neg_isize_addassign(i64::MAX - 5, 5), PropertyResult::Pass);
}

#[test]
fn neg_isize_addassign_passes_above_i64_max() {
    assert_eq!(property_neg_isize_addassign(i64::MAX, 1), PropertyResult::Pass);
    assert_eq!(property_neg_isize_addassign(i64::MAX, i16::MAX), PropertyResult::Pass);
}

#[test]
fn neg_isize_addassign_passes_below_i64_min() {
    assert_eq!(property_neg_isize_addassign(i64::MIN, -1), PropertyResult::Pass);
    assert_eq!(property_neg_isize_addassign(i64::MIN, i16::MIN), PropertyResult::Pass);
}

#[test]
fn neg_isize_addassign_verdict_texts() {
    let three = BigInteger::from_parts(Sign::Plus, BigNat::from_bytes_be(&[3]));
    let also_three = BigInteger::from_parts(Sign::Plus, BigNat::from_bytes_be(&[0, 3]));
    let big = BigInteger::from_parts(Sign::Minus, BigNat::from_bytes_be(&[1, 0]));
    let zero = BigInteger::from_parts(Sign::NoSign, BigNat::from_bytes_be(&[9]));
    assert_eq!(neg_isize_addassign_verdict(1, 2, &three, &also_three), PropertyResult::Pass);
    assert_eq!(
        neg_isize_addassign_verdict(1, 2, &big, &three),
        PropertyResult::Fail("1 += (2 as isize) = -256, expected 3".to_string())
    );
    assert_eq!(
        neg_isize_addassign_verdict(-7, -3, &zero, &big),
        PropertyResult::Fail("-7 += (-3 as isize) = 0, expected -256".to_string())
    );
}

#[test]
fn is_multiple_of_zero_verdict_texts() {
    assert_eq!(is_multiple_of_zero_verdict(0, true), PropertyResult::Pass);
    assert_eq!(is_multiple_of_zero_verdict(7, false), PropertyResult::Pass);
    assert_eq!(
        is_multiple_of_zero_verdict(7, true),
        PropertyResult::Fail("BigUint::from(7).is_multiple_of(&0) = true, expected false".to_string())
    );
    assert_eq!(
        is_multiple_of_zero_verdict(0, false),
        PropertyResult::Fail("BigUint::from(0).is_multiple_of(&0) = false, expected true".to_string())
    );
}

#[test]
fn square_all_ones_verdict_texts() {
    assert_eq!(square_all_ones_verdict(4096, true), PropertyResult::Pass);
    assert_eq!(
        square_all_ones_verdict(4096, false),
        PropertyResult::Fail("(2^4096-1)^2 mismatches closed form".to_string())
    );
}

#[test]
fn property_names() {
    assert_eq!(
        all_properties(),
        vec![
            "IsMultipleOfZero",
            "ScalarDivByZeroPanics",
            "NegIsizeAddAssign",
            "MulSquareAllOnes",
            "MulDoesNotPanic"
        ]
    );
}

#[test]
fn mul_square_all_ones_passes_for_every_size() {
    for tag in 0u8..=15 {
        assert_eq!(property_mul_square_all_ones(tag), PropertyResult::Pass);
    }
}

#[test]
fn mul_does_not_panic_on_leading_zeros_and_large_bytes() {
    assert_eq!(property_mul_does_not_panic(vec![0, 0, 0], vec![0, 7]), PropertyResult::Pass);
    assert_eq!(property_mul_does_not_panic(vec![0xff; 256], vec![0xff; 256]), PropertyResult::Pass);
}

#[test]
fn scalar_div_verdict_passes_on_a_panic() {
    assert_eq!(scalar_div_by_zero_verdict(0, None), PropertyResult::Pass);
    assert_eq!(scalar_div_by_zero_verdict(42, None), PropertyResult::Pass);
}

#[test]
fn scalar_div_verdict_fails_on_a_quotient() {
    assert_eq!(
        scalar_div_by_zero_verdict(0, Some(BigNat::zero())),
        PropertyResult::Fail("BigUint::from(0) / 0u32 did not panic (returned 0)".to_string())
    );
    assert_eq!(
        scalar_div_by_zero_verdict(42, Some(BigNat::from_bytes_be(&[1, 0]))),
        PropertyResult::Fail("BigUint::from(42) / 0u32 did not panic (returned 256)".to_string())
    );
}

#[test]
fn fuzzed_inputs_hold_the_hex_values() {
    let (a, b) = fuzzed_mul_1_inputs();
    let expected_a = num_bigint::BigUint::parse_bytes(FUZZED_MUL_1_A.as_bytes(), 16).unwrap();
    let expected_b = num_bigint::BigUint::parse_bytes(FUZZED_MUL_1_B.as_bytes(), 16).unwrap();
    assert_eq!(a.to_bytes_be(), expected_a.to_bytes_be());
    assert_eq!(b.to_bytes_be(), expected_b.to_bytes_be());
    assert_eq!(b.to_bytes_be()[0], 0x40);
    assert_eq!(a.to_bytes_be()[0], 0x0c);
}

#[test]
fn bytes_come_back_minimal() {
    assert_eq!(BigNat::from_bytes_be(&[0, 0, 1, 2]).to_bytes_be(), vec![1, 2]);
    assert_eq!(BigNat::from_bytes_be(&[]).to_bytes_be(), vec![0]);
    assert_eq!(BigNat::from_bytes_be(&[0, 0]).to_bytes_be(), vec![0]);
    assert_eq!(BigNat::one().to_bytes_be(), vec![1]);
    assert_eq!(BigNat::zero().to_bytes_be(), vec![0]);
}

#[test]
fn powers_of_two() {
    assert_eq!(BigNat::power_of_two(0).to_bytes_be(), vec![1]);
    assert_eq!(BigNat::power_of_two(10).to_bytes_be(), vec![4, 0]);
    assert_eq!(BigNat::power_of_two(64).to_bytes_be(), vec![1, 0, 0, 0, 0, 0, 0, 0, 0]);
}

#[test]
fn equal_values_give_equal_bytes() {
    let a = BigNat::from_bytes_be(&[0, 0, 0, 1, 2]).to_bytes_be();
    let b = BigNat::from_bytes_be(&[1, 2]).to_bytes_be();
    assert_eq!(a, b);
}
