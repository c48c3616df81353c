//! The property checks of the num-bigint workload.
//!
//! Each `property_<name>` takes concrete inputs and reports a
//! `PropertyResult`; every big-number step goes through `num-bigint`.

use vstd::arithmetic::power2::{lemma_pow2_adds, lemma_pow2_pos, lemma_pow2_strictly_increases, lemma2_to64, pow2};
use vstd::prelude::*;
use crate::integer::{int_add, int_add_assign_isize, int_eq, int_from_i64, int_to_string, BigInteger};
use crate::natural::{
    nat_eq, nat_from_str_radix, nat_from_u64, nat_is_multiple_of, nat_mul, nat_sub,
    nat_sub_u32, nat_to_string, numeral_ok, numeral_value, BigNat,
};
use crate::text::{
    bool_text, decimal, push_bool, push_decimal, push_signed_decimal, signed_decimal,
};

verus! {

/// The verdict of one property check.
#[derive(Debug, Clone, PartialEq, Eq)]
pub enum PropertyResult {
    Pass,
    Fail(String),
    Discard,
}

/// The failure text of the zero-divisor multiple check.
pub open spec fn is_multiple_of_zero_failure(a: u64, got: bool) -> Seq<char> {
    "BigUint::from("@ + decimal(a as nat) + ").is_multiple_of(&0) = "@ + bool_text(got)
        + ", expected "@ + bool_text(a == 0)
}

/// The verdict on `BigUint::from(a).is_multiple_of(&0)` answering `got`:
/// it must answer `a == 0`.
pub fn is_multiple_of_zero_verdict(a: u64, got: bool) -> (r: PropertyResult)
    ensures
        got == (a == 0) ==> r is Pass,
        got != (a == 0) ==> (r matches PropertyResult::Fail(m) && m@
            == is_multiple_of_zero_failure(a, got)),
{
    let expected = a == 0;
    if got == expected {
        PropertyResult::Pass
    } else {
        let mut m = String::new();
        m.append("BigUint::from(");
        push_decimal(&mut m, a as u128);
        m.append(").is_multiple_of(&0) = ");
        push_bool(&mut m, got);
        m.append(", expected ");
        push_bool(&mut m, expected);
        PropertyResult::Fail(m)
    }
}

/// Checks that `BigUint::from(a).is_multiple_of(&0)` answers `a == 0`.
pub fn property_is_multiple_of_zero(a: u64) -> (r: PropertyResult)
    ensures
        r is Pass,
{
    let ba = nat_from_u64(a);
    let zero = BigNat::zero();
    let got = nat_is_multiple_of(&ba, &zero);
    is_multiple_of_zero_verdict(a, got)
}

/// The failure text of the scalar division by zero check.
pub open spec fn scalar_div_by_zero_failure(a: u64, quotient: nat) -> Seq<char> {
    "BigUint::from("@ + decimal(a as nat) + ") / 0u32 did not panic (returned "@ + decimal(
        quotient,
    ) + ")"@
}

/// The verdict on `BigUint::from(a) / 0u32`, given what the division did:
/// `None` when it panicked, as it must, or the quotient it returned.
pub fn scalar_div_by_zero_verdict(a: u64, quotient: Option<BigNat>) -> (r: PropertyResult)
    ensures
        quotient is None ==> r is Pass,
        quotient matches Some(q) ==> (r matches PropertyResult::Fail(m) && m@
            == scalar_div_by_zero_failure(a, q@)),
{
    match quotient {
        None => PropertyResult::Pass,
        Some(q) => {
            let mut m = String::new();
            m.append("BigUint::from(");
            push_decimal(&mut m, a as u128);
            m.append(") / 0u32 did not panic (returned ");
            let qs = nat_to_string(&q);
            m.append(qs.as_str());
            m.append(")");
            PropertyResult::Fail(m)
        },
    }
}

/// The failure text of the `isize` add-assign check.
pub open spec fn neg_isize_addassign_failure(a: i64, b: i16, got: int, expected: int) -> Seq<char> {
    signed_decimal(a as int) + " += ("@ + signed_decimal(b as int) + " as isize) = "@
        + signed_decimal(got) + ", expected "@ + signed_decimal(expected)
}

/// The verdict on `BigInt::from(a) += b as isize` giving `got`, against
/// the `expected` sum: they must be equal.
pub fn neg_isize_addassign_verdict(
    a: i64,
    b: i16,
    got: &BigInteger,
    expected: &BigInteger,
) -> (r: PropertyResult)
    ensures
        got@ == expected@ ==> r is Pass,
        got@ != expected@ ==> (r matches PropertyResult::Fail(m) && m@
            == neg_isize_addassign_failure(a, b, got@, expected@)),
{
    if int_eq(got, expected) {
        PropertyResult::Pass
    } else {
        let mut m = String::new();
        push_signed_decimal(&mut m, a);
        m.append(" += (");
        push_signed_decimal(&mut m, b as i64);
        m.append(" as isize) = ");
        let gs = int_to_string(got);
        m.append(gs.as_str());
        m.append(", expected ");
        let es = int_to_string(expected);
        m.append(es.as_str());
        PropertyResult::Fail(m)
    }
}

/// Checks that `BigInt::from(a) += b as isize` equals
/// `BigInt::from(a) + BigInt::from(b as i64)`, the exact sum.
pub fn property_neg_isize_addassign(a: i64, b: i16) -> (r: PropertyResult)
    ensures
        r is Pass,
{
    let mut x = int_from_i64(a);
    let bi = b as isize;
    int_add_assign_isize(&mut x, bi);
    let expected = int_add(&int_from_i64(a), &int_from_i64(b as i64));
    neg_isize_addassign_verdict(a, b, &x, &expected)
}

/// The failure text of the all-ones square check.
pub open spec fn square_all_ones_failure(n: u32) -> Seq<char> {
    "(2^"@ + decimal(n as nat) + "-1)^2 mismatches closed form"@
}

/// The verdict on whether `(2^n - 1)^2` came out `equal` to its closed form.
pub fn square_all_ones_verdict(n: u32, equal: bool) -> (r: PropertyResult)
    ensures
        equal ==> r is Pass,
        !equal ==> (r matches PropertyResult::Fail(m) && m@ == square_all_ones_failure(n)),
{
    if equal {
        PropertyResult::Pass
    } else {
        let mut m = String::new();
        m.append("(2^");
        push_decimal(&mut m, n as u128);
        m.append("-1)^2 mismatches closed form");
        PropertyResult::Fail(m)
    }
}

/// `(p - 1)^2 == p^2 - 2(p - 1) - 1`, with every intermediate difference of
/// the right-hand side non-negative.
proof fn lemma_square_of_predecessor(p: int)
    requires
        p >= 2,
    ensures
        p * p >= p - 1,
        p * p - (p - 1) >= p - 1,
        p * p - (p - 1) - (p - 1) >= 1,
        (p - 1) * (p - 1) == p * p - (p - 1) - (p - 1) - 1,
{
    assert(p * p >= 2 * p) by (nonlinear_arith)
        requires
            p >= 2,
    ;
    assert((p - 1) * (p - 1) == p * p - 2 * p + 1) by (nonlinear_arith);
}

/// Checks `(2^n - 1)^2 == 2^(2n) - 2(2^n - 1) - 1` for
/// `n = 2^(8 + bits_tag % 8)`.
pub fn property_mul_square_all_ones(bits_tag: u8) -> (r: PropertyResult)
    ensures
        r is Pass,
{
    let shift: u32 = 8u32 + (bits_tag as u32 % 8);
    assert(1 <= (1u32 << shift) <= 32768) by (bit_vector)
        requires
            8 <= shift <= 15,
    ;
    let n: u32 = 1u32 << shift;
    proof {
        lemma_pow2_adds(n as nat, n as nat);
        lemma_pow2_strictly_increases(0, n as nat);
        lemma2_to64();
        lemma_square_of_predecessor(pow2(n as nat) as int);
    }
    let x = nat_sub_u32(BigNat::power_of_two(n), 1u32);
    let x2 = nat_mul(&x, &x);
    let expected = nat_sub_u32(nat_sub(nat_sub(BigNat::power_of_two(2 * n), &x), &x), 1u32);
    square_all_ones_verdict(n, nat_eq(&x2, &expected))
}

/// Checks that multiplying the numbers with big-endian bytes `a_bytes` and
/// `b_bytes` completes.
pub fn property_mul_does_not_panic(a_bytes: Vec<u8>, b_bytes: Vec<u8>) -> (r: PropertyResult)
    ensures
        r is Pass,
{
    let a = BigNat::from_bytes_be(a_bytes.as_slice());
    let b = BigNat::from_bytes_be(b_bytes.as_slice());
    let _product = nat_mul(&a, &b);
    PropertyResult::Pass
}

/// The first factor of the fuzzed multiplication input, in hexadecimal.
pub const FUZZED_MUL_1_A: &'static str = "\
    cd6839ee857cf791a40494c2e522846eefbca9eca9912fdc1feed4561dbde75c75f1ddca2325ebb1\
    b9cd6eae07308578e58e57f4ddd7dc239b4fd347b883e37d87232a8e5d5a8690c8dba69c97fe8ac4\
    58add18be7e460e03c9d1ae8223db53d20681a4027ffc17d1e43b764791c4db5ff7add849da7e378\
    ac8d9be0e8b517c490da3c0f944b6a52a0c5dc5217c71da8eec35d2c3110d8b041d2b52f3e2a8904\
    abcaaca517a8f2ef6cd26ceadd39a1cf9f770bc08f55f5a230cd81961348bb18534245430699de77\
    d93b805153cffd05dfd0f2cfc2332888cec9c5abf3ece9b4d7886ad94c784bf74fce12853b2a9a75\
    b62a845151a703446cc20300eafe7332330e992ae88817cd6ccef8877b66a7252300a4664d7074da\
    181cd9fd502ea1cd71c0b02db3c009fe970a7d226382cdba5b5576c5c0341694681c7adc4ca2d059\
    d9a6b300957a2235a4eb6689b71d34dcc4037b520eabd2c8b66604bb662fe2bcf533ba8d242dbc91\
    f04c1795b9f0fee800d197d8c6e998248b15855a9602b76cb3f94b148d8f71f7d6225b79d63a8e20\
    8ec8f0fa56a1c381b6c09bad9886056aec17fc92b9bb0f8625fd3444e40cccc2ede768ddb23c66ad\
    59a680a26a26d519d02e4d46ce93cce9e9dd86702bdd376abae0959a0e8e418aa507a63fafb8f422\
    83b03dc26f371c5e261a8f90f3ac9e2a6bcc7f0a39c3f73043b5aa5a950d4e945e9f68b2c2e593e3\
    b995be174714c1967b71f579043f89bfce37437af9388828a3ba0465c88954110cae6d38b638e094\
    13c15c9faddd6fb63623fd50e06d00c4d5954e787158b3e4eea7e9fae8b189fa8a204b23ac2f7bbc\
    b601189c0df2075977c2424336024ba3594172bea87f0f92beb20276ce8510c8ef2a4cd5ede87e7e\
    38b3fa49d66fbcd322be686a349c24919f4000000000000000000000000000000000000000000000\
    000000000000000000000000000000000";

/// The second factor of the fuzzed multiplication input, in hexadecimal.
pub const FUZZED_MUL_1_B: &'static str = "\
    40000000000000000000000000000000000000000000000000000000000000000000000000000000\
    00000000000000000000000000000000000000000000000000000000000000000000000000000000\
    00000000000000000000000000000000000000000000000000000000000000000000000000000000\
    00000000000000000000000000000000000000000000000000000000000000000000000000000000\
    00000000000000000000000000000000000000000000000000000000000000000000000000000000\
    00000000000000000000000000000000000000000000000000000000000000000000000000000000\
    00000000000000000000000000000000000000000000000000000000000000000000000000000000\
    00000000000000000000000000000000000000000000000000000000000000000000000000000000\
    00000000000000000000000000000000000000000000000000000000000000000000000000000000\
    00000000000000000000000000000000000000000000000000000000000000000000000000000000\
    00000000000000000000000000000000000000000000000000000000000000000000000000000000\
    00000000000000000000000000000000000000000000000000000000000000000000000000000000\
    00000000000000000000000000000000000000000000000000000000000000000000000000000000\
    00000000000000000000000000000000000000000000000000000000000000000000000000000000\
    00000000000000000000000000000000000000000000000000000000000000000000000000000000\
    00000000000000000000000000000000000000000000000000000000000000000000000000000000\
    00000000000000000000000000000000000000000000000000000000000000000000000000000000\
    00000000000000000000000000000000000000000000000000";

/// The two fuzzed numerals are hexadecimal numerals.
proof fn lemma_fuzzed_numerals_ok()
    ensures
        numeral_ok(FUZZED_MUL_1_A@, 16),
        numeral_ok(FUZZED_MUL_1_B@, 16),
{
    reveal_strlit("\
        cd6839ee857cf791a40494c2e522846eefbca9eca9912fdc1feed4561dbde75c75f1ddca2325ebb1\
        b9cd6eae07308578e58e57f4ddd7dc239b4fd347b883e37d87232a8e5d5a8690c8dba69c97fe8ac4\
        58add18be7e460e03c9d1ae8223db53d20681a4027ffc17d1e43b764791c4db5ff7add849da7e378\
        ac8d9be0e8b517c490da3c0f944b6a52a0c5dc5217c71da8eec35d2c3110d8b041d2b52f3e2a8904\
        abcaaca517a8f2ef6cd26ceadd39a1cf9f770bc08f55f5a230cd81961348bb18534245430699de77\
        d93b805153cffd05dfd0f2cfc2332888cec9c5abf3ece9b4d7886ad94c784bf74fce12853b2a9a75\
        b62a845151a703446cc20300eafe7332330e992ae88817cd6ccef8877b66a7252300a4664d7074da\
        181cd9fd502ea1cd71c0b02db3c009fe970a7d226382cdba5b5576c5c0341694681c7adc4ca2d059\
        d9a6b300957a2235a4eb6689b71d34dcc4037b520eabd2c8b66604bb662fe2bcf533ba8d242dbc91\
        f04c1795b9f0fee800d197d8c6e998248b15855a9602b76cb3f94b148d8f71f7d6225b79d63a8e20\
        8ec8f0fa56a1c381b6c09bad9886056aec17fc92b9bb0f8625fd3444e40cccc2ede768ddb23c66ad\
        59a680a26a26d519d02e4d46ce93cce9e9dd86702bdd376abae0959a0e8e418aa507a63fafb8f422\
        83b03dc26f371c5e261a8f90f3ac9e2a6bcc7f0a39c3f73043b5aa5a950d4e945e9f68b2c2e593e3\
        b995be174714c1967b71f579043f89bfce37437af9388828a3ba0465c88954110cae6d38b638e094\
        13c15c9faddd6fb63623fd50e06d00c4d5954e787158b3e4eea7e9fae8b189fa8a204b23ac2f7bbc\
        b601189c0df2075977c2424336024ba3594172bea87f0f92beb20276ce8510c8ef2a4cd5ede87e7e\
        38b3fa49d66fbcd322be686a349c24919f4000000000000000000000000000000000000000000000\
        000000000000000000000000000000000");
    reveal_strlit("\
        40000000000000000000000000000000000000000000000000000000000000000000000000000000\
        00000000000000000000000000000000000000000000000000000000000000000000000000000000\
        00000000000000000000000000000000000000000000000000000000000000000000000000000000\
        00000000000000000000000000000000000000000000000000000000000000000000000000000000\
        00000000000000000000000000000000000000000000000000000000000000000000000000000000\
        00000000000000000000000000000000000000000000000000000000000000000000000000000000\
        00000000000000000000000000000000000000000000000000000000000000000000000000000000\
        00000000000000000000000000000000000000000000000000000000000000000000000000000000\
        00000000000000000000000000000000000000000000000000000000000000000000000000000000\
        00000000000000000000000000000000000000000000000000000000000000000000000000000000\
        00000000000000000000000000000000000000000000000000000000000000000000000000000000\
        00000000000000000000000000000000000000000000000000000000000000000000000000000000\
        00000000000000000000000000000000000000000000000000000000000000000000000000000000\
        00000000000000000000000000000000000000000000000000000000000000000000000000000000\
        00000000000000000000000000000000000000000000000000000000000000000000000000000000\
        00000000000000000000000000000000000000000000000000000000000000000000000000000000\
        00000000000000000000000000000000000000000000000000000000000000000000000000000000\
        00000000000000000000000000000000000000000000000000");
}

/// The names of the properties, in the order a run of all of them takes.
pub fn all_properties() -> (r: Vec<&'static str>)
    ensures
        r@.len() == 5,
        r@[0]@ == "IsMultipleOfZero"@,
        r@[1]@ == "ScalarDivByZeroPanics"@,
        r@[2]@ == "NegIsizeAddAssign"@,
        r@[3]@ == "MulSquareAllOnes"@,
        r@[4]@ == "MulDoesNotPanic"@,
{
    let mut r: Vec<&'static str> = Vec::new();
    r.push("IsMultipleOfZero");
    r.push("ScalarDivByZeroPanics");
    r.push("NegIsizeAddAssign");
    r.push("MulSquareAllOnes");
    r.push("MulDoesNotPanic");
    r
}

/// The two factors of the fuzzed multiplication input, parsed from their
/// hexadecimal numerals.
pub fn fuzzed_mul_1_inputs() -> (r: (BigNat, BigNat))
    ensures
        r.0@ == numeral_value(FUZZED_MUL_1_A@, 16),
        r.1@ == numeral_value(FUZZED_MUL_1_B@, 16),
{
    proof {
        lemma_fuzzed_numerals_ok();
    }
    let a = match nat_from_str_radix(FUZZED_MUL_1_A, 16) {
        Ok(v) => v,
        Err(_) => unreached(),
    };
    let b = match nat_from_str_radix(FUZZED_MUL_1_B, 16) {
        Ok(v) => v,
        Err(_) => unreached(),
    };
    (a, b)
}

} // verus!
