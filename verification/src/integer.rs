//! Arbitrary-precision integers held as a sign and a magnitude, and the
//! calls into `num-bigint` that compute with them.

use vstd::prelude::*;
use crate::natural::BigNat;
use crate::text::signed_decimal;
use num_bigint::BigInt;
use num_bigint::Sign as NumSign;

verus! {

/// The sign of a big integer, as num-bigint distinguishes it.
#[derive(Clone, Copy, Debug, PartialEq, Eq, Structural)]
pub enum Sign {
    Minus,
    NoSign,
    Plus,
}

/// An arbitrary-precision integer: a sign and a magnitude. `NoSign` stands
/// for zero whatever the magnitude holds.
pub struct BigInteger {
    sign: Sign,
    magnitude: BigNat,
}

impl View for BigInteger {
    type V = int;

    closed spec fn view(&self) -> int {
        match self.sign {
            Sign::Minus => -(self.magnitude@ as int),
            Sign::NoSign => 0,
            Sign::Plus => self.magnitude@ as int,
        }
    }
}

impl BigInteger {
    /// The integer `sign * magnitude` (zero for `NoSign`).
    pub fn from_parts(sign: Sign, magnitude: BigNat) -> (r: BigInteger)
        ensures
            r@ == (match sign {
                Sign::Minus => -(magnitude@ as int),
                Sign::NoSign => 0,
                Sign::Plus => magnitude@ as int,
            }),
    {
        BigInteger { sign, magnitude }
    }
}

/// `BigInt::from(i64)` of num-bigint: trusted to hold the value of `a`.
#[verifier::external_body]
pub(crate) fn int_from_i64(a: i64) -> (r: BigInteger)
    ensures
        r@ == a as int,
{
    let (s, m) = BigInt::from(a).to_bytes_be();
    let sign = match s { NumSign::Minus => Sign::Minus, NumSign::NoSign => Sign::NoSign, NumSign::Plus => Sign::Plus };
    BigInteger { sign, magnitude: BigNat { bytes: m } }
}

/// `AddAssign<isize>` of num-bigint on a `BigInt`: trusted to add `b`.
#[verifier::external_body]
pub(crate) fn int_add_assign_isize(x: &mut BigInteger, b: isize)
    ensures
        final(x)@ == old(x)@ + b as int,
{
    let sign = match x.sign { Sign::Minus => NumSign::Minus, Sign::NoSign => NumSign::NoSign, Sign::Plus => NumSign::Plus };
    let mut v = BigInt::from_bytes_be(sign, &x.magnitude.bytes);
    v += b;
    let (s, m) = v.to_bytes_be();
    x.sign = match s { NumSign::Minus => Sign::Minus, NumSign::NoSign => Sign::NoSign, NumSign::Plus => Sign::Plus };
    x.magnitude = BigNat { bytes: m };
}

/// `&BigInt + &BigInt` of num-bigint: trusted to return the sum.
#[verifier::external_body]
pub(crate) fn int_add(a: &BigInteger, b: &BigInteger) -> (r: BigInteger)
    ensures
        r@ == a@ + b@,
{
    let sa = match a.sign { Sign::Minus => NumSign::Minus, Sign::NoSign => NumSign::NoSign, Sign::Plus => NumSign::Plus };
    let sb = match b.sign { Sign::Minus => NumSign::Minus, Sign::NoSign => NumSign::NoSign, Sign::Plus => NumSign::Plus };
    let v = &BigInt::from_bytes_be(sa, &a.magnitude.bytes) + &BigInt::from_bytes_be(sb, &b.magnitude.bytes);
    let (s, m) = v.to_bytes_be();
    let sign = match s { NumSign::Minus => Sign::Minus, NumSign::NoSign => Sign::NoSign, NumSign::Plus => Sign::Plus };
    BigInteger { sign, magnitude: BigNat { bytes: m } }
}

/// `BigInt == BigInt` of num-bigint: trusted to compare the values.
#[verifier::external_body]
pub(crate) fn int_eq(a: &BigInteger, b: &BigInteger) -> (r: bool)
    ensures
        r == (a@ == b@),
{
    let sa = match a.sign { Sign::Minus => NumSign::Minus, Sign::NoSign => NumSign::NoSign, Sign::Plus => NumSign::Plus };
    let sb = match b.sign { Sign::Minus => NumSign::Minus, Sign::NoSign => NumSign::NoSign, Sign::Plus => NumSign::Plus };
    BigInt::from_bytes_be(sa, &a.magnitude.bytes) == BigInt::from_bytes_be(sb, &b.magnitude.bytes)
}

/// `BigInt`'s `Display` of num-bigint, through `to_string`: trusted to
/// write the decimal numeral, with `-` in front of a negative value.
#[verifier::external_body]
pub(crate) fn int_to_string(a: &BigInteger) -> (r: String)
    ensures
        r@ == signed_decimal(a@),
{
    let sign = match a.sign { Sign::Minus => NumSign::Minus, Sign::NoSign => NumSign::NoSign, Sign::Plus => NumSign::Plus };
    BigInt::from_bytes_be(sign, &a.magnitude.bytes).to_string()
}

} // verus!
