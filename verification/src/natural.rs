//! Arbitrary-precision naturals held as big-endian bytes, and the calls into
//! `num-bigint` that compute with them.

use vstd::arithmetic::power2::pow2;
use vstd::prelude::*;
use crate::text::decimal;

verus! {

/// The value of a big-endian base-256 numeral.
pub open spec fn be_value(bytes: Seq<u8>) -> nat
    decreases bytes.len(),
{
    if bytes.len() == 0 {
        0
    } else {
        be_value(bytes.drop_last()) * 256 + bytes.last() as nat
    }
}

/// A minimal big-endian numeral: zero is the single byte 0, any other value
/// has no leading zero byte.
pub open spec fn is_minimal_be(bytes: Seq<u8>) -> bool {
    &&& bytes.len() >= 1
    &&& (bytes.len() > 1 ==> bytes[0] != 0)
}

/// The value of a digit character in any radix up to 36: `0-9`, then `a-z`
/// or `A-Z` for 10 to 35; any other character gets 36, which no radix admits.
pub open spec fn digit_value(c: char) -> nat {
    if '0' <= c && c <= '9' {
        (c as nat - '0' as nat) as nat
    } else if 'a' <= c && c <= 'z' {
        (c as nat - 'a' as nat + 10) as nat
    } else if 'A' <= c && c <= 'Z' {
        (c as nat - 'A' as nat + 10) as nat
    } else {
        36
    }
}

/// A numeral with its single leading `+` removed (a doubled `+` stays).
pub open spec fn strip_plus(s: Seq<char>) -> Seq<char> {
    if s.len() > 0 && s[0] == '+' && !(s.len() > 1 && s[1] == '+') {
        s.drop_first()
    } else {
        s
    }
}

/// Whether `s` is a numeral in `radix`: an optional `+`, then a digit, then
/// digits and `_` separators.
pub open spec fn numeral_ok(s: Seq<char>, radix: nat) -> bool {
    let t = strip_plus(s);
    &&& t.len() > 0
    &&& t[0] != '_'
    &&& forall|i: int| 0 <= i < t.len() ==> (#[trigger] t[i] == '_' || digit_value(t[i]) < radix)
}

/// The value of the digits of `t` in `radix`, `_` separators skipped.
pub open spec fn digits_value(t: Seq<char>, radix: nat) -> nat
    decreases t.len(),
{
    if t.len() == 0 {
        0
    } else if t.last() == '_' {
        digits_value(t.drop_last(), radix)
    } else {
        digits_value(t.drop_last(), radix) * radix + digit_value(t.last())
    }
}

/// The value of the numeral `s` in `radix`.
pub open spec fn numeral_value(s: Seq<char>, radix: nat) -> nat {
    digits_value(strip_plus(s), radix)
}

/// `256^n`.
pub open spec fn base_pow(n: nat) -> nat
    decreases n,
{
    if n == 0 {
        1
    } else {
        256 * base_pow((n - 1) as nat)
    }
}

proof fn lemma_base_pow_monotonic(m: nat, n: nat)
    requires
        m <= n,
    ensures
        base_pow(m) <= base_pow(n),
        base_pow(m) >= 1,
    decreases n - m, m,
{
    if m < n {
        lemma_base_pow_monotonic(m, (n - 1) as nat);
    } else if m > 0 {
        lemma_base_pow_monotonic((m - 1) as nat, (m - 1) as nat);
    }
}

/// A numeral of `n` bytes is below `256^n`.
proof fn lemma_be_value_below(s: Seq<u8>)
    ensures
        be_value(s) < base_pow(s.len()),
    decreases s.len(),
{
    if s.len() > 0 {
        let p = s.drop_last();
        lemma_be_value_below(p);
        assert(base_pow(s.len()) == 256 * base_pow(p.len()));
        assert(be_value(s) == be_value(p) * 256 + s.last() as nat);
        let v = be_value(p);
        let b = base_pow(p.len());
        let d = s.last() as nat;
        assert(v * 256 + d < 256 * b) by (nonlinear_arith)
            requires
                v < b,
                d < 256,
        ;
    }
}

/// A numeral is at least its leading byte times `256^(n-1)`.
proof fn lemma_be_value_leading(s: Seq<u8>)
    requires
        s.len() >= 1,
    ensures
        be_value(s) >= s[0] as nat * base_pow((s.len() - 1) as nat),
    decreases s.len(),
{
    if s.len() > 1 {
        let p = s.drop_last();
        lemma_be_value_leading(p);
        assert(p[0] == s[0]);
        let b = base_pow((p.len() - 1) as nat);
        let v = be_value(p);
        assert(v * 256 >= s[0] as nat * (256 * b)) by (nonlinear_arith)
            requires
                v >= s[0] as nat * b,
        ;
        assert(base_pow((s.len() - 1) as nat) == 256 * b);
        assert(be_value(s) == v * 256 + s.last() as nat);
    } else {
        assert(s.drop_last() =~= Seq::<u8>::empty());
        assert(be_value(s.drop_last()) == 0);
        assert(s.last() == s[0]);
        assert(base_pow(0) == 1);
        assert(s[0] as nat * 1 == s[0] as nat);
    }
}

/// Numerals of one length and one value are the same bytes.
proof fn lemma_same_length_same_value(a: Seq<u8>, b: Seq<u8>)
    requires
        a.len() == b.len(),
        be_value(a) == be_value(b),
    ensures
        a == b,
    decreases a.len(),
{
    if a.len() > 0 {
        lemma_same_length_same_value(a.drop_last(), b.drop_last());
        assert(a =~= a.drop_last().push(a.last()));
        assert(b =~= b.drop_last().push(b.last()));
    } else {
        assert(a =~= b);
    }
}

/// The minimal numeral of a value is unique: minimal numerals of equal
/// value are the same bytes, so `BigNat::to_bytes_be` depends on the value
/// alone.
pub proof fn law_minimal_bytes_unique(a: Seq<u8>, b: Seq<u8>)
    requires
        is_minimal_be(a),
        is_minimal_be(b),
        be_value(a) == be_value(b),
    ensures
        a == b,
{
    if a.len() < b.len() {
        lemma_be_value_below(a);
        lemma_be_value_leading(b);
        lemma_base_pow_monotonic(a.len(), (b.len() - 1) as nat);
        assert(b[0] as nat * base_pow((b.len() - 1) as nat) >= base_pow((b.len() - 1) as nat)) by (nonlinear_arith)
            requires
                b[0] >= 1,
        ;
    } else if b.len() < a.len() {
        lemma_be_value_below(b);
        lemma_be_value_leading(a);
        lemma_base_pow_monotonic(b.len(), (a.len() - 1) as nat);
        assert(a[0] as nat * base_pow((a.len() - 1) as nat) >= base_pow((a.len() - 1) as nat)) by (nonlinear_arith)
            requires
                a[0] >= 1,
        ;
    } else {
        lemma_same_length_same_value(a, b);
    }
}

/// An arbitrary-precision natural number.
pub struct BigNat {
    pub(crate) bytes: Vec<u8>,
}

impl View for BigNat {
    type V = nat;

    closed spec fn view(&self) -> nat {
        be_value(self.bytes@)
    }
}

impl BigNat {
    /// The natural number whose big-endian base-256 digits are `bytes`;
    /// no bytes at all make zero.
    pub fn from_bytes_be(bytes: &[u8]) -> (r: BigNat)
        ensures
            r@ == be_value(bytes@),
    {
        BigNat { bytes: vstd::slice::slice_to_vec(bytes) }
    }

    /// The number zero.
    pub fn zero() -> (r: BigNat)
        ensures
            r@ == 0,
    {
        BigNat { bytes: Vec::new() }
    }

    /// The number one.
    pub fn one() -> (r: BigNat)
        ensures
            r@ == 1,
    {
        let mut bytes: Vec<u8> = Vec::new();
        bytes.push(1u8);
        assert(bytes@.drop_last() =~= Seq::<u8>::empty());
        assert(be_value(bytes@) == be_value(bytes@.drop_last()) * 256 + 1);
        BigNat { bytes }
    }

    /// Two to the power `n`: one shifted left by `n` bits.
    pub fn power_of_two(n: u32) -> (r: BigNat)
        ensures
            r@ == pow2(n as nat),
    {
        nat_shl(BigNat::one(), n)
    }

    /// The minimal big-endian bytes of this number (zero is `[0]`).
    pub fn to_bytes_be(&self) -> (r: Vec<u8>)
        ensures
            be_value(r@) == self@,
            is_minimal_be(r@),
    {
        nat_to_bytes_be(self)
    }
}

/// `BigUint::to_bytes_be` of num-bigint: trusted to give the minimal
/// big-endian bytes of the value (`[0]` for zero).
#[verifier::external_body]
fn nat_to_bytes_be(a: &BigNat) -> (r: Vec<u8>)
    ensures
        be_value(r@) == a@,
        is_minimal_be(r@),
{
    num_bigint::BigUint::from_bytes_be(&a.bytes).to_bytes_be()
}

/// `BigUint::from(u64)` of num-bigint: trusted to hold the value of `a`.
#[verifier::external_body]
pub(crate) fn nat_from_u64(a: u64) -> (r: BigNat)
    ensures
        r@ == a,
{
    BigNat { bytes: num_bigint::BigUint::from(a).to_bytes_be() }
}

/// `&BigUint * &BigUint` of num-bigint: trusted to return the product.
#[verifier::external_body]
pub(crate) fn nat_mul(a: &BigNat, b: &BigNat) -> (r: BigNat)
    ensures
        r@ == a@ * b@,
{
    let x = num_bigint::BigUint::from_bytes_be(&a.bytes);
    let y = num_bigint::BigUint::from_bytes_be(&b.bytes);
    BigNat { bytes: (&x * &y).to_bytes_be() }
}

/// `BigUint << u32` of num-bigint: trusted to multiply by `2^shift`.
#[verifier::external_body]
fn nat_shl(a: BigNat, shift: u32) -> (r: BigNat)
    ensures
        r@ == a@ * pow2(shift as nat),
{
    let x = num_bigint::BigUint::from_bytes_be(&a.bytes);
    BigNat { bytes: (x << shift).to_bytes_be() }
}

/// `BigUint - u32` of num-bigint, which panics when `b` exceeds `a`: trusted
/// to return the difference.
#[verifier::external_body]
pub(crate) fn nat_sub_u32(a: BigNat, b: u32) -> (r: BigNat)
    requires
        a@ >= b,
    ensures
        r@ == a@ - b,
{
    let x = num_bigint::BigUint::from_bytes_be(&a.bytes);
    BigNat { bytes: (x - b).to_bytes_be() }
}

/// `BigUint - &BigUint` of num-bigint, which panics when `b` exceeds `a`:
/// trusted to return the difference.
#[verifier::external_body]
pub(crate) fn nat_sub(a: BigNat, b: &BigNat) -> (r: BigNat)
    requires
        a@ >= b@,
    ensures
        r@ == a@ - b@,
{
    let x = num_bigint::BigUint::from_bytes_be(&a.bytes);
    let y = num_bigint::BigUint::from_bytes_be(&b.bytes);
    BigNat { bytes: (x - &y).to_bytes_be() }
}

/// `BigUint == BigUint` of num-bigint: trusted to compare the values.
#[verifier::external_body]
pub(crate) fn nat_eq(a: &BigNat, b: &BigNat) -> (r: bool)
    ensures
        r == (a@ == b@),
{
    num_bigint::BigUint::from_bytes_be(&a.bytes) == num_bigint::BigUint::from_bytes_be(&b.bytes)
}

/// `Integer::is_multiple_of` of num-integer on two `BigUint`s: trusted to
/// say whether `b` divides `a`, where only zero counts as a multiple of zero.
#[verifier::external_body]
pub(crate) fn nat_is_multiple_of(a: &BigNat, b: &BigNat) -> (r: bool)
    ensures
        r == (if b@ == 0 { a@ == 0 } else { a@ % b@ == 0 }),
{
    let x = num_bigint::BigUint::from_bytes_be(&a.bytes);
    let y = num_bigint::BigUint::from_bytes_be(&b.bytes);
    num_integer::Integer::is_multiple_of(&x, &y)
}

/// `BigUint`'s `Display` of num-bigint, through `to_string`: trusted to
/// write the decimal numeral of the value.
#[verifier::external_body]
pub(crate) fn nat_to_string(a: &BigNat) -> (r: String)
    ensures
        r@ == decimal(a@),
{
    num_bigint::BigUint::from_bytes_be(&a.bytes).to_string()
}

/// The error type of num-bigint's numeral parsing.
#[verifier::external_type_specification]
#[verifier::external_body]
pub struct ExParseBigIntError(num_bigint::ParseBigIntError);

/// `Num::from_str_radix` of num-traits for `BigUint` (num-bigint), which
/// asserts that `radix` is in `2..=36`: trusted to succeed exactly on
/// numerals of that radix (an optional `+`, a digit, then digits and `_`)
/// and then to hold their value. Which error it reports is left unsaid.
#[verifier::external_body]
pub(crate) fn nat_from_str_radix(s: &str, radix: u32) -> (r: Result<BigNat, num_bigint::ParseBigIntError>)
    requires
        2 <= radix <= 36,
    ensures
        r is Ok <==> numeral_ok(s@, radix as nat),
        r matches Ok(v) ==> v@ == numeral_value(s@, radix as nat),
{
    let parsed: Result<num_bigint::BigUint, num_bigint::ParseBigIntError> =
        num_traits::Num::from_str_radix(s, radix);
    match parsed {
        Ok(v) => Ok(BigNat { bytes: v.to_bytes_be() }),
        Err(e) => Err(e),
    }
}

} // verus!
