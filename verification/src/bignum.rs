//! The arbitrary-precision numeric library, consumed through trusted entry
//! points: decimal text to value, value to decimal text, and rational
//! construction in lowest terms.

use vstd::prelude::*;
use num_bigint::BigInt;
use num_rational::BigRational;
use crate::numerals::{canonical_decimal, int_numeral_value, is_plain_numeral};

verus! {

#[verifier::external_type_specification]
#[verifier::external_body]
pub struct ExBigInt(BigInt);

#[verifier::external_type_specification]
#[verifier::external_body]
#[verifier::reject_recursive_types(T)]
pub struct ExRatio<T>(num_rational::Ratio<T>);

/// The integer a `BigInt` stands for.
pub uninterp spec fn int_of(b: BigInt) -> int;

/// The numerator of a `BigRational`, in the lowest-terms form the library
/// keeps (sign on the numerator).
pub uninterp spec fn rat_numer(r: BigRational) -> int;

/// The denominator of a `BigRational`, always positive in the lowest-terms
/// form the library keeps.
pub uninterp spec fn rat_denom(r: BigRational) -> int;

pub open spec fn int_abs(a: int) -> int {
    if a < 0 {
        -a
    } else {
        a
    }
}

/// Greatest common divisor of two non-negative integers.
pub open spec fn gcd(a: int, b: int) -> int
    decreases b when b >= 0
{
    if b <= 0 {
        a
    } else {
        gcd(b, a % b)
    }
}

/// Relies on `num_bigint::BigInt::parse_bytes` with radix 10: a decimal
/// numeral, optionally `-`-signed, parses to exactly its mathematical value.
#[verifier::external_body]
pub fn big_int_from_decimal(s: &[u8]) -> (r: BigInt)
    requires
        is_plain_numeral(s@),
    ensures
        int_of(r) == int_numeral_value(s@),
{
    BigInt::parse_bytes(s, 10).unwrap()
}

/// Relies on `num_bigint::BigInt`'s `Display`: the canonical decimal form,
/// a `-` sign exactly when negative, no `+` sign, no leading zeros.
#[verifier::external_body]
pub fn big_int_to_decimal(b: &BigInt) -> (r: Vec<u8>)
    ensures
        r@ == canonical_decimal(int_of(*b)),
{
    b.to_string().into_bytes()
}

/// Relies on `num_bigint::BigInt`'s `PartialEq`: equality of the integers the
/// two values stand for.
#[verifier::external_body]
pub fn big_int_eq(a: &BigInt, b: &BigInt) -> (r: bool)
    ensures
        r == (int_of(*a) == int_of(*b)),
{
    a == b
}

/// Relies on `num_rational::Ratio::new`: reduces the fraction to lowest terms
/// and keeps the denominator positive; it panics on a zero denominator, which
/// the precondition excludes.
#[verifier::external_body]
pub fn big_rational_new(n: BigInt, d: BigInt) -> (r: BigRational)
    requires
        int_of(d) > 0,
    ensures
        rat_numer(r) == int_of(n) / gcd(int_abs(int_of(n)), int_of(d)),
        rat_denom(r) == int_of(d) / gcd(int_abs(int_of(n)), int_of(d)),
        rat_denom(r) > 0,
{
    BigRational::new(n, d)
}

/// Relies on `num_rational::Ratio::numer`.
#[verifier::external_body]
pub fn big_rational_numer(r: &BigRational) -> (n: BigInt)
    ensures
        int_of(n) == rat_numer(*r),
{
    r.numer().clone()
}

/// Relies on `num_rational::Ratio::denom`.
#[verifier::external_body]
pub fn big_rational_denom(r: &BigRational) -> (d: BigInt)
    ensures
        int_of(d) == rat_denom(*r),
{
    r.denom().clone()
}

} // verus!
