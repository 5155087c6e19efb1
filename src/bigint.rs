//! The arbitrary-precision integer type of `num_bigint`, its mathematical
//! value, and the few operations of it that the multiplier calls.

use num_bigint::BigInt;
use num_traits::Pow;
use vstd::arithmetic::power::pow;
use vstd::prelude::*;

verus! {

#[verifier::external_type_specification]
#[verifier::external_body]
pub struct ExBigInt(num_bigint::BigInt);

/// The mathematical integer that a `BigInt` holds.
pub uninterp spec fn int_of(x: BigInt) -> int;

/// Absolute value.
pub open spec fn abs(v: int) -> int {
    if v < 0 {
        -v
    } else {
        v
    }
}

/// Quotient of division rounded toward zero, for a positive divisor.
pub open spec fn trunc_div(v: int, p: int) -> int {
    if v >= 0 {
        v / p
    } else {
        -((-v) / p)
    }
}

/// Remainder that goes with `trunc_div`: it takes the sign of the dividend.
pub open spec fn trunc_rem(v: int, p: int) -> int {
    if v >= 0 {
        v % p
    } else {
        -((-v) % p)
    }
}

/// Relies on `From<i64> for BigInt`: the value is kept exactly.
#[verifier::external_body]
pub(crate) fn from_i64(v: i64) -> (r: BigInt)
    ensures
        int_of(r) == v as int,
{
    BigInt::from(v)
}

/// Relies on `PartialOrd for BigInt`: `<` orders by value.
#[verifier::external_body]
pub(crate) fn less_than(a: &BigInt, b: &BigInt) -> (r: bool)
    ensures
        r == (int_of(*a) < int_of(*b)),
{
    a < b
}

/// Relies on `Add<&BigInt> for &BigInt`: the exact sum.
#[verifier::external_body]
pub(crate) fn big_add(a: &BigInt, b: &BigInt) -> (r: BigInt)
    ensures
        int_of(r) == int_of(*a) + int_of(*b),
{
    a + b
}

/// Relies on `Sub<&BigInt> for &BigInt`: the exact difference.
#[verifier::external_body]
pub(crate) fn big_sub(a: &BigInt, b: &BigInt) -> (r: BigInt)
    ensures
        int_of(r) == int_of(*a) - int_of(*b),
{
    a - b
}

/// Relies on `Mul<&BigInt> for &BigInt`: the exact product.
#[verifier::external_body]
pub(crate) fn big_mul(a: &BigInt, b: &BigInt) -> (r: BigInt)
    ensures
        int_of(r) == int_of(*a) * int_of(*b),
{
    a * b
}

/// Relies on `Div<&BigInt> for &BigInt`, which rounds toward zero and panics
/// on a zero divisor (only positive divisors are used here).
#[verifier::external_body]
pub(crate) fn big_div(a: &BigInt, p: &BigInt) -> (r: BigInt)
    requires
        int_of(*p) > 0,
    ensures
        int_of(r) == trunc_div(int_of(*a), int_of(*p)),
{
    a / p
}

/// Relies on `Rem<&BigInt> for &BigInt`, whose remainder takes the sign of
/// the dividend and which panics on a zero divisor.
#[verifier::external_body]
pub(crate) fn big_rem(a: &BigInt, p: &BigInt) -> (r: BigInt)
    requires
        int_of(*p) > 0,
    ensures
        int_of(r) == trunc_rem(int_of(*a), int_of(*p)),
{
    a % p
}

/// Relies on `num_traits::Pow<usize> for &BigInt`: exact exponentiation.
#[verifier::external_body]
pub(crate) fn big_pow(base: &BigInt, e: usize) -> (r: BigInt)
    ensures
        int_of(r) == pow(int_of(*base), e as nat),
{
    Pow::pow(base, e)
}

} // verus!
