//! Canonical decimal text of an integer, and the number of decimal digits of
//! a `BigInt`'s magnitude.

use crate::bigint::{abs, from_i64, int_of, less_than};
use num_bigint::BigInt;
use vstd::arithmetic::power::pow;
use vstd::prelude::*;

verus! {

/// The character of one decimal digit.
pub open spec fn digit_char(d: nat) -> char {
    seq!['0', '1', '2', '3', '4', '5', '6', '7', '8', '9'][d as int]
}

/// Decimal digits of a natural number, most significant first, without
/// leading zeros ("0" for zero).
pub open spec fn decimal_digits(n: nat) -> Seq<char>
    decreases n,
{
    if n < 10 {
        seq![digit_char(n)]
    } else {
        decimal_digits(n / 10).push(digit_char(n % 10))
    }
}

/// Canonical decimal text of an integer: a leading '-' for a negative value,
/// then the digits of its magnitude.
pub open spec fn decimal_text(v: int) -> Seq<char> {
    if v < 0 {
        seq!['-'] + decimal_digits((-v) as nat)
    } else {
        decimal_digits(v as nat)
    }
}

/// A natural number has at least one digit, at least three from 100 up, and
/// with `k` digits it is at least `10^(k-1)`.
pub proof fn lemma_digit_count_bounds(n: nat)
    ensures
        decimal_digits(n).len() >= 1,
        n >= 100 ==> decimal_digits(n).len() >= 3,
        n >= 1 ==> pow(10, (decimal_digits(n).len() - 1) as nat) <= n,
    decreases n,
{
    reveal(pow);
    if n >= 10 {
        lemma_digit_count_bounds(n / 10);
        let k = decimal_digits(n / 10).len();
        assert(decimal_digits(n).len() == k + 1);
        if n >= 100 {
            lemma_digit_count_bounds(n / 100);
            assert(n / 10 / 10 == n / 100);
            assert(decimal_digits(n / 10).len() == decimal_digits(n / 100).len() + 1);
        }
        let q = n / 10;
        let pk = pow(10, (k - 1) as nat);
        assert(pow(10, k as nat) == 10 * pk);
        assert(pk <= q);
        assert(10 * q <= n);
        assert(10 * pk <= 10 * q) by (nonlinear_arith)
            requires
                pk <= q,
        ;
    }
}

/// Relies on `ToString for BigInt` (through its `Display`): the canonical
/// decimal text, with a leading '-' for negative values.
#[verifier::external_body]
pub(crate) fn to_decimal_string(x: &BigInt) -> (r: String)
    ensures
        r@ == decimal_text(int_of(*x)),
{
    x.to_string()
}

/// Number of decimal digits of the magnitude of `x`, read off its decimal text.
pub fn digit_count(x: &BigInt) -> (r: usize)
    ensures
        r == decimal_digits(abs(int_of(*x)) as nat).len(),
{
    let text = to_decimal_string(x);
    let len = text.as_str().unicode_len();
    let zero = from_i64(0);
    if less_than(x, &zero) {
        assert(text@.len() == 1 + decimal_digits(abs(int_of(*x)) as nat).len());
        len - 1
    } else {
        len
    }
}

} // verus!
