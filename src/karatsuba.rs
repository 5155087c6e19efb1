//! Karatsuba's divide-and-conquer multiplication.

use crate::bigint::{
    abs, big_add, big_div, big_mul, big_pow, big_rem, big_sub, from_i64, int_of, less_than,
    trunc_div, trunc_rem,
};
use crate::decimal::{digit_count, lemma_digit_count_bounds};
use num_bigint::BigInt;
use vstd::arithmetic::power::{lemma_pow1, lemma_pow_increases, lemma_pow_positive, pow};
use vstd::prelude::*;

verus! {

/// Operands whose magnitude is below this are multiplied directly.
pub const BASE_THRESHOLD: i64 = 100;

/// The exact product of the values of two integers.
pub open spec fn product(x: BigInt, y: BigInt) -> int {
    int_of(x) * int_of(y)
}

/// Whether `|x| < BASE_THRESHOLD`.
fn below_threshold(x: &BigInt) -> (r: bool)
    ensures
        r == (abs(int_of(*x)) < BASE_THRESHOLD),
{
    let upper = from_i64(BASE_THRESHOLD);
    let lower = from_i64(-BASE_THRESHOLD);
    less_than(&lower, x) && less_than(x, &upper)
}

/// Dividing by a positive `p` with rounding toward zero gives a quotient and
/// remainder that rebuild the value and share its sign.
proof fn lemma_trunc_split(v: int, p: int)
    requires
        p > 0,
    ensures
        v == trunc_div(v, p) * p + trunc_rem(v, p),
        abs(v) == abs(trunc_div(v, p)) * p + abs(trunc_rem(v, p)),
        abs(trunc_rem(v, p)) < p,
        v >= 0 ==> trunc_div(v, p) >= 0 && trunc_rem(v, p) >= 0,
        v < 0 ==> trunc_div(v, p) <= 0 && trunc_rem(v, p) <= 0,
        abs(v) >= p ==> abs(trunc_div(v, p)) >= 1,
{
    let m = abs(v);
    assert(m == (m / p) * p + m % p) by (nonlinear_arith)
        requires
            p > 0,
            m >= 0,
    ;
    assert(0 <= m % p < p);
    assert(m / p >= 0) by (nonlinear_arith)
        requires
            p > 0,
            m >= 0,
    ;
    if m >= p {
        assert(m / p >= 1) by (nonlinear_arith)
            requires
                p > 0,
                m >= p,
        ;
    }
    if v < 0 {
        assert(v == (-(m / p)) * p + (-(m % p))) by (nonlinear_arith)
            requires
                m == (m / p) * p + m % p,
                v == -m,
        ;
    }
}

/// Splits `x` at the decimal position of `p = 10^k` into a high part (the
/// quotient rounded toward zero) and a low part (the remainder, of the sign
/// of `x`), so that `x == high * p + low`.
fn split_at_power(x: &BigInt, p: &BigInt) -> (r: (BigInt, BigInt))
    requires
        int_of(*p) > 0,
    ensures
        int_of(r.0) == trunc_div(int_of(*x), int_of(*p)),
        int_of(r.1) == trunc_rem(int_of(*x), int_of(*p)),
{
    (big_div(x, p), big_rem(x, p))
}

/// Multiplies two integers by Karatsuba's method: below the threshold
/// directly, otherwise by splitting both operands at the same decimal
/// position and combining three recursive products.
pub fn multiply(x: &BigInt, y: &BigInt) -> (r: BigInt)
    ensures
        int_of(r) == product(*x, *y),
    decreases abs(int_of(*x)) + abs(int_of(*y)),
{
    if below_threshold(x) || below_threshold(y) {
        return big_mul(x, y);
    }
    let len_x = digit_count(x);
    let len_y = digit_count(y);
    let full_len: usize = if len_x < len_y {
        len_x
    } else {
        len_y
    };
    let half_len: usize = full_len / 2;
    let ten = from_i64(10);
    let p = big_pow(&ten, half_len);
    proof {
        let vx = abs(int_of(*x));
        let vy = abs(int_of(*y));
        lemma_digit_count_bounds(vx as nat);
        lemma_digit_count_bounds(vy as nat);
        lemma_pow_positive(10, half_len as nat);
        lemma_pow_increases(10, 1, half_len as nat);
        lemma_pow1(10);
        lemma_pow_increases(10, half_len as nat, (len_x - 1) as nat);
        lemma_pow_increases(10, half_len as nat, (len_y - 1) as nat);
        lemma_trunc_split(int_of(*x), int_of(p));
        lemma_trunc_split(int_of(*y), int_of(p));
    }
    let (a, b) = split_at_power(x, &p);
    let (c, d) = split_at_power(y, &p);
    let a_plus_b = big_add(&a, &b);
    let c_plus_d = big_add(&c, &d);
    proof {
        let pv = int_of(p);
        let (va, vb, vc, vd) = (int_of(a), int_of(b), int_of(c), int_of(d));
        assert(abs(va) < abs(int_of(*x)) && abs(vb) < abs(int_of(*x))) by (nonlinear_arith)
            requires
                abs(int_of(*x)) == abs(va) * pv + abs(vb),
                abs(va) >= 1,
                pv >= 10,
                abs(vb) >= 0,
        ;
        assert(abs(vc) < abs(int_of(*y)) && abs(vd) < abs(int_of(*y))) by (nonlinear_arith)
            requires
                abs(int_of(*y)) == abs(vc) * pv + abs(vd),
                abs(vc) >= 1,
                pv >= 10,
                abs(vd) >= 0,
        ;
        assert(abs(va + vb) < abs(int_of(*x))) by (nonlinear_arith)
            requires
                abs(int_of(*x)) == abs(va) * pv + abs(vb),
                abs(va) >= 1,
                pv >= 10,
                abs(va + vb) == abs(va) + abs(vb),
        ;
        assert(abs(vc + vd) < abs(int_of(*y))) by (nonlinear_arith)
            requires
                abs(int_of(*y)) == abs(vc) * pv + abs(vd),
                abs(vc) >= 1,
                pv >= 10,
                abs(vc + vd) == abs(vc) + abs(vd),
        ;
    }
    let ac = multiply(&a, &c);
    let bd = multiply(&b, &d);
    let sum_product = multiply(&a_plus_b, &c_plus_d);
    // Gauss's trick: (a + b)(c + d) - ac - bd == ad + bc.
    let ad_plus_bc = big_sub(&big_sub(&sum_product, &ac), &bd);
    // x == a * 10^half + b and y == c * 10^half + d, so the high product
    // weighs 10^(2 * half).
    let high_weight = big_mul(&p, &p);
    let result = big_add(&big_add(&big_mul(&high_weight, &ac), &big_mul(&p, &ad_plus_bc)), &bd);
    proof {
        let pv = int_of(p);
        let (va, vb, vc, vd) = (int_of(a), int_of(b), int_of(c), int_of(d));
        let mid = (va + vb) * (vc + vd) - va * vc - vb * vd;
        assert(mid == va * vd + vb * vc) by (nonlinear_arith)
            requires
                mid == (va + vb) * (vc + vd) - va * vc - vb * vd,
        ;
        let (hx, hy) = (va * pv, vc * pv);
        assert((hx + vb) * (hy + vd) == hx * hy + hx * vd + vb * hy + vb * vd) by (nonlinear_arith);
        assert(hx * hy == (pv * pv) * (va * vc)) by (nonlinear_arith)
            requires
                hx == va * pv,
                hy == vc * pv,
        ;
        assert(hx * vd + vb * hy == pv * (va * vd + vb * vc)) by (nonlinear_arith)
            requires
                hx == va * pv,
                hy == vc * pv,
        ;
    }
    result
}

/// The product does not depend on the order of the operands:
/// `multiply(x, y)` and `multiply(y, x)` have the same value.
pub proof fn lemma_product_commutes(x: BigInt, y: BigInt)
    ensures
        product(x, y) == product(y, x),
{
    assert(int_of(x) * int_of(y) == int_of(y) * int_of(x)) by (nonlinear_arith);
}

/// Multiplying by zero gives zero, on either side.
pub proof fn lemma_product_zero(x: BigInt, zero: BigInt)
    requires
        int_of(zero) == 0,
    ensures
        product(x, zero) == 0,
        product(zero, x) == 0,
{
}

/// Multiplying by one gives the other operand's value, on either side.
pub proof fn lemma_product_identity(x: BigInt, one: BigInt)
    requires
        int_of(one) == 1,
    ensures
        product(x, one) == int_of(x),
        product(one, x) == int_of(x),
{
}

} // verus!
