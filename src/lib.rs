//! Karatsuba multiplication of arbitrary-precision signed integers, built on
//! `num_bigint::BigInt` and proved to return the exact product.

pub mod bigint;
pub mod decimal;
pub mod karatsuba;

pub use karatsuba::multiply;
