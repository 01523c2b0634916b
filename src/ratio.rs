//! Fixed-point decimals with 18 places.

use vstd::arithmetic::div_mod::{
    lemma_div_is_ordered, lemma_div_multiples_vanish, lemma_fundamental_div_mod,
    lemma_fundamental_div_mod_converse,
};
use vstd::arithmetic::mul::{lemma_mul_inequality, lemma_mul_nonnegative};
use vstd::prelude::*;

verus! {

/// Scale of a fixed-point decimal: one is this many atomic units.
pub const DECIMAL_FRACTIONAL: u128 = 1_000_000_000_000_000_000u128;

/// A nonnegative fixed-point number with 18 decimal places, held as its
/// count of atomic units.
#[derive(Clone, Copy, Debug, PartialEq, Eq, Structural)]
pub struct Decimal {
    pub atomics: u128,
}

/// `amount` times `r`, rounded down.
pub open spec fn decimal_mul(r: Decimal, amount: u128) -> int {
    (amount * r.atomics) / (DECIMAL_FRACTIONAL as int)
}

impl Decimal {
    /// The decimal one.
    pub fn one() -> (r: Decimal)
        ensures
            r.atomics == DECIMAL_FRACTIONAL,
    {
        Decimal { atomics: DECIMAL_FRACTIONAL }
    }

    /// `amount` times this decimal, rounded down; the decimal is at most one,
    /// so the product never exceeds `amount`.
    pub fn mul_floor(&self, amount: u128) -> (r: u128)
        requires
            self.atomics <= DECIMAL_FRACTIONAL,
        ensures
            r == decimal_mul(*self, amount),
            r <= amount,
    {
        let d = DECIMAL_FRACTIONAL;
        let t = self.atomics;
        let q = amount / d;
        let rem = amount % d;
        proof {
            lemma_fundamental_div_mod(amount as int, d as int);
            lemma_mul_inequality(t as int, d as int, q as int);
            assert(q * d <= amount) by (nonlinear_arith)
                requires
                    amount == d * q + rem,
                    rem >= 0,
            ;
            assert(q * t <= q * d) by (nonlinear_arith)
                requires
                    t <= d,
                    q >= 0,
            ;
            assert(rem * t <= d * d) by (nonlinear_arith)
                requires
                    rem < d,
                    t <= d,
                    rem >= 0,
                    t >= 0,
            ;
        }
        let hi = q * t;
        let lo = (rem * t) / d;
        proof {
            let x = rem * t;
            lemma_fundamental_div_mod(x as int, d as int);
            assert(amount * t == (q * t + x / (d as int)) * d + x % (d as int)) by (nonlinear_arith)
                requires
                    amount == d * q + rem,
                    x == rem * t,
                    x == d * (x / (d as int)) + x % (d as int),
            ;
            lemma_fundamental_div_mod_converse(
                amount * t,
                d as int,
                q * t + x / (d as int),
                x % (d as int),
            );
            lemma_mul_nonnegative(amount as int, t as int);
            lemma_mul_inequality(t as int, d as int, amount as int);
            assert(amount * t <= amount * d) by (nonlinear_arith)
                requires
                    t <= d,
                    amount >= 0,
            ;
            lemma_div_is_ordered(amount * t, amount * d, d as int);
            lemma_div_multiples_vanish(amount as int, d as int);
            assert(amount * d == d * amount) by (nonlinear_arith);
        }
        hi + lo
    }
}

} // verus!
