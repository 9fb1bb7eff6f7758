//! Signed fixed-point numbers with 32 fractional bits.
//!
//! A [`Fixed`] stores the integer `bits`; the number it denotes is
//! `bits / SCALE`, so two numbers that differ by less than `1 / SCALE` cannot
//! be told apart. Contracts throughout the crate speak of the stored integer,
//! reached through the view `@`, and of the rounding operations below.
//! Products and quotients are rounded down, towards negative infinity; the one
//! product that has to keep its size when a factor changes sign is rounded
//! towards zero.

use vstd::prelude::*;

verus! {

/// The stored integer of the number one.
pub const SCALE: i64 = 0x1_0000_0000;

/// A fixed-point number: `bits / SCALE`.
#[derive(Clone, Copy, Debug, PartialEq, Eq, Structural)]
pub struct Fixed {
    pub bits: i64,
}

impl View for Fixed {
    type V = int;

    open spec fn view(&self) -> int {
        self.bits as int
    }
}

/// Product of two fixed-point numbers, rounded down.
pub open spec fn mul_floor(a: int, b: int) -> int {
    (a * b) / (SCALE as int)
}

/// Product of two fixed-point numbers, rounded towards zero: the size of the
/// result does not depend on the signs of the factors.
pub open spec fn mul_trunc(a: int, b: int) -> int {
    if a * b >= 0 {
        (a * b) / (SCALE as int)
    } else {
        -((-(a * b)) / (SCALE as int))
    }
}

/// Changing the sign of a factor changes the sign of the product rounded
/// towards zero, and nothing else.
pub proof fn mul_trunc_is_odd(a: int, b: int)
    ensures
        mul_trunc(a, -b) == -mul_trunc(a, b),
        mul_trunc(-a, b) == -mul_trunc(a, b),
{
    assert(a * (-b) == -(a * b) && (-a) * b == -(a * b)) by (nonlinear_arith);
}

/// Quotient of two fixed-point numbers, rounded down (`b` positive).
pub open spec fn div_floor(a: int, b: int) -> int {
    (a * SCALE) / b
}

/// The quotient `a / b` rounded up (`b` positive).
pub open spec fn ceil_div(a: int, b: int) -> int {
    -((-a) / b)
}

/// The least whole number that is not below the fixed-point number `a`.
pub open spec fn ceil_whole(a: int) -> int {
    ceil_div(a, SCALE as int)
}

/// The quotient rounded up is the least whole number whose product with the
/// divisor reaches the dividend.
pub proof fn ceil_div_is_least(a: int, b: int)
    requires
        b > 0,
    ensures
        (ceil_div(a, b) - 1) * b < a <= ceil_div(a, b) * b,
{
    let q: int = (-a) / b;
    let r: int = (-a) % b;
    vstd::arithmetic::div_mod::lemma_fundamental_div_mod(-a, b);
    vstd::arithmetic::div_mod::lemma_mod_bound(-a, b);
    assert((-q - 1) * b < a <= (-q) * b) by (nonlinear_arith)
        requires
            -a == b * q + r,
            0 <= r < b,
    ;
}

impl Fixed {
    /// The fixed-point number equal to the whole number `n`.
    pub fn from_int(n: i32) -> (r: Fixed)
        ensures
            r@ == n * SCALE,
    {
        let wide: i64 = n as i64;
        Fixed { bits: wide * SCALE }
    }
}

/// Quotient rounded down, for a positive divisor. Machine division rounds
/// towards zero, so a negative dividend with a remainder is corrected by one.
pub(crate) fn floor_div(n: i128, d: i128) -> (q: i128)
    requires
        d > 0,
    ensures
        q == n / d,
{
    let toward_zero: i128 = n / d;
    let rest: i128 = n % d;
    proof {
        if n < 0 {
            let a: int = (-n) / (d as int);
            let b: int = (-n) % (d as int);
            vstd::arithmetic::div_mod::lemma_fundamental_div_mod(-(n as int), d as int);
            if b > 0 {
                assert(n == (-a - 1) * d + (d - b) && a < -n) by (nonlinear_arith)
                    requires
                        -n == d * a + b,
                        b > 0,
                        d > 0,
                        n < 0,
                ;
                vstd::arithmetic::div_mod::lemma_fundamental_div_mod_converse(
                    n as int,
                    d as int,
                    -a - 1,
                    d - b,
                );
            } else {
                assert(n == (-a) * d + 0) by (nonlinear_arith)
                    requires
                        -n == d * a + b,
                        b == 0,
                ;
                vstd::arithmetic::div_mod::lemma_fundamental_div_mod_converse(
                    n as int,
                    d as int,
                    -a,
                    0,
                );
            }
        }
    }
    if rest < 0 {
        toward_zero - 1
    } else {
        toward_zero
    }
}

/// Quotient rounded up, for a positive divisor.
pub(crate) fn ceil_div_of(n: i128, d: i128) -> (q: i128)
    requires
        d > 0,
        n > i128::MIN,
    ensures
        q == ceil_div(n as int, d as int),
{
    let down: i128 = floor_div(-n, d);
    proof {
        ceil_div_is_least(n as int, d as int);
        assert(-0x8000_0000_0000_0000_0000_0000_0000_0000 < down) by (nonlinear_arith)
            requires
                (-down - 1) * d < n,
                d > 0,
                n <= 0x7fff_ffff_ffff_ffff_ffff_ffff_ffff_ffff,
        ;
    }
    -down
}

} // verus!
