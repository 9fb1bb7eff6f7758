//! The escape-time count of a point: how many steps of `z -> z * z + c`, from
//! `z = 0`, it takes until `z` leaves the disc of radius two.

use crate::fixed::{floor_div, mul_floor, mul_trunc, mul_trunc_is_odd, SCALE};
use crate::plane::{Complex, Mandelbrot, Point};
use vstd::prelude::*;

verus! {

/// The square of a fixed-point number, rounded down.
pub open spec fn square(a: int) -> int {
    mul_floor(a, a)
}

/// Whether `z` has left the disc of radius two: `|z|^2 >= 4`, with the two
/// squares rounded down before they are added.
pub open spec fn escaped(z: Point) -> bool {
    square(z.re) + square(z.im) >= 4 * SCALE
}

/// One step of the iteration: `z * z + c`. The real part is the difference of
/// the rounded squares plus `c.re`; the imaginary part is the product
/// `2 * z.re * z.im`, rounded towards zero, plus `c.im`. Both are computed from
/// the old `z`. Rounding the product towards zero keeps the step symmetric
/// about the real axis.
pub open spec fn step(z: Point, c: Point) -> Point {
    Point {
        re: square(z.re) - square(z.im) + c.re,
        im: mul_trunc(2 * z.re, z.im) + c.im,
    }
}

/// The mirror image of a point in the real axis.
pub open spec fn mirror(z: Point) -> Point {
    Point { re: z.re, im: -z.im }
}

/// The value of `z` after `n` steps, starting from zero.
pub open spec fn orbit(c: Point, n: nat) -> Point
    decreases n,
{
    if n == 0 {
        Point { re: 0, im: 0 }
    } else {
        step(orbit(c, (n - 1) as nat), c)
    }
}

/// The first step count from `n` on at which the orbit has escaped, or
/// `budget` if it has not escaped before then.
pub open spec fn escape_from(c: Point, n: nat, budget: nat) -> nat
    decreases budget - n,
{
    if n >= budget || escaped(orbit(c, n)) {
        n
    } else {
        escape_from(c, n + 1, budget)
    }
}

/// The escape-time count of `c` within `budget` steps.
pub open spec fn escape_time(c: Point, budget: nat) -> nat {
    escape_from(c, 0, budget)
}

/// While `z` has not escaped, both of its coordinates are below two in
/// absolute value.
proof fn inside_disc_is_small(z: Point)
    requires
        !escaped(z),
    ensures
        -2 * SCALE < z.re < 2 * SCALE,
        -2 * SCALE < z.im < 2 * SCALE,
{
    let s: int = SCALE as int;
    square_is_not_negative(z.re);
    square_is_not_negative(z.im);
    assert(-2 * s < z.re < 2 * s) by (nonlinear_arith)
        requires
            (z.re * z.re) / s < 4 * s,
            s == 0x1_0000_0000,
    ;
    assert(-2 * s < z.im < 2 * s) by (nonlinear_arith)
        requires
            (z.im * z.im) / s < 4 * s,
            s == 0x1_0000_0000,
    ;
}

/// A rounded square is never negative.
proof fn square_is_not_negative(a: int)
    ensures
        square(a) >= 0,
{
    assert(a * a >= 0) by (nonlinear_arith);
}

impl Mandelbrot {
    /// Counts the steps of `z -> z * z + c` from zero until `z` escapes, at
    /// most `max_iter` of them. The count is the least `n` at which the orbit
    /// has escaped, or `max_iter` where it has not escaped before.
    pub fn calc_mandelbrot(complex: &Complex, max_iter: u32) -> (n: u32)
        ensures
            n == escape_time(complex@, max_iter as nat),
            n <= max_iter,
            forall|k: nat| k < n ==> !escaped(#[trigger] orbit(complex@, k)),
            n < max_iter ==> escaped(orbit(complex@, n as nat)),
    {
        let c_real: i128 = complex.r.bits as i128;
        let c_imaginary: i128 = complex.i.bits as i128;
        let one: i128 = SCALE as i128;
        let mut z_real: i128 = 0;
        let mut z_imaginary: i128 = 0;
        let mut z_real_squared: i128 = 0;
        let mut z_imaginary_squared: i128 = 0;
        let mut n: u32 = 0;
        while n < max_iter && z_real_squared + z_imaginary_squared < 4 * one
            invariant
                n <= max_iter,
                one == SCALE,
                c_real == complex@.re,
                c_imaginary == complex@.im,
                orbit(complex@, n as nat) == (Point { re: z_real as int, im: z_imaginary as int }),
                z_real_squared == square(z_real as int),
                z_imaginary_squared == square(z_imaginary as int),
                0 <= z_real_squared < 0x1_0000_0000_0000_0000_0000_0000,
                0 <= z_imaginary_squared < 0x1_0000_0000_0000_0000_0000_0000,
                escape_from(complex@, n as nat, max_iter as nat) == escape_time(
                    complex@,
                    max_iter as nat,
                ),
                forall|k: nat| k < n ==> !escaped(#[trigger] orbit(complex@, k)),
            decreases max_iter - n,
        {
            proof {
                let z: Point = Point { re: z_real as int, im: z_imaginary as int };
                inside_disc_is_small(z);
                assert(-0x8_0000_0000_0000_0000 <= 2 * z_real * z_imaginary
                    <= 0x8_0000_0000_0000_0000) by (nonlinear_arith)
                    requires
                        -0x2_0000_0000 < z_real < 0x2_0000_0000,
                        -0x2_0000_0000 < z_imaginary < 0x2_0000_0000,
                ;
                assert(orbit(complex@, (n + 1) as nat) == step(z, complex@));
            }
            z_imaginary = (2 * z_real * z_imaginary) / one + c_imaginary;
            z_real = z_real_squared - z_imaginary_squared + c_real;
            proof {
                let limit: int = 0x8000_0008_0000_0000;
                assert(0 <= z_real * z_real <= limit * limit) by (nonlinear_arith)
                    requires
                        -limit <= z_real <= limit,
                ;
                assert(0 <= z_imaginary * z_imaginary <= limit * limit) by (nonlinear_arith)
                    requires
                        -limit <= z_imaginary <= limit,
                ;
                assert(limit * limit < 0x4000_0010_0000_0000_0000_0000_0000_0000);
                square_is_not_negative(z_real as int);
                square_is_not_negative(z_imaginary as int);
            }
            z_real_squared = floor_div(z_real * z_real, one);
            z_imaginary_squared = floor_div(z_imaginary * z_imaginary, one);
            n = n + 1;
        }
        n
    }
}

/// From `n` on, `escape_from` finds the first step at which the orbit has
/// escaped.
proof fn escape_from_is_first(c: Point, n: nat, budget: nat)
    requires
        n <= budget,
    ensures
        n <= escape_from(c, n, budget) <= budget,
        forall|k: nat| n <= k < escape_from(c, n, budget) ==> !escaped(#[trigger] orbit(c, k)),
        escape_from(c, n, budget) < budget ==> escaped(orbit(c, escape_from(c, n, budget))),
    decreases budget - n,
{
    if n < budget && !escaped(orbit(c, n)) {
        escape_from_is_first(c, n + 1, budget);
    }
}

/// The count never exceeds the budget, and it is the first step at which the
/// orbit has escaped: no earlier step has, and where the count is below the
/// budget, the orbit has escaped at the count.
pub proof fn escape_time_is_first_escape(c: Point, budget: nat)
    ensures
        escape_time(c, budget) <= budget,
        forall|k: nat| k < escape_time(c, budget) ==> !escaped(#[trigger] orbit(c, k)),
        escape_time(c, budget) < budget ==> escaped(orbit(c, escape_time(c, budget))),
{
    escape_from_is_first(c, 0, budget);
}

/// A point whose orbit stays in the disc for `budget` steps uses up the whole
/// budget.
pub proof fn bounded_orbit_uses_budget(c: Point, budget: nat)
    requires
        forall|k: nat| k < budget ==> !escaped(#[trigger] orbit(c, k)),
    ensures
        escape_time(c, budget) == budget,
{
    escape_time_is_first_escape(c, budget);
}

/// The origin never escapes: its count is the whole budget, whatever the
/// budget.
pub proof fn origin_never_escapes(budget: nat)
    ensures
        escape_time(Point { re: 0, im: 0 }, budget) == budget,
{
    let c: Point = Point { re: 0, im: 0 };
    assert forall|k: nat| k < budget implies !escaped(#[trigger] orbit(c, k)) by {
        orbit_of_origin(k);
    }
    bounded_orbit_uses_budget(c, budget);
}

/// The orbit of the origin stays at the origin.
proof fn orbit_of_origin(n: nat)
    ensures
        orbit(Point { re: 0, im: 0 }, n) == (Point { re: 0, im: 0 }),
    decreases n,
{
    if n > 0 {
        orbit_of_origin((n - 1) as nat);
    }
}

/// The point two escapes at once: with any budget of at least one step its
/// count is one, the first step taking `z` to the rim of the disc.
pub proof fn two_escapes_after_one_step(budget: nat)
    requires
        budget >= 1,
    ensures
        escape_time(Point { re: 2 * SCALE, im: 0 }, budget) == 1,
{
    let c: Point = Point { re: 2 * SCALE, im: 0 };
    assert(orbit(c, 0) == (Point { re: 0, im: 0 }));
    assert(!escaped(orbit(c, 0)));
    assert(orbit(c, 1) == step(orbit(c, 0), c));
    assert(orbit(c, 1) == c);
    assert(square(2 * SCALE) == 4 * SCALE) by (nonlinear_arith);
    assert(escaped(orbit(c, 1)));
    assert(escape_from(c, 1, budget) == 1);
    assert(escape_from(c, 0, budget) == escape_from(c, 1, budget));
}

/// The orbit of minus one alternates between the origin and minus one.
proof fn orbit_of_minus_one(n: nat)
    ensures
        orbit(Point { re: -SCALE, im: 0 }, n) == (if n % 2 == 0 {
            Point { re: 0, im: 0 }
        } else {
            Point { re: -SCALE, im: 0 }
        }),
    decreases n,
{
    if n > 0 {
        orbit_of_minus_one((n - 1) as nat);
        assert(square(-SCALE) == SCALE) by (nonlinear_arith);
        assert(mul_trunc(2 * -SCALE, 0) == 0) by (nonlinear_arith);
    }
}

/// Minus one never escapes: its orbit has period two, and its count is the
/// whole budget, whatever the budget.
pub proof fn minus_one_never_escapes(budget: nat)
    ensures
        escape_time(Point { re: -SCALE, im: 0 }, budget) == budget,
{
    let c: Point = Point { re: -SCALE, im: 0 };
    assert forall|k: nat| k < budget implies !escaped(#[trigger] orbit(c, k)) by {
        orbit_of_minus_one(k);
        assert(square(-SCALE) == SCALE) by (nonlinear_arith);
    }
    bounded_orbit_uses_budget(c, budget);
}

/// A point and its mirror image have escaped together.
proof fn mirror_escapes_alike(z: Point)
    ensures
        escaped(mirror(z)) == escaped(z),
{
    assert((-z.im) * (-z.im) == z.im * z.im) by (nonlinear_arith);
}

/// The orbit of the mirror image of a point is the mirror image of its
/// orbit.
pub proof fn mirrored_orbit(c: Point, n: nat)
    ensures
        orbit(mirror(c), n) == mirror(orbit(c, n)),
    decreases n,
{
    if n > 0 {
        mirrored_orbit(c, (n - 1) as nat);
        let z: Point = orbit(c, (n - 1) as nat);
        assert((-z.im) * (-z.im) == z.im * z.im) by (nonlinear_arith);
        mul_trunc_is_odd(2 * z.re, z.im);
    }
}

/// From any step on, a point and its mirror image escape at the same step.
proof fn mirrored_escape_from(c: Point, n: nat, budget: nat)
    ensures
        escape_from(mirror(c), n, budget) == escape_from(c, n, budget),
    decreases budget - n,
{
    mirrored_orbit(c, n);
    mirror_escapes_alike(orbit(c, n));
    if n < budget && !escaped(orbit(c, n)) {
        mirrored_escape_from(c, n + 1, budget);
    }
}

/// The count is symmetric about the real axis: a point and its mirror image
/// have the same count under every budget.
pub proof fn mirrored_escape_time(c: Point, budget: nat)
    ensures
        escape_time(mirror(c), budget) == escape_time(c, budget),
{
    mirrored_escape_from(c, 0, budget);
}

} // verus!
