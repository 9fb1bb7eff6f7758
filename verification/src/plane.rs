//! Points of the complex plane, the region that is drawn, and the map from a
//! position on the sampled grid to a point of that region.

use crate::error::RenderError;
use crate::fixed::{div_floor, floor_div, mul_floor, Fixed, SCALE};
use vstd::prelude::*;

verus! {

/// A point of the complex plane in specifications: the stored integers of its
/// two coordinates.
pub struct Point {
    pub re: int,
    pub im: int,
}

/// A complex number with fixed-point coordinates.
#[derive(Clone, Copy, Debug, PartialEq, Eq, Structural)]
pub struct Complex {
    pub r: Fixed,
    pub i: Fixed,
}

impl View for Complex {
    type V = Point;

    open spec fn view(&self) -> Point {
        Point { re: self.r@, im: self.i@ }
    }
}

/// A pair of fixed-point numbers: a position on the sampled grid, or the
/// width and height of that grid.
#[derive(Clone, Copy, Debug, PartialEq, Eq, Structural)]
pub struct Vec2d {
    pub x: Fixed,
    pub y: Fixed,
}

/// The rectangle of the complex plane that is drawn, given by two opposite
/// corners. The corners may come in either order: a rectangle whose `max` lies
/// below or left of its `min` is drawn mirrored.
#[derive(Clone, Copy, Debug, PartialEq, Eq, Structural)]
pub struct Mandelbrot {
    pub min: Complex,
    pub max: Complex,
}

/// Whether `pos` lies between zero and `size`, the ends included. The size
/// may be negative: the positions then run from zero down to it.
pub open spec fn on_side(pos: int, size: int) -> bool {
    if size > 0 {
        0 <= pos <= size
    } else {
        size <= pos <= 0
    }
}

/// The fraction `pos / size`, rounded down, for a position between zero and
/// `size`.
pub open spec fn fraction(pos: int, size: int) -> int {
    if size > 0 {
        div_floor(pos, size)
    } else {
        div_floor(-pos, -size)
    }
}

/// The coordinate that lies as far between `lo` and `hi` as `pos` lies between
/// zero and `size`: the fraction `pos / size`, rounded down, times the span
/// `hi - lo`, rounded down, added to `lo`.
pub open spec fn lerp(lo: int, hi: int, pos: int, size: int) -> int {
    lo + mul_floor(fraction(pos, size), hi - lo)
}

/// The point of the region that the grid position `pos` stands for.
pub open spec fn map_point(region: Mandelbrot, pos: Vec2d, size: Vec2d) -> Point {
    Point {
        re: lerp(region.min.r@, region.max.r@, pos.x@, size.x@),
        im: lerp(region.min.i@, region.max.i@, pos.y@, size.y@),
    }
}

/// Why `pos` cannot be mapped from a grid of this `size`, if it cannot: a
/// side of the grid is zero, or the position does not lie on the grid.
pub open spec fn map_refusal(pos: Vec2d, size: Vec2d) -> Option<RenderError> {
    if size.x@ == 0 || size.y@ == 0 {
        Some(RenderError::EmptyExtent)
    } else if !(on_side(pos.x@, size.x@) && on_side(pos.y@, size.y@)) {
        Some(RenderError::OutsideExtent)
    } else {
        None
    }
}

impl Vec2d {
    pub fn new(x: Fixed, y: Fixed) -> (v: Vec2d)
        ensures
            v.x == x,
            v.y == y,
    {
        Vec2d { x, y }
    }
}

impl Mandelbrot {
    pub fn new(min: Complex, max: Complex) -> (region: Mandelbrot)
        ensures
            region.min == min,
            region.max == max,
    {
        Mandelbrot { min, max }
    }
}

/// A position between zero and `size` is a fraction between zero and one:
/// zero at zero, one at `size`.
pub proof fn fraction_is_unit(pos: int, size: int)
    requires
        size != 0,
        on_side(pos, size),
    ensures
        0 <= fraction(pos, size) <= SCALE,
        pos == 0 ==> fraction(pos, size) == 0,
        pos == size ==> fraction(pos, size) == SCALE,
{
    let p: int = if size > 0 {
        pos
    } else {
        -pos
    };
    let d: int = if size > 0 {
        size
    } else {
        -size
    };
    assert(0 <= p * SCALE <= d * SCALE) by (nonlinear_arith)
        requires
            0 <= p <= d,
    ;
    vstd::arithmetic::div_mod::lemma_div_is_ordered(0, p * SCALE, d);
    vstd::arithmetic::div_mod::lemma_div_is_ordered(p * SCALE, d * SCALE, d);
    assert((d * SCALE) / d == SCALE) by {
        assert(d * SCALE == SCALE * d) by (nonlinear_arith);
        vstd::arithmetic::div_mod::lemma_div_multiples_vanish(SCALE as int, d);
    }
    assert(0int / d == 0) by {
        vstd::arithmetic::div_mod::lemma_div_of0(d);
    }
}

/// A fraction between zero and one of a span lies between zero and the span.
pub proof fn part_of_span(fraction: int, span: int)
    requires
        0 <= fraction <= SCALE,
    ensures
        span >= 0 ==> 0 <= mul_floor(fraction, span) <= span,
        span <= 0 ==> span <= mul_floor(fraction, span) <= 0,
        fraction == 0 ==> mul_floor(fraction, span) == 0,
        fraction == SCALE ==> mul_floor(fraction, span) == span,
{
    let s: int = SCALE as int;
    if span >= 0 {
        assert(0 <= fraction * span <= span * s) by (nonlinear_arith)
            requires
                0 <= fraction <= s,
                span >= 0,
        ;
    } else {
        assert(span * s <= fraction * span <= 0) by (nonlinear_arith)
            requires
                0 <= fraction <= s,
                span < 0,
        ;
    }
    if fraction == 0 {
        assert(fraction * span == 0) by (nonlinear_arith)
            requires
                fraction == 0,
        ;
    }
    if fraction == s {
        assert(fraction * span == span * s) by (nonlinear_arith)
            requires
                fraction == s,
        ;
    }
}

/// One coordinate of the map: `lerp` on machine integers.
fn interpolate(lo: Fixed, hi: Fixed, pos: Fixed, size: Fixed) -> (out: Fixed)
    requires
        size@ != 0,
        on_side(pos@, size@),
    ensures
        out@ == lerp(lo@, hi@, pos@, size@),
{
    let along: i128 = if size.bits > 0 {
        pos.bits as i128
    } else {
        -(pos.bits as i128)
    };
    let whole: i128 = if size.bits > 0 {
        size.bits as i128
    } else {
        -(size.bits as i128)
    };
    assert(0 <= along * SCALE <= 0x8000_0000_0000_0000_0000_0000) by (nonlinear_arith)
        requires
            0 <= along <= 0x8000_0000_0000_0000,
    ;
    let part_of_one: i128 = floor_div(along * (SCALE as i128), whole);
    let span: i128 = (hi.bits as i128) - (lo.bits as i128);
    proof {
        fraction_is_unit(pos@, size@);
        part_of_span(part_of_one as int, span as int);
        assert(-0x1_0000_0000_0000_0000_0000_0000 <= part_of_one * span
            <= 0x1_0000_0000_0000_0000_0000_0000) by (nonlinear_arith)
            requires
                0 <= part_of_one <= 0x1_0000_0000,
                -0x1_0000_0000_0000_0000 <= span <= 0x1_0000_0000_0000_0000,
        ;
    }
    let part: i128 = floor_div(part_of_one * span, SCALE as i128);
    let sum: i128 = (lo.bits as i128) + part;
    Fixed { bits: sum as i64 }
}

impl Complex {
    pub fn new(r: Fixed, i: Fixed) -> (c: Complex)
        ensures
            c.r == r,
            c.i == i,
    {
        Complex { r, i }
    }

    /// Maps the position `pos` on a grid of the given `size` to the point of
    /// `mandelbrot` that it stands for: per axis, `min + (pos / size) * (max -
    /// min)`. No side of the grid may be zero, and the position must lie on
    /// the grid, between zero and its size, both ends included.
    pub fn calc_complex(mandelbrot: &Mandelbrot, pos: &Vec2d, size: &Vec2d) -> (res: Result<
        Complex,
        RenderError,
    >)
        ensures
            match map_refusal(*pos, *size) {
                Some(e) => res == Err::<Complex, RenderError>(e),
                None => res is Ok && res->Ok_0@ == map_point(*mandelbrot, *pos, *size),
            },
    {
        if size.x.bits == 0 || size.y.bits == 0 {
            return Err(RenderError::EmptyExtent);
        }
        if !lies_on_side(pos.x, size.x) || !lies_on_side(pos.y, size.y) {
            return Err(RenderError::OutsideExtent);
        }
        Ok(point_at(mandelbrot, pos, size))
    }
}

/// Whether a position lies between zero and the size of its side.
fn lies_on_side(pos: Fixed, size: Fixed) -> (on: bool)
    ensures
        on == on_side(pos@, size@),
{
    if size.bits > 0 {
        0 <= pos.bits && pos.bits <= size.bits
    } else {
        size.bits <= pos.bits && pos.bits <= 0
    }
}

/// The point that a position on the grid stands for.
pub(crate) fn point_at(region: &Mandelbrot, pos: &Vec2d, size: &Vec2d) -> (c: Complex)
    requires
        map_refusal(*pos, *size).is_none(),
    ensures
        c@ == map_point(*region, *pos, *size),
{
    let r: Fixed = interpolate(region.min.r, region.max.r, pos.x, size.x);
    let i: Fixed = interpolate(region.min.i, region.max.i, pos.y, size.y);
    Complex { r, i }
}

/// The corners of the grid are the corners of the region, exactly: on a grid
/// without a side of zero, the position zero maps to `min`, and the position
/// equal to the grid's size maps to `max`.
pub proof fn corners_map_to_corners(region: Mandelbrot, size: Vec2d)
    requires
        size.x@ != 0,
        size.y@ != 0,
    ensures
        map_refusal(Vec2d { x: Fixed { bits: 0 }, y: Fixed { bits: 0 } }, size).is_none(),
        map_refusal(size, size).is_none(),
        map_point(region, Vec2d { x: Fixed { bits: 0 }, y: Fixed { bits: 0 } }, size)
            == region.min@,
        map_point(region, size, size) == region.max@,
{
    fraction_is_unit(0, size.x@);
    fraction_is_unit(0, size.y@);
    fraction_is_unit(size.x@, size.x@);
    fraction_is_unit(size.y@, size.y@);
    part_of_span(0, region.max.r@ - region.min.r@);
    part_of_span(0, region.max.i@ - region.min.i@);
    part_of_span(SCALE as int, region.max.r@ - region.min.r@);
    part_of_span(SCALE as int, region.max.i@ - region.min.i@);
}

} // verus!
