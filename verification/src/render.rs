//! The rasterizer: from a region of the plane and the size of a drawing
//! surface to the list of squares to fill, one for each cell of the sampled
//! grid, column by column.

use crate::color::{shade, shade_of, Color};
use crate::error::RenderError;
use crate::escape::escape_time;
use crate::fixed::{ceil_div, ceil_div_is_least, ceil_div_of, ceil_whole, Fixed, SCALE};
use crate::plane::{map_point, map_refusal, point_at, Mandelbrot, Vec2d};
use vstd::prelude::*;

verus! {

/// One command to the drawing surface: fill the square with its top left
/// corner at `(x, y)` and sides of length `side` with `color`.
#[derive(Clone, Copy, Debug, PartialEq, Eq, Structural)]
pub struct Fill {
    pub x: u32,
    pub y: u32,
    pub side: u64,
    pub color: Color,
}

/// What one rendering asks of the drawing surface: to take the size `width`
/// by `height`, then to carry out `fills` in order.
#[derive(Clone, Debug, PartialEq, Eq)]
pub struct Frame {
    pub width: u32,
    pub height: u32,
    pub fills: Vec<Fill>,
}

/// A side of the sampled grid: the side of the surface times the scale.
pub open spec fn grid_side(canvas_side: u32, pixel_scale: Fixed) -> int {
    canvas_side * pixel_scale@
}

/// The number of cells along a side of the grid: the side rounded up to a
/// whole number, and none where the side is not positive.
pub open spec fn cells_along(side: int) -> int {
    if side > 0 {
        ceil_whole(side)
    } else {
        0
    }
}

/// The size of the sampled grid as a pair of fixed-point numbers, for a grid
/// whose sides are not too long for them.
pub open spec fn grid_size(canvas_width: u32, canvas_height: u32, pixel_scale: Fixed) -> Vec2d {
    Vec2d {
        x: Fixed { bits: grid_side(canvas_width, pixel_scale) as i64 },
        y: Fixed { bits: grid_side(canvas_height, pixel_scale) as i64 },
    }
}

/// The side of the square drawn for one cell: one over the scale, rounded up.
pub open spec fn block_side(pixel_scale: int) -> int {
    ceil_div(SCALE as int, pixel_scale)
}

/// The grid position of the cell in column `x` and row `y`.
pub open spec fn cell_at(x: int, y: int) -> Vec2d {
    Vec2d { x: Fixed { bits: (x * SCALE) as i64 }, y: Fixed { bits: (y * SCALE) as i64 } }
}

/// The command for the cell in column `x` and row `y` of a grid of the given
/// size: its color is that of the escape-time count of the point that the cell
/// stands for.
pub open spec fn cell_fill(
    region: Mandelbrot,
    size: Vec2d,
    max_iter: u32,
    side: int,
    x: int,
    y: int,
) -> Fill {
    let count = escape_time(map_point(region, cell_at(x, y), size), max_iter as nat);
    Fill { x: x as u32, y: y as u32, side: side as u64, color: shade(count as int, max_iter as int) }
}

/// The commands for a whole grid: every cell once, the columns from left to
/// right and each column from top to bottom. A grid with a side that is not
/// positive has no cells and no commands.
pub open spec fn frame_fills(
    region: Mandelbrot,
    canvas_width: u32,
    canvas_height: u32,
    max_iter: u32,
    pixel_scale: Fixed,
) -> Seq<Fill> {
    let columns = cells_along(grid_side(canvas_width, pixel_scale));
    let rows = cells_along(grid_side(canvas_height, pixel_scale));
    let size = grid_size(canvas_width, canvas_height, pixel_scale);
    let side = block_side(pixel_scale@);
    Seq::new(
        (columns * rows) as nat,
        |i: int| cell_fill(region, size, max_iter, side, i / rows, i % rows),
    )
}

/// Why nothing can be rendered on a surface of this size at this scale, if
/// nothing can: a side of the grid is too long for a fixed-point number.
pub open spec fn frame_refusal(canvas_width: u32, canvas_height: u32, pixel_scale: Fixed) -> Option<
    RenderError,
> {
    if grid_side(canvas_width, pixel_scale) > i64::MAX || grid_side(canvas_height, pixel_scale)
        > i64::MAX {
        Some(RenderError::ExtentTooLarge)
    } else {
        None
    }
}

/// Whether `frame` is the rendering of `region` for a surface of this size
/// with this budget and scale: the surface takes the size of the grid in whole
/// cells, and the commands are those of the grid.
pub open spec fn renders(
    frame: Frame,
    region: Mandelbrot,
    canvas_width: u32,
    canvas_height: u32,
    max_iter: u32,
    pixel_scale: Fixed,
) -> bool {
    &&& frame.width == cells_along(grid_side(canvas_width, pixel_scale))
    &&& frame.height == cells_along(grid_side(canvas_height, pixel_scale))
    &&& frame.fills@ == frame_fills(region, canvas_width, canvas_height, max_iter, pixel_scale)
}

/// Every cell of a grid lies on the grid.
proof fn cell_is_on_grid(size: Vec2d, x: int, y: int)
    requires
        size.x@ > 0,
        size.y@ > 0,
        0 <= x < ceil_whole(size.x@),
        0 <= y < ceil_whole(size.y@),
    ensures
        cell_at(x, y).x@ == x * SCALE,
        cell_at(x, y).y@ == y * SCALE,
        map_refusal(cell_at(x, y), size).is_none(),
{
    ceil_div_is_least(size.x@, SCALE as int);
    ceil_div_is_least(size.y@, SCALE as int);
}

/// The number of cells along a side that fits a fixed-point number.
fn count_cells(side: i128) -> (cells: u32)
    requires
        side <= i64::MAX,
    ensures
        cells == cells_along(side as int),
{
    if side > 0 {
        proof {
            ceil_div_is_least(side as int, SCALE as int);
        }
        ceil_div_of(side, SCALE as i128) as u32
    } else {
        0
    }
}

/// Renders the region `mandelbrot` for a drawing surface of `canvas_width` by
/// `canvas_height` pixels. The grid that is sampled has the size of the
/// surface times `pixel_scale`, rounded up to whole cells; the surface is to
/// take that size. Each cell is drawn as a square with a side of one over
/// `pixel_scale`, rounded up, in the color of its escape-time count under the
/// budget `max_iter`.
///
/// A grid with a side that is not positive (a surface without area, or a
/// scale that is not positive) has no cells: the surface is to take a size of
/// zero along that side, and nothing is drawn. Under a budget of zero every
/// cell is black. The one rendering that is refused is that of a grid with a
/// side too long for a fixed-point number.
pub fn calc_mandelbrot(
    mandelbrot: &Mandelbrot,
    canvas_width: u32,
    canvas_height: u32,
    max_iter: u32,
    pixel_scale: Fixed,
) -> (res: Result<Frame, RenderError>)
    ensures
        match frame_refusal(canvas_width, canvas_height, pixel_scale) {
            Some(e) => res == Err::<Frame, RenderError>(e),
            None => res is Ok && renders(
                res->Ok_0,
                *mandelbrot,
                canvas_width,
                canvas_height,
                max_iter,
                pixel_scale,
            ),
        },
{
    let scale: i128 = pixel_scale.bits as i128;
    proof {
        assert(-0x8000_0000_0000_0000_0000_0000 <= canvas_width * scale
            <= 0x8000_0000_0000_0000_0000_0000) by (nonlinear_arith)
            requires
                0 <= canvas_width <= 0xffff_ffff,
                -0x8000_0000_0000_0000 <= scale <= 0x8000_0000_0000_0000,
        ;
        assert(-0x8000_0000_0000_0000_0000_0000 <= canvas_height * scale
            <= 0x8000_0000_0000_0000_0000_0000) by (nonlinear_arith)
            requires
                0 <= canvas_height <= 0xffff_ffff,
                -0x8000_0000_0000_0000 <= scale <= 0x8000_0000_0000_0000,
        ;
    }
    let abs_width: i128 = (canvas_width as i128) * scale;
    let abs_height: i128 = (canvas_height as i128) * scale;
    if abs_width > i64::MAX as i128 || abs_height > i64::MAX as i128 {
        return Err(RenderError::ExtentTooLarge);
    }
    let columns: u32 = count_cells(abs_width);
    let rows: u32 = count_cells(abs_height);
    let mut fills: Vec<Fill> = Vec::new();
    if columns == 0 || rows == 0 {
        proof {
            assert(columns * rows == 0) by (nonlinear_arith)
                requires
                    columns == 0 || rows == 0,
            ;
            assert(fills@ =~= frame_fills(
                *mandelbrot,
                canvas_width,
                canvas_height,
                max_iter,
                pixel_scale,
            ));
        }
        return Ok(Frame { width: columns, height: rows, fills });
    }
    let size: Vec2d = Vec2d {
        x: Fixed { bits: abs_width as i64 },
        y: Fixed { bits: abs_height as i64 },
    };
    proof {
        assert(scale > 0) by (nonlinear_arith)
            requires
                canvas_width * scale > 0,
                canvas_width >= 0,
        ;
        ceil_div_is_least(SCALE as int, scale as int);
        assert(0 < block_side(scale as int) <= SCALE) by (nonlinear_arith)
            requires
                (block_side(scale as int) - 1) * scale < SCALE <= block_side(scale as int) * scale,
                scale > 0,
        ;
    }
    let side: u64 = ceil_div_of(SCALE as i128, scale) as u64;
    let mut x: u32 = 0;
    while x < columns
        invariant
            x <= columns,
            size.x@ > 0,
            size.y@ > 0,
            columns == ceil_whole(size.x@),
            rows == ceil_whole(size.y@),
            fills@.len() == x * rows,
            forall|i: int|
                0 <= i < fills@.len() ==> fills@[i] == cell_fill(
                    *mandelbrot,
                    size,
                    max_iter,
                    side as int,
                    i / (rows as int),
                    i % (rows as int),
                ),
        decreases columns - x,
    {
        let mut y: u32 = 0;
        while y < rows
            invariant
                x < columns,
                y <= rows,
                size.x@ > 0,
                size.y@ > 0,
                columns == ceil_whole(size.x@),
                rows == ceil_whole(size.y@),
                fills@.len() == x * rows + y,
                forall|i: int|
                    0 <= i < fills@.len() ==> fills@[i] == cell_fill(
                        *mandelbrot,
                        size,
                        max_iter,
                        side as int,
                        i / (rows as int),
                        i % (rows as int),
                    ),
            decreases rows - y,
        {
            proof {
                cell_is_on_grid(size, x as int, y as int);
                vstd::arithmetic::div_mod::lemma_fundamental_div_mod_converse(
                    x * rows + y,
                    rows as int,
                    x as int,
                    y as int,
                );
            }
            let pos: Vec2d = Vec2d {
                x: Fixed { bits: (x as i64) * SCALE },
                y: Fixed { bits: (y as i64) * SCALE },
            };
            let complex = point_at(mandelbrot, &pos, &size);
            let mandelbrot_value: u32 = Mandelbrot::calc_mandelbrot(&complex, max_iter);
            let color: Color = shade_of(mandelbrot_value, max_iter);
            fills.push(Fill { x, y, side, color });
            y = y + 1;
        }
        proof {
            assert(x * rows + rows == (x + 1) * rows) by (nonlinear_arith);
        }
        x = x + 1;
    }
    proof {
        assert(size == grid_size(canvas_width, canvas_height, pixel_scale));
        assert(fills@ =~= frame_fills(
            *mandelbrot,
            canvas_width,
            canvas_height,
            max_iter,
            pixel_scale,
        ));
    }
    Ok(Frame { width: columns, height: rows, fills })
}

/// A rendering is a function of its arguments: two frames that render the
/// same region for the same surface, budget and scale ask the same of the
/// surface, command for command.
pub proof fn rendering_is_determined(
    first: Frame,
    second: Frame,
    region: Mandelbrot,
    canvas_width: u32,
    canvas_height: u32,
    max_iter: u32,
    pixel_scale: Fixed,
)
    requires
        renders(first, region, canvas_width, canvas_height, max_iter, pixel_scale),
        renders(second, region, canvas_width, canvas_height, max_iter, pixel_scale),
    ensures
        first.width == second.width,
        first.height == second.height,
        first.fills@ == second.fills@,
{
}

/// A grid without area is rendered as nothing: where a side of the surface
/// is zero or the scale is not positive, the surface is to take a size of zero
/// along each such side, and there are no commands. With a scale that is not
/// positive, and on a surface with both sides zero, no rendering is refused.
pub proof fn empty_grid_draws_nothing(
    frame: Frame,
    region: Mandelbrot,
    canvas_width: u32,
    canvas_height: u32,
    max_iter: u32,
    pixel_scale: Fixed,
)
    requires
        renders(frame, region, canvas_width, canvas_height, max_iter, pixel_scale),
        canvas_width == 0 || canvas_height == 0 || pixel_scale@ <= 0,
    ensures
        pixel_scale@ <= 0 || (canvas_width == 0 && canvas_height == 0) ==> frame_refusal(
            canvas_width,
            canvas_height,
            pixel_scale,
        ).is_none(),
        canvas_width == 0 || pixel_scale@ <= 0 ==> frame.width == 0,
        canvas_height == 0 || pixel_scale@ <= 0 ==> frame.height == 0,
        frame.fills@.len() == 0,
{
    let scale: int = pixel_scale@;
    assert(canvas_width == 0 || scale <= 0 ==> canvas_width * scale <= 0) by (nonlinear_arith)
        requires
            canvas_width >= 0,
    ;
    assert(canvas_height == 0 || scale <= 0 ==> canvas_height * scale <= 0) by (nonlinear_arith)
        requires
            canvas_height >= 0,
    ;
    assert(scale <= 0 ==> canvas_width * scale <= 0 && canvas_height * scale <= 0)
        by (nonlinear_arith)
        requires
            canvas_width >= 0,
            canvas_height >= 0,
    ;
    let columns: int = cells_along(grid_side(canvas_width, pixel_scale));
    let rows: int = cells_along(grid_side(canvas_height, pixel_scale));
    assert(columns * rows == 0) by (nonlinear_arith)
        requires
            columns == 0 || rows == 0,
    ;
}

/// Under a budget of zero every cell is black.
pub proof fn zero_budget_draws_black(
    frame: Frame,
    region: Mandelbrot,
    canvas_width: u32,
    canvas_height: u32,
    pixel_scale: Fixed,
    i: int,
)
    requires
        renders(frame, region, canvas_width, canvas_height, 0, pixel_scale),
        0 <= i < frame.fills@.len(),
    ensures
        frame.fills@[i].color == (Color { r: 0, g: 0, b: 0 }),
{
}

/// At a scale of one the grid is the surface: its side is the side of the
/// surface exactly, it has one cell for each pixel, and each cell is drawn as
/// a square of side one.
pub proof fn unit_scale_keeps_size(canvas_side: u32)
    ensures
        grid_side(canvas_side, Fixed { bits: SCALE }) == canvas_side * SCALE,
        cells_along(grid_side(canvas_side, Fixed { bits: SCALE })) == canvas_side,
        block_side(SCALE as int) == 1,
{
}

/// At a scale of one every pixel of the surface is sampled once: the surface
/// keeps its size, there is one command for each pixel, and the command for
/// the pixel `(x, y)` fills the square of side one at `(x, y)` with the color
/// of the point that `(x, y)` stands for on a grid of the size of the surface.
pub proof fn unit_scale_samples_every_pixel(
    frame: Frame,
    region: Mandelbrot,
    canvas_width: u32,
    canvas_height: u32,
    max_iter: u32,
    x: int,
    y: int,
)
    requires
        renders(frame, region, canvas_width, canvas_height, max_iter, Fixed { bits: SCALE }),
        0 <= x < canvas_width,
        0 <= y < canvas_height,
    ensures
        frame.width == canvas_width,
        frame.height == canvas_height,
        frame.fills@.len() == canvas_width * canvas_height,
        0 <= x * canvas_height + y < frame.fills@.len(),
        frame.fills@[x * canvas_height + y] == cell_fill(
            region,
            grid_size(canvas_width, canvas_height, Fixed { bits: SCALE }),
            max_iter,
            1,
            x,
            y,
        ),
        frame.fills@[x * canvas_height + y].x == x,
        frame.fills@[x * canvas_height + y].y == y,
        frame.fills@[x * canvas_height + y].side == 1,
{
    unit_scale_keeps_size(canvas_width);
    unit_scale_keeps_size(canvas_height);
    let h: int = canvas_height as int;
    assert(0 <= x * h + y < canvas_width * h) by (nonlinear_arith)
        requires
            0 <= x < canvas_width,
            0 <= y < h,
    ;
    vstd::arithmetic::div_mod::lemma_fundamental_div_mod_converse(x * h + y, h, x, y);
}

} // verus!
