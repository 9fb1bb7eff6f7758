//! Escape-time rendering of the Mandelbrot set in fixed-point arithmetic.
//!
//! A rectangle of the complex plane is sampled on a grid; each cell of the
//! grid is mapped to a point of the rectangle, the point to the number of
//! steps its orbit takes to escape, and that count to a color. The result is
//! the list of squares that a drawing surface is to fill.
//!
//! All numbers are fixed-point with 32 fractional bits. Every product and
//! quotient is rounded to a multiple of `1 / 2^32` in a way that the contracts
//! state, so a result is the same on every machine, but it is not exact: two
//! points closer together than `1 / 2^32` cannot be told apart, and a region
//! so narrow that its cells are smaller than that cannot be resolved.

pub mod color;
pub mod error;
pub mod escape;
pub mod fixed;
pub mod plane;
pub mod render;

pub use crate::color::{get_color, hsl_to_rgb, hue_to_rgb, Color};
pub use crate::error::RenderError;
pub use crate::fixed::{Fixed, SCALE};
pub use crate::plane::{Complex, Mandelbrot, Vec2d};
pub use crate::render::{calc_mandelbrot, Fill, Frame};
