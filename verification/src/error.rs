//! The reasons for which a request is turned down.

use vstd::prelude::*;

verus! {

/// Why a point, a color or a frame could not be computed.
#[derive(Clone, Copy, Debug, PartialEq, Eq, Structural)]
pub enum RenderError {
    /// The iteration count is larger than the budget it is measured against.
    CountExceedsBudget,
    /// A side of the grid that a position is mapped from is zero.
    EmptyExtent,
    /// The position lies outside the grid it is mapped from.
    OutsideExtent,
    /// A side of the sampled grid is too long for a fixed-point number.
    ExtentTooLarge,
}

} // verus!
