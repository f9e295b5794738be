//! Grid arithmetic. The world is a 32x32-unit grid; a position's cell
//! index is `round(pixel / 32)`, rounding halves away from zero. All
//! arithmetic here is exact integer arithmetic.

use vstd::prelude::*;

verus! {

/// Width and height of one grid cell, in world units.
pub const CELL: i32 = 32;

/// Positions handled by the engine stay within this bound; it keeps every
/// intermediate computation inside the machine integer ranges.
pub const COORD_LIMIT: i32 = 16_000_000;

pub open spec fn coord_ok(v: int) -> bool {
    -(COORD_LIMIT as int) <= v <= COORD_LIMIT as int
}

/// A margin inside [`coord_ok`] wide enough that one frame of movement
/// and a grid snap cannot leave the coordinate range.
pub open spec fn inner_ok(v: int) -> bool {
    -(COORD_LIMIT as int) + 1024 <= v <= COORD_LIMIT as int - 1024
}

/// `round(v / 32)` with halves rounded away from zero.
pub open spec fn round32(v: int) -> int {
    if v >= 0 {
        (v + 16) / 32
    } else {
        -(((-v) + 16) / 32)
    }
}

/// The nearest multiple of 32, halves away from zero.
pub open spec fn snap32(v: int) -> int {
    32 * round32(v)
}

/// `v / 32` truncated toward zero.
pub open spec fn div32_trunc(v: int) -> int {
    if v >= 0 {
        v / 32
    } else {
        -((-v) / 32)
    }
}

/// Whether the sub-cell offset of `v` is below the turn tolerance of
/// 0.05 of a cell: `v/32 - trunc(v/32) < 0.05`. For nonnegative `v` this
/// is an offset of at most one unit; for negative `v` the offset is never
/// positive, so the tolerance always holds.
pub open spec fn grid_aligned(v: int) -> bool {
    v < 0 || v % 32 <= 1
}

/// The grid cell index of a coordinate.
pub fn round_to_cell(v: i32) -> (r: i32)
    requires
        coord_ok(v as int),
    ensures
        r == round32(v as int),
{
    if v >= 0 {
        (v + 16) / 32
    } else {
        -(((-v) + 16) / 32)
    }
}

/// The nearest grid-aligned coordinate.
pub fn snap_coord(v: i32) -> (r: i32)
    requires
        coord_ok(v as int),
    ensures
        r == snap32(v as int),
{
    32 * round_to_cell(v)
}

/// Truncated cell division, as used for pickup positions.
pub fn trunc_cell(v: i32) -> (r: i32)
    requires
        coord_ok(v as int),
    ensures
        r == div32_trunc(v as int),
{
    if v >= 0 {
        v / 32
    } else {
        -((-v) / 32)
    }
}

/// Whether a coordinate is within the turn tolerance of a cell boundary.
pub fn is_grid_aligned(v: i32) -> (r: bool)
    ensures
        r == grid_aligned(v as int),
{
    if v < 0 {
        true
    } else {
        v % 32 <= 1
    }
}

} // verus!
