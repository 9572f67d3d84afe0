//! The grid/coordinate model: mapping between the linear, row-major cell
//! storage and 2-D coordinates, with clamp-to-edge resolution of
//! out-of-range coordinates.

use vstd::prelude::*;

verus! {

/// Clamp-to-edge resolution of one signed coordinate to a valid offset on an
/// axis of `limit` cells: negative coordinates resolve to `0`, coordinates at
/// or past the edge to `limit - 1`.  An axis with at most one cell resolves
/// everything to `0`, so the clamped edge never underflows.
pub open spec fn clamp_spec(x: int, limit: int) -> int {
    if limit <= 1 {
        0
    } else if x < 0 {
        0
    } else if x >= limit {
        limit - 1
    } else {
        x
    }
}

/// Dimensions the library accepts: at least one cell on each axis,
/// coordinates that fit in `i32`, and a cell count that fits in `usize`.
pub open spec fn valid_dims(width: int, height: int) -> bool {
    &&& 1 <= width <= 0x7fff_ffff
    &&& 1 <= height <= 0x7fff_ffff
    &&& width * height <= usize::MAX
}

/// The linear index that a (possibly out-of-range) coordinate pair resolves
/// to on a `width` x `height` grid, after clamping each component to the
/// nearest valid coordinate.
pub open spec fn cell_index(x: int, y: int, width: int, height: int) -> int {
    clamp_spec(y, height) * width + clamp_spec(x, width)
}

/// A clamped coordinate always lands on a valid cell of its axis.
pub proof fn lemma_clamp_in_range(x: int, limit: int)
    requires
        1 <= limit,
    ensures
        0 <= clamp_spec(x, limit) < limit,
{
}

/// Any coordinate pair, however far out of range, resolves to an in-range
/// linear index.
pub proof fn lemma_cell_index_in_range(x: int, y: int, width: int, height: int)
    requires
        1 <= width,
        1 <= height,
    ensures
        0 <= cell_index(x, y, width, height) < width * height,
{
    let cx = clamp_spec(x, width);
    let cy = clamp_spec(y, height);
    lemma_clamp_in_range(x, width);
    lemma_clamp_in_range(y, height);
    assert(0 <= cy * width + cx < width * height) by (nonlinear_arith)
        requires
            0 <= cx < width,
            0 <= cy < height,
    ;
}

/// Row and column of an in-range linear index are themselves in range.
pub proof fn lemma_row_col_bounds(i: int, width: int, height: int)
    requires
        1 <= width,
        1 <= height,
        0 <= i < width * height,
    ensures
        0 <= i % width < width,
        0 <= i / width < height,
{
    assert(0 <= i % width < width) by (nonlinear_arith)
        requires
            1 <= width,
            0 <= i,
    ;
    assert(0 <= i / width < height) by (nonlinear_arith)
        requires
            1 <= width,
            1 <= height,
            0 <= i < width * height,
    ;
}

/// An in-range index resolves to itself: clamping does not move coordinates
/// that were derived from a valid index.
pub proof fn lemma_cell_index_roundtrip(i: int, width: int, height: int)
    requires
        1 <= width,
        1 <= height,
        0 <= i < width * height,
    ensures
        cell_index(i % width, i / width, width, height) == i,
{
    lemma_row_col_bounds(i, width, height);
    vstd::arithmetic::div_mod::lemma_fundamental_div_mod(i, width);
    assert(width * (i / width) == (i / width) * width) by (nonlinear_arith);
}

/// Clamp a signed coordinate to a valid offset on an axis of `limit` cells.
pub fn clamp(x: i32, limit: usize) -> (r: usize)
    ensures
        r == clamp_spec(x as int, limit as int),
{
    if limit <= 1 {
        0
    } else if x < 0 {
        0
    } else if x as usize >= limit {
        limit - 1
    } else {
        x as usize
    }
}

/// Row-major decomposition of an in-range linear index into its (x, y)
/// coordinates.
pub fn index_to_coords(i: usize, width: usize) -> (r: (i32, i32))
    requires
        1 <= width <= 0x7fff_ffff,
        i as int / width as int <= 0x7fff_ffff,
    ensures
        r.0 == i as int % width as int,
        r.1 == i as int / width as int,
{
    let x = (i % width) as i32;
    let y = (i / width) as i32;
    (x, y)
}

/// Resolve a signed coordinate pair, clamping each component to the edge,
/// to the linear index of the resulting in-range cell.
pub fn coords_to_index(x: i32, y: i32, width: usize, height: usize) -> (r: usize)
    requires
        valid_dims(width as int, height as int),
    ensures
        r == cell_index(x as int, y as int, width as int, height as int),
        r < width * height,
{
    let x2 = clamp(x, width);
    let y2 = clamp(y, height);
    proof {
        lemma_cell_index_in_range(x as int, y as int, width as int, height as int);
    }
    y2 * width + x2
}

/// Runtime counterpart of [`valid_dims`], for unverified callers that must
/// establish the library's preconditions before calling in.
pub fn dims_ok(width: usize, height: usize) -> (b: bool)
    ensures
        b == valid_dims(width as int, height as int),
{
    if width < 1 || height < 1 || width > 0x7fff_ffff || height > 0x7fff_ffff {
        return false;
    }
    proof {
        assert((width as u128) * (height as u128) <= 0x4000_0000_0000_0000u128) by (nonlinear_arith)
            requires
                width <= 0x8000_0000,
                height <= 0x8000_0000,
        ;
    }
    (width as u128) * (height as u128) <= usize::MAX as u128
}

} // verus!
