//! The diffusion stepper's verified half: the disk-shaped initial condition
//! and the per-step gathering of each cell's own value and its four
//! clamped axis-aligned neighbors.
//!
//! One diffusion step turns each cell `v0` with neighbors `v1..v4` into
//! `v0 - kappa * (v0 - (v1 + v2 + v3 + v4) / 4)` with `kappa` fixed at 1,
//! i.e. the plain average of the four neighbors.  That combine runs on
//! floating-point values and therefore stays outside the library; what the
//! library fixes is *which* values each cell reads, and that every value
//! read belongs to the field as it stood at the start of the step.

use vstd::prelude::*;

use crate::grid::cell_index;
use crate::grid::coords_to_index;
use crate::grid::index_to_coords;
use crate::grid::lemma_cell_index_in_range;
use crate::grid::lemma_cell_index_roundtrip;
use crate::grid::lemma_row_col_bounds;
use crate::grid::valid_dims;

verus! {

/// Radius of the initial hot disk, in cells.
pub const RADIUS: i32 = 100;

/// Whether cell (x, y) lies strictly inside the initial hot disk: its
/// squared Euclidean distance from the grid's center cell is strictly less
/// than `RADIUS` squared.
pub open spec fn hot_disk(x: int, y: int, width: int, height: int) -> bool {
    let px = width / 2;
    let py = height / 2;
    (x - px) * (x - px) + (y - py) * (y - py) < RADIUS * RADIUS
}

/// The initial intensity of cell (x, y): 255 inside the hot disk, 0 outside.
pub open spec fn initial_value(x: int, y: int, width: int, height: int) -> u8 {
    if hot_disk(x, y, width, height) {
        255
    } else {
        0
    }
}

/// The whole initial field, row-major.
pub open spec fn initial_field(width: int, height: int) -> Seq<u8> {
    Seq::new((width * height) as nat, |i: int| initial_value(i % width, i / width, width, height))
}

/// Create the initial field: a disk of hot (255) cells of radius [`RADIUS`]
/// around the grid's center, in an otherwise cold (0) field.
pub fn create_initial_field(width: usize, height: usize) -> (r: Vec<u8>)
    requires
        valid_dims(width as int, height as int),
    ensures
        r@ == initial_field(width as int, height as int),
        r@.len() == width * height,
{
    let n = width * height;
    let mut field: Vec<u8> = Vec::new();
    let mut i: usize = 0;
    while i < n
        invariant
            valid_dims(width as int, height as int),
            n == width * height,
            i <= n,
            field@.len() == i,
            forall|k: int|
                0 <= k < i ==> field@[k] == initial_value(
                    k % width as int,
                    k / width as int,
                    width as int,
                    height as int,
                ),
        decreases n - i,
    {
        proof {
            lemma_row_col_bounds(i as int, width as int, height as int);
        }
        let (x, y) = index_to_coords(i, width);
        let px = (width / 2) as i64;
        let py = (height / 2) as i64;
        let dx = x as i64 - px;
        let dy = y as i64 - py;
        proof {
            assert(0 <= dx * dx <= 0x1_0000_0000_0000_0000 && 0 <= dy * dy
                <= 0x1_0000_0000_0000_0000) by (nonlinear_arith)
                requires
                    -0x1_0000_0000 <= dx <= 0x1_0000_0000,
                    -0x1_0000_0000 <= dy <= 0x1_0000_0000,
            ;
        }
        let sq: i128 = (dx as i128) * (dx as i128) + (dy as i128) * (dy as i128);
        proof {
            assert(RADIUS == 100);
            assert(RADIUS * RADIUS == 10000);
        }
        let v: u8 = if sq < 10000 {
            255
        } else {
            0
        };
        field.push(v);
        i = i + 1;
    }
    proof {
        assert(field@ =~= initial_field(width as int, height as int));
    }
    field
}

/// Whether `s` lists the linear indices cell `k` reads during one step:
/// the cell itself, then its east, north, west and south neighbors, each
/// resolved through the clamp-to-edge rule.
pub open spec fn cell_sources_ok(
    s: (usize, usize, usize, usize, usize),
    k: int,
    width: int,
    height: int,
) -> bool {
    let x = k % width;
    let y = k / width;
    &&& s.0 == k
    &&& s.1 == cell_index(x + 1, y, width, height)
    &&& s.2 == cell_index(x, y - 1, width, height)
    &&& s.3 == cell_index(x - 1, y, width, height)
    &&& s.4 == cell_index(x, y + 1, width, height)
}

/// The linear indices a cell reads during one step, in a fixed order:
/// the cell itself, then its east, north, west and south neighbors, each
/// resolved through the clamp-to-edge rule.
pub fn cell_sources(i: usize, width: usize, height: usize) -> (r: (usize, usize, usize, usize, usize))
    requires
        valid_dims(width as int, height as int),
        i < width * height,
    ensures
        cell_sources_ok(r, i as int, width as int, height as int),
        r.0 < width * height,
        r.1 < width * height,
        r.2 < width * height,
        r.3 < width * height,
        r.4 < width * height,
{
    proof {
        lemma_row_col_bounds(i as int, width as int, height as int);
        lemma_cell_index_roundtrip(i as int, width as int, height as int);
    }
    let (x, y) = index_to_coords(i, width);
    let c0 = coords_to_index(x, y, width, height);
    let c1 = coords_to_index(x + 1, y, width, height);
    let c2 = coords_to_index(x, y - 1, width, height);
    let c3 = coords_to_index(x - 1, y, width, height);
    let c4 = coords_to_index(x, y + 1, width, height);
    (c0, c1, c2, c3, c4)
}

/// The quintuple of values cell `k` of field `f` reads during one step:
/// its own value and the values of its four clamped neighbors.
pub open spec fn step_reads<T>(f: Seq<T>, k: int, width: int, height: int) -> (T, T, T, T, T) {
    let x = k % width;
    let y = k / width;
    (
        f[k],
        f[cell_index(x + 1, y, width, height)],
        f[cell_index(x, y - 1, width, height)],
        f[cell_index(x - 1, y, width, height)],
        f[cell_index(x, y + 1, width, height)],
    )
}

/// All the values one step reads, cell by cell — a function of the field at
/// the start of the step alone.
pub open spec fn step_inputs<T>(f: Seq<T>, width: int, height: int) -> Seq<(T, T, T, T, T)> {
    Seq::new(f.len(), |k: int| step_reads(f, k, width, height))
}

/// Gather, for every cell, the five values one diffusion step reads.  The
/// whole result is read from `field` as it stands, before any cell of the
/// next state exists, so a caller that combines entry `k` into new cell `k`
/// cannot observe another cell's already-updated value within the step.
pub fn gather_step_inputs<T: Copy>(field: &Vec<T>, width: usize, height: usize) -> (r: Vec<
    (T, T, T, T, T),
>)
    requires
        valid_dims(width as int, height as int),
        field@.len() == width * height,
    ensures
        r@ == step_inputs(field@, width as int, height as int),
{
    let n = field.len();
    let mut r: Vec<(T, T, T, T, T)> = Vec::new();
    let mut i: usize = 0;
    while i < n
        invariant
            valid_dims(width as int, height as int),
            field@.len() == width * height,
            n == field@.len(),
            i <= n,
            r@.len() == i,
            forall|k: int|
                0 <= k < i ==> r@[k] == step_reads(field@, k, width as int, height as int),
        decreases n - i,
    {
        let s = cell_sources(i, width, height);
        r.push((field[s.0], field[s.1], field[s.2], field[s.3], field[s.4]));
        i = i + 1;
    }
    proof {
        assert(r@ =~= step_inputs(field@, width as int, height as int));
    }
    r
}

/// Resetting is idempotent: two initial fields created for the same
/// dimensions hold identical contents.
pub proof fn lemma_initial_field_deterministic(a: Seq<u8>, b: Seq<u8>, width: int, height: int)
    requires
        a == initial_field(width, height),
        b == initial_field(width, height),
    ensures
        a == b,
{
}

/// On a uniform field every cell reads the shared value five times, so with
/// any per-cell combine that maps (c, c, c, c, c) back to c — as the
/// four-neighbor averaging rule does, a value being the average of four
/// copies of itself — a uniform field is a fixed point of the step.
pub proof fn lemma_uniform_field_reads<T>(f: Seq<T>, c: T, width: int, height: int)
    requires
        1 <= width,
        1 <= height,
        f.len() == width * height,
        forall|k: int| 0 <= k < f.len() ==> f[k] == c,
    ensures
        forall|k: int|
            0 <= k < f.len() ==> #[trigger] step_inputs(f, width, height)[k] == (c, c, c, c, c),
{
    assert forall|k: int|
        0 <= k < f.len() implies #[trigger] step_inputs(f, width, height)[k] == (
        c,
        c,
        c,
        c,
        c,
    ) by {
        let x = k % width;
        let y = k / width;
        lemma_row_col_bounds(k, width, height);
        lemma_cell_index_in_range(x + 1, y, width, height);
        lemma_cell_index_in_range(x, y - 1, width, height);
        lemma_cell_index_in_range(x - 1, y, width, height);
        lemma_cell_index_in_range(x, y + 1, width, height);
    }
}

/// One step is deterministic: the values a step reads — and with them the
/// next state any fixed per-cell combine computes — are a function of the
/// field at the start of the step alone.
pub proof fn lemma_step_inputs_deterministic<T>(
    a: Seq<(T, T, T, T, T)>,
    b: Seq<(T, T, T, T, T)>,
    f: Seq<T>,
    width: int,
    height: int,
)
    requires
        a == step_inputs(f, width, height),
        b == step_inputs(f, width, height),
    ensures
        a == b,
{
}

} // verus!
