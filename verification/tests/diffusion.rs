use fluit::grid::clamp;
use fluit::grid::coords_to_index;
use fluit::grid::dims_ok;
use fluit::grid::index_to_coords;
use fluit::render::draw;
use fluit::stepper::cell_sources;
use fluit::stepper::create_initial_field;
use fluit::stepper::gather_step_inputs;

const W: usize = 320;
const H: usize = 320;

/// One diffusion step, combining the library's verified gather with the
/// floating-point per-cell rule `v0 - kappa * (v0 - (v1+v2+v3+v4) / 4)`,
/// kappa fixed at 1.
fn step(field: &Vec<f32>, width: usize, height: usize) -> Vec<f32> {
    let kappa = 1.0f32;
    let inputs = gather_step_inputs(field, width, height);
    let mut next = Vec::with_capacity(inputs.len());
    for (v0, v1, v2, v3, v4) in inputs {
        next.push(v0 - kappa * (v0 - (v1 + v2 + v3 + v4) / 4.0));
    }
    next
}

fn bits(field: &Vec<f32>) -> Vec<u32> {
    field.iter().map(|v| v.to_bits()).collect()
}

#[test]
fn boundary_clamping() {
    assert_eq!(coords_to_index(-1, 0, W, H), coords_to_index(0, 0, W, H));
    assert_eq!(
        coords_to_index(W as i32, H as i32 - 1, W, H),
        coords_to_index(W as i32 - 1, H as i32 - 1, W, H)
    );
    assert_eq!(coords_to_index(-1, -1, W, H), coords_to_index(0, 0, W, H));
}

#[test]
fn clamp_axis_edges() {
    assert_eq!(clamp(-5, 320), 0);
    assert_eq!(clamp(0, 320), 0);
    assert_eq!(clamp(319, 320), 319);
    assert_eq!(clamp(320, 320), 319);
    assert_eq!(clamp(1000, 320), 319);
    // a one-cell axis: the clamped edge must not underflow
    assert_eq!(clamp(-1, 1), 0);
    assert_eq!(clamp(5, 1), 0);
}

#[test]
fn single_cell_grid() {
    assert_eq!(coords_to_index(-1, -1, 1, 1), 0);
    assert_eq!(coords_to_index(3, 7, 1, 1), 0);
    assert_eq!(cell_sources(0, 1, 1), (0, 0, 0, 0, 0));
}

#[test]
fn index_round_trip() {
    assert_eq!(index_to_coords(0, W), (0, 0));
    assert_eq!(index_to_coords(60 * W + 160, W), (160, 60));
    assert_eq!(coords_to_index(160, 60, W, H), 60 * W + 160);
}

#[test]
fn dims_validation() {
    assert!(dims_ok(W, H));
    assert!(dims_ok(1, 1));
    assert!(!dims_ok(0, H));
    assert!(!dims_ok(W, 0));
    assert!(!dims_ok(0x8000_0000, 1));
}

#[test]
fn initialization_disk() {
    let f = create_initial_field(W, H);
    assert_eq!(f.len(), W * H);
    // the center cell lies inside the disk
    assert_eq!(f[160 * W + 160], 255);
    // the corner lies far outside
    assert_eq!(f[0], 0);
    // distance exactly 100: the strictly-less-than test leaves it cold
    assert_eq!(f[60 * W + 160], 0);
    // one cell further in is hot
    assert_eq!(f[61 * W + 160], 255);
}

#[test]
fn idempotent_reset() {
    let a = create_initial_field(W, H);
    let b = create_initial_field(W, H);
    assert_eq!(a, b);
}

#[test]
fn determinism() {
    let init: Vec<f32> = create_initial_field(W, H).iter().map(|&v| v as f32).collect();
    let mut a = init.clone();
    let mut b = init;
    for _ in 0..3 {
        a = step(&a, W, H);
        b = step(&b, W, H);
    }
    assert_eq!(bits(&a), bits(&b));
}

#[test]
fn averaging_identity() {
    let c = 123.25f32;
    let field = vec![c; 16 * 16];
    let next = step(&field, 16, 16);
    assert_eq!(bits(&field), bits(&next));
}

#[test]
fn hot_cell_quarters() {
    let w = 5usize;
    let h = 5usize;
    let mut field = vec![0.0f32; w * h];
    field[2 * w + 2] = 300.0;
    let next = step(&field, w, h);
    // each axis neighbor of the hot cell had v0 = 0 and reads 300 once
    assert_eq!(next[2 * w + 3], 75.0);
    assert_eq!(next[2 * w + 1], 75.0);
    assert_eq!(next[1 * w + 2], 75.0);
    assert_eq!(next[3 * w + 2], 75.0);
    // the hot cell itself becomes the average of its four cold neighbors
    assert_eq!(next[2 * w + 2], 0.0);
    // a cell two steps away stays cold
    assert_eq!(next[0], 0.0);
}

#[test]
fn gather_reads_clamped_neighbors() {
    // a 3x3 field whose cells are labeled with their own index
    let field: Vec<i32> = (0..9).collect();
    let inputs = gather_step_inputs(&field, 3, 3);
    assert_eq!(inputs.len(), 9);
    // the center cell reads itself and east, north, west, south
    assert_eq!(inputs[4], (4, 5, 1, 3, 7));
    // the top-left corner clamps west and north onto itself
    assert_eq!(inputs[0], (0, 1, 0, 0, 3));
    // the bottom-right corner clamps east and south onto itself
    assert_eq!(inputs[8], (8, 8, 5, 7, 8));
}

#[test]
fn cell_sources_at_edges() {
    // top-left corner of the full-size grid
    assert_eq!(cell_sources(0, W, H), (0, 1, 0, 0, W));
    // bottom-right corner
    let last = W * H - 1;
    assert_eq!(cell_sources(last, W, H), (last, last, last - W, last - 1, last));
}

#[test]
fn render_truncation() {
    // the intensity is the caller's direct narrowing conversion: 255.9
    // truncates to 255, nothing is rounded
    let v = 255.9f32 as u8;
    assert_eq!(v, 255);
    let frame = draw(&vec![v, 0.2f32 as u8]);
    assert_eq!(frame, vec![255, 255, 255, 255, 0, 0, 0, 255]);
}

#[test]
fn rgba_layout() {
    let gray = vec![0u8, 7, 255];
    let frame = draw(&gray);
    assert_eq!(frame, vec![0, 0, 0, 255, 7, 7, 7, 255, 255, 255, 255, 255]);
}
