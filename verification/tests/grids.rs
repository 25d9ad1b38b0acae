//! Layout generators, checked against plain IEEE-754 reference
//! computations of the same formulas.

use wavesim::mesh_grid::{Instance, MeshGrid};
use wavesim::render_mode::RenderMode;
use wavesim::scalar::{
    F32_DEFAULT_DAMPING, F32_FOUR, F32_HALF, F32_ONE, F32_SQRT_THREE, F32_THREE_HALVES, F32_TWO,
    F32_ZERO,
};
use wavesim::simulation::DIVISIONS;

#[test]
fn scalar_constants_match_their_values() {
    assert_eq!(F32_ZERO, 0.0f32.to_bits());
    assert_eq!(F32_ONE, 1.0f32.to_bits());
    assert_eq!(F32_TWO, 2.0f32.to_bits());
    assert_eq!(F32_FOUR, 4.0f32.to_bits());
    assert_eq!(F32_HALF, 0.5f32.to_bits());
    assert_eq!(F32_THREE_HALVES, 1.5f32.to_bits());
    assert_eq!(F32_SQRT_THREE, 3.0f32.sqrt().to_bits());
    assert_eq!(F32_DEFAULT_DAMPING, 0.98f32.to_bits());
}

#[test]
fn square_grid_of_four_has_sixteen_records() {
    let g = MeshGrid::square_grid(4, 1.0f32.to_bits());
    assert_eq!(g.instances.len(), 16);
}

#[test]
fn square_grid_degenerate_empty() {
    let g = MeshGrid::square_grid(0, 1.0f32.to_bits());
    assert_eq!(g.instances.len(), 0);
}

#[test]
fn square_grid_matches_ieee_reference() {
    let size = 4usize;
    let step = 1.3f32;
    let g = MeshGrid::square_grid(size, step.to_bits());
    let length = size as f32 * step;
    let half_length = length / 2.0;
    let uv_step = 1.0 / (size as f32);
    let mut k = 0usize;
    for y in 0..size {
        for x in 0..size {
            let expected = Instance {
                position: (
                    (x as f32 * step - half_length).to_bits(),
                    (y as f32 * step - half_length).to_bits(),
                ),
                uv: (
                    (x as f32 * uv_step * DIVISIONS as f32) as u32,
                    (y as f32 * uv_step * DIVISIONS as f32) as u32,
                ),
            };
            assert_eq!(g.instances[k], expected, "record {}", k);
            k += 1;
        }
    }
}

#[test]
fn hex_grid_counts_center_and_rings() {
    assert_eq!(MeshGrid::hex_grid(0, 1.0f32.to_bits()).instances.len(), 1);
    assert_eq!(MeshGrid::hex_grid(1, 1.0f32.to_bits()).instances.len(), 7);
    assert_eq!(MeshGrid::hex_grid(2, 1.0f32.to_bits()).instances.len(), 19);
    assert_eq!(MeshGrid::hex_grid(5, 1.0f32.to_bits()).instances.len(), 91);
}

#[test]
fn hex_grid_matches_ieee_reference() {
    let size = 2usize;
    let step = 1.3f32;
    let g = MeshGrid::hex_grid(size, step.to_bits());
    let s = size as i32;
    let grid_width = 2.0 * size as f32 * 3.0f32.sqrt() * 0.5;
    let uv_step = 1.0 / grid_width;
    let mut k = 0usize;
    for q in -s..=s {
        for r in (-s).max(-q - s)..=s.min(-q + s) {
            let cx = (3.0f32.sqrt() * q as f32 + 3.0f32.sqrt() * 0.5 * r as f32) * 0.5;
            let cy = (1.5 * r as f32) * 0.5;
            let expected = Instance {
                position: ((cx * step).to_bits(), (cy * step).to_bits()),
                uv: (
                    ((cx + grid_width * 0.5) * uv_step * DIVISIONS as f32) as u32,
                    ((cy + grid_width * 0.5) * uv_step * DIVISIONS as f32) as u32,
                ),
            };
            assert_eq!(g.instances[k], expected, "record {} at q={}, r={}", k, q, r);
            k += 1;
        }
    }
    assert_eq!(k, g.instances.len());
}

#[test]
fn hex_grid_degenerate_single_hex_at_origin() {
    let g = MeshGrid::hex_grid(0, 1.0f32.to_bits());
    assert_eq!(g.instances.len(), 1);
    let only = g.instances[0];
    assert_eq!(only.position, (0.0f32.to_bits(), 0.0f32.to_bits()));
    // the grid width is zero here, so the sample mapping degenerates to
    // NaN, which truncates to zero exactly as the plain cast does
    assert_eq!(only.uv, (0, 0));
}

#[test]
fn render_mode_toggles_between_the_two_variants() {
    assert_eq!(RenderMode::Texture.toggled(), RenderMode::Prism);
    assert_eq!(RenderMode::Prism.toggled(), RenderMode::Texture);
    assert_eq!(RenderMode::Texture.toggled().toggled(), RenderMode::Texture);
}
