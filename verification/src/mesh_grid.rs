//! Spatial layout generators.
//!
//! Pure functions that place one rendering instance per simulation cell:
//! a square tiling of `size * size` cells, and a hexagonal tiling of
//! `size` rings around a centre hexagon, enumerated in axial
//! coordinates. Every scalar is the bit pattern of an IEEE-754 binary32
//! value, as in the rest of the crate; each record also carries an
//! integer sample coordinate into the simulation grid.

use vstd::arithmetic::div_mod::lemma_fundamental_div_mod_converse;
use vstd::prelude::*;

use crate::scalar::F32_HALF;
use crate::scalar::F32_ONE;
use crate::scalar::F32_SQRT_THREE;
use crate::scalar::F32_THREE_HALVES;
use crate::scalar::F32_TWO;
use crate::scalar::add_bits;
use crate::scalar::div_bits;
use crate::scalar::f32_add;
use crate::scalar::f32_div;
use crate::scalar::f32_from_i64;
use crate::scalar::f32_mul;
use crate::scalar::f32_sub;
use crate::scalar::f32_trunc;
use crate::scalar::int_to_bits;
use crate::scalar::mul_bits;
use crate::scalar::sub_bits;
use crate::scalar::trunc_bits;
use crate::simulation::DIVISIONS;

verus! {

/// One placement record: a world-space offset (two binary32 bit
/// patterns) and an integer texture-sample coordinate into the
/// simulation grid.
#[derive(Clone, Copy, Debug, PartialEq, Eq)]
pub struct Instance {
    /// World-space offset of the instance.
    pub position: (u32, u32),
    /// Sample coordinate into the simulation grid.
    pub uv: (u32, u32),
}

/// An ordered list of placement records; the order is render-instance
/// order and carries no meaning beyond determinism.
pub struct MeshGrid {
    /// The placement records, in enumeration order.
    pub instances: Vec<Instance>,
}

/// Half the world-space extent of a square grid: `size * step / 2`.
pub open spec fn square_half_length(size: int, step: u32) -> u32 {
    div_bits(mul_bits(int_to_bits(size), step), F32_TWO)
}

/// The fractional width of one cell of a square grid: `1 / size`.
pub open spec fn square_uv_step(size: int) -> u32 {
    div_bits(F32_ONE, int_to_bits(size))
}

/// The sample coordinate of cell coordinate `c` in a square grid: the
/// fractional position scaled into the simulation's resolution and
/// truncated.
pub open spec fn square_uv(size: int, c: int) -> u32 {
    trunc_bits(
        mul_bits(
            mul_bits(int_to_bits(c), square_uv_step(size)),
            int_to_bits(DIVISIONS as int),
        ),
        32,
    ) as u32
}

/// The placement record of the square-grid cell with row-major flat
/// index `k`: positions step by `step` and are centred by subtracting
/// half the grid's extent on each axis.
pub open spec fn square_instance(size: int, step: u32, k: int) -> Instance {
    let x = k % size;
    let y = k / size;
    Instance {
        position: (
            sub_bits(mul_bits(int_to_bits(x), step), square_half_length(size, step)),
            sub_bits(mul_bits(int_to_bits(y), step), square_half_length(size, step)),
        ),
        uv: (square_uv(size, x), square_uv(size, y)),
    }
}

/// The first row of the hexagonal range at column `q`: `max(-s, -q-s)`.
pub open spec fn hex_r_min(s: int, q: int) -> int {
    if -q - s >= -s {
        -q - s
    } else {
        -s
    }
}

/// The last row of the hexagonal range at column `q`: `min(s, -q+s)`.
pub open spec fn hex_r_max(s: int, q: int) -> int {
    if -q + s <= s {
        -q + s
    } else {
        s
    }
}

/// The world-space x offset of the hexagon at axial `(q, r)` in a
/// pointy-top tiling: `(sqrt(3)*q + sqrt(3)/2*r) * 0.5`, evaluated in
/// binary32 exactly as written.
pub open spec fn hex_coord_x(q: int, r: int) -> u32 {
    mul_bits(
        add_bits(
            mul_bits(F32_SQRT_THREE, int_to_bits(q)),
            mul_bits(mul_bits(F32_SQRT_THREE, F32_HALF), int_to_bits(r)),
        ),
        F32_HALF,
    )
}

/// The world-space y offset of the hexagon at axial `(q, r)`:
/// `(1.5 * r) * 0.5` in binary32.
pub open spec fn hex_coord_y(r: int) -> u32 {
    mul_bits(mul_bits(F32_THREE_HALVES, int_to_bits(r)), F32_HALF)
}

/// The world-space width of a hexagonal grid of radius `s`:
/// `2 * s * sqrt(3) * 0.5` in binary32, left to right.
pub open spec fn hex_grid_width(s: int) -> u32 {
    mul_bits(mul_bits(mul_bits(F32_TWO, int_to_bits(s)), F32_SQRT_THREE), F32_HALF)
}

/// The fractional width of one unit of a hexagonal grid:
/// `1 / hex_grid_width(s)`.
pub open spec fn hex_uv_step(s: int) -> u32 {
    div_bits(F32_ONE, hex_grid_width(s))
}

/// The sample coordinate of world-space offset `c` in a hexagonal grid:
/// shifted by half the grid width, scaled into the simulation's
/// resolution, and truncated — the same mapping convention as the
/// square case.
pub open spec fn hex_uv(s: int, c: u32) -> u32 {
    trunc_bits(
        mul_bits(
            mul_bits(add_bits(c, mul_bits(hex_grid_width(s), F32_HALF)), hex_uv_step(s)),
            int_to_bits(DIVISIONS as int),
        ),
        32,
    ) as u32
}

/// The placement record of the hexagon at axial `(q, r)` in a grid of
/// radius `s` with world-space step `step`.
pub open spec fn hex_instance(s: int, step: u32, q: int, r: int) -> Instance {
    let cx = hex_coord_x(q, r);
    let cy = hex_coord_y(r);
    Instance {
        position: (mul_bits(cx, step), mul_bits(cy, step)),
        uv: (hex_uv(s, cx), hex_uv(s, cy)),
    }
}

/// The records of one column `q` of the hexagonal range, rows from
/// `hex_r_min` to `hex_r_max` inclusive, in order.
pub open spec fn hex_column_instances(s: int, step: u32, q: int) -> Seq<Instance> {
    Seq::new(
        (hex_r_max(s, q) - hex_r_min(s, q) + 1) as nat,
        |j: int| hex_instance(s, step, q, hex_r_min(s, q) + j),
    )
}

/// The records of every column of the hexagonal range up to (not
/// including) `q_end`, columns in order from `-s`.
pub open spec fn hex_instances(s: int, step: u32, q_end: int) -> Seq<Instance>
    decreases q_end + s,
{
    if q_end <= -s {
        Seq::empty()
    } else {
        hex_instances(s, step, q_end - 1) + hex_column_instances(s, step, q_end - 1)
    }
}

/// The sum `1 + 2 + ... + m`.
spec fn triangle(m: int) -> int
    decreases m,
{
    if m <= 0 {
        0
    } else {
        m + triangle(m - 1)
    }
}

/// How many records the columns of a radius-`s` hexagonal range up to
/// `q_end` hold: column `q` holds `2*s + 1 - |q|` of them.
spec fn hex_count(s: int, q_end: int) -> int {
    if q_end <= 0 {
        (q_end + s) * s + triangle(q_end + s)
    } else {
        (s + 1) * s + triangle(s + 1) + (q_end - 1) * (2 * s + 1) - triangle(q_end - 1)
    }
}

/// Column `q` of a radius-`s` hexagonal range holds `2*s + 1 - |q|`
/// records.
proof fn lemma_hex_column_len(s: int, step: u32, q: int)
    requires
        0 <= s,
        -s <= q <= s,
    ensures
        q >= 0 ==> hex_column_instances(s, step, q).len() == 2 * s + 1 - q,
        q < 0 ==> hex_column_instances(s, step, q).len() == 2 * s + 1 + q,
{
}

/// The columns up to `q_end` hold `hex_count(s, q_end)` records.
proof fn lemma_hex_instances_len(s: int, step: u32, q_end: int)
    requires
        0 <= s,
        -s <= q_end <= s + 1,
    ensures
        hex_instances(s, step, q_end).len() == hex_count(s, q_end),
    decreases q_end + s,
{
    if q_end <= -s {
        assert((q_end + s) * s == 0) by (nonlinear_arith)
            requires
                q_end + s == 0,
        ;
    } else {
        lemma_hex_instances_len(s, step, q_end - 1);
        lemma_hex_column_len(s, step, q_end - 1);
        if q_end <= 0 {
            assert((q_end + s) * s == (q_end - 1 + s) * s + s) by (nonlinear_arith);
        } else if q_end == 1 {
            assert((s + 1) * s == (0 + s) * s + s) by (nonlinear_arith);
        } else {
            assert((q_end - 1) * (2 * s + 1) == (q_end - 2) * (2 * s + 1) + (2 * s + 1))
                by (nonlinear_arith);
        }
    }
}

/// The whole radius-`s` hexagonal range holds `3*s*s + 3*s + 1`
/// records.
proof fn lemma_hex_total(s: int, step: u32)
    requires
        0 <= s,
    ensures
        hex_instances(s, step, s + 1).len() == 3 * s * s + 3 * s + 1,
{
    lemma_hex_instances_len(s, step, s + 1);
    assert(triangle(s + 1) == s + 1 + triangle(s));
    assert((s + 1) * s + s * (2 * s + 1) + s + 1 == 3 * s * s + 3 * s + 1) by (nonlinear_arith);
}

impl MeshGrid {
    /// Square tiling: `size * size` placement records in row-major
    /// order, centred on the origin by subtracting half the grid's
    /// extent from each axis. The bound on `size` is what the machine
    /// forces: the record count must fit in a machine word.
    pub fn square_grid(size: usize, step_size: u32) -> (g: MeshGrid)
        requires
            size * size <= usize::MAX,
        ensures
            g.instances@.len() == size * size,
            forall|k: int|
                0 <= k < size * size ==> #[trigger] g.instances@[k] == square_instance(
                    size as int,
                    step_size,
                    k,
                ),
    {
        let ghost sz = size as int;
        proof {
            assert(size as int <= i64::MAX) by (nonlinear_arith)
                requires
                    0 <= size as int,
                    size as int * size as int <= usize::MAX as int,
                    usize::MAX as int <= u64::MAX as int,
            ;
        }
        let scale = f32_from_i64(size as i64);
        let length = f32_mul(scale, step_size);
        let half_length = f32_div(length, F32_TWO);
        let uv_step = f32_div(F32_ONE, scale);
        let resolution = f32_from_i64(DIVISIONS as i64);
        let mut instances: Vec<Instance> = Vec::new();
        let mut y: usize = 0;
        while y < size
            invariant
                sz == size as int,
                size * size <= usize::MAX,
                y <= size,
                half_length == square_half_length(sz, step_size),
                uv_step == square_uv_step(sz),
                resolution == int_to_bits(DIVISIONS as int),
                instances@.len() == y * sz,
                forall|k: int|
                    0 <= k < y * sz ==> #[trigger] instances@[k] == square_instance(
                        sz,
                        step_size,
                        k,
                    ),
            decreases size - y,
        {
            let mut x: usize = 0;
            while x < size
                invariant
                    sz == size as int,
                    size * size <= usize::MAX,
                    y < size,
                    x <= size,
                    half_length == square_half_length(sz, step_size),
                    uv_step == square_uv_step(sz),
                    resolution == int_to_bits(DIVISIONS as int),
                    instances@.len() == y * sz + x,
                    forall|k: int|
                        0 <= k < y * sz + x ==> #[trigger] instances@[k] == square_instance(
                            sz,
                            step_size,
                            k,
                        ),
                decreases size - x,
            {
                proof {
                    assert(0 <= x as int && x as int <= i64::MAX && 0 <= y as int && y as int
                        <= i64::MAX) by (nonlinear_arith)
                        requires
                            0 <= (x as int) && (x as int) < sz,
                            0 <= (y as int) && (y as int) < sz,
                            sz * sz <= usize::MAX as int,
                            usize::MAX as int <= u64::MAX as int,
                    ;
                }
                let xi = f32_from_i64(x as i64);
                let yi = f32_from_i64(y as i64);
                let px = f32_sub(f32_mul(xi, step_size), half_length);
                let py = f32_sub(f32_mul(yi, step_size), half_length);
                let ux = f32_trunc(f32_mul(f32_mul(xi, uv_step), resolution), 32) as u32;
                let uy = f32_trunc(f32_mul(f32_mul(yi, uv_step), resolution), 32) as u32;
                instances.push(Instance { position: (px, py), uv: (ux, uy) });
                proof {
                    assert(0 <= y as int * sz + x as int && y as int * sz + x as int + 1 <= sz
                        * sz) by (nonlinear_arith)
                        requires
                            0 <= (x as int) && (x as int) < sz,
                            0 <= (y as int) && (y as int) < sz,
                    ;
                    let k = y as int * sz + x as int;
                    lemma_fundamental_div_mod_converse(k, sz, y as int, x as int);
                    assert(instances@[k] == square_instance(sz, step_size, k));
                }
                x = x + 1;
            }
            proof {
                assert((y as int + 1) * sz == y as int * sz + sz) by (nonlinear_arith);
            }
            y = y + 1;
        }
        MeshGrid { instances }
    }

    /// Hexagonal tiling of radius `size`: `size` rings of pointy-top
    /// hexagons around a centre hexagon, enumerated in axial
    /// coordinates with the bounded range `q` from `-size` to `size`
    /// and `r` from `max(-size, -q-size)` to `min(size, -q+size)` —
    /// exactly the hexagons within distance `size` of the origin,
    /// `3*size*size + 3*size + 1` in all. Radius `0` is the valid
    /// degenerate case of a single hexagon. The bound on `size` is the
    /// machine's: columns are counted in 32-bit coordinates.
    pub fn hex_grid(size: usize, step_size: u32) -> (g: MeshGrid)
        requires
            size <= i32::MAX,
        ensures
            g.instances@ == hex_instances(size as int, step_size, size as int + 1),
            g.instances@.len() == 3 * size * size + 3 * size + 1,
    {
        let ghost si = size as int;
        let s = size as i64;
        let grid_width = f32_mul(
            f32_mul(f32_mul(F32_TWO, f32_from_i64(s)), F32_SQRT_THREE),
            F32_HALF,
        );
        let uv_step = f32_div(F32_ONE, grid_width);
        let gw_half = f32_mul(grid_width, F32_HALF);
        let sqrt3_half = f32_mul(F32_SQRT_THREE, F32_HALF);
        let resolution = f32_from_i64(DIVISIONS as i64);
        let mut instances: Vec<Instance> = Vec::new();
        let mut q: i64 = -s;
        while q <= s
            invariant
                si == size as int,
                s == si,
                0 <= si <= i32::MAX,
                -s <= q <= s + 1,
                grid_width == hex_grid_width(si),
                uv_step == hex_uv_step(si),
                gw_half == mul_bits(hex_grid_width(si), F32_HALF),
                sqrt3_half == mul_bits(F32_SQRT_THREE, F32_HALF),
                resolution == int_to_bits(DIVISIONS as int),
                instances@ == hex_instances(si, step_size, q as int),
            decreases s + 1 - q,
        {
            let r_lo = if -q - s >= -s {
                -q - s
            } else {
                -s
            };
            let r_hi = if -q + s <= s {
                -q + s
            } else {
                s
            };
            let mut r: i64 = r_lo;
            while r <= r_hi
                invariant
                    si == size as int,
                    s == si,
                    0 <= si <= i32::MAX,
                    -s <= q <= s,
                    r_lo == hex_r_min(si, q as int),
                    r_hi == hex_r_max(si, q as int),
                    r_lo <= r <= r_hi + 1,
                    grid_width == hex_grid_width(si),
                    uv_step == hex_uv_step(si),
                    gw_half == mul_bits(hex_grid_width(si), F32_HALF),
                    sqrt3_half == mul_bits(F32_SQRT_THREE, F32_HALF),
                    resolution == int_to_bits(DIVISIONS as int),
                    instances@ == hex_instances(si, step_size, q as int)
                        + hex_column_instances(si, step_size, q as int).take(r - r_lo),
                decreases r_hi + 1 - r,
            {
                let cx = f32_mul(
                    f32_add(
                        f32_mul(F32_SQRT_THREE, f32_from_i64(q)),
                        f32_mul(sqrt3_half, f32_from_i64(r)),
                    ),
                    F32_HALF,
                );
                let cy = f32_mul(f32_mul(F32_THREE_HALVES, f32_from_i64(r)), F32_HALF);
                let px = f32_mul(cx, step_size);
                let py = f32_mul(cy, step_size);
                let ux = f32_trunc(f32_mul(f32_mul(f32_add(cx, gw_half), uv_step), resolution), 32)
                    as u32;
                let uy = f32_trunc(f32_mul(f32_mul(f32_add(cy, gw_half), uv_step), resolution), 32)
                    as u32;
                instances.push(Instance { position: (px, py), uv: (ux, uy) });
                proof {
                    let col = hex_column_instances(si, step_size, q as int);
                    assert(col[r - r_lo] == hex_instance(si, step_size, q as int, r as int));
                    assert(col.take(r - r_lo + 1) =~= col.take(r - r_lo).push(col[r - r_lo]));
                }
                r = r + 1;
            }
            proof {
                let col = hex_column_instances(si, step_size, q as int);
                assert(col.take(r - r_lo) =~= col);
                assert(hex_instances(si, step_size, q as int + 1) == hex_instances(
                    si,
                    step_size,
                    q as int,
                ) + col);
            }
            q = q + 1;
        }
        proof {
            lemma_hex_total(si, step_size);
        }
        MeshGrid { instances }
    }
}

} // verus!
