//! The wave simulation engine.
//!
//! A square grid of `divisions × divisions` cells is kept in two parallel
//! row-major buffers. Each tick swaps the buffers and recomputes every
//! cell of the new current buffer from the previous tick's snapshot with a
//! four-neighbour stencil, so no cell ever reads a partially updated
//! value. Every scalar field is the bit pattern of an IEEE-754 binary32
//! value (see the `scalar` module).

use vstd::arithmetic::div_mod::lemma_fundamental_div_mod_converse;
use vstd::pervasive::VecAdditionalExecFns;
use vstd::prelude::*;

use crate::scalar::F32_DEFAULT_DAMPING;
use crate::scalar::F32_FOUR;
use crate::scalar::F32_ONE;
use crate::scalar::F32_THREE_HALVES;
use crate::scalar::F32_ZERO;
use crate::scalar::add_bits;
use crate::scalar::clamp01;
use crate::scalar::clamp01_bits;
use crate::scalar::div_bits;
use crate::scalar::f32_add;
use crate::scalar::f32_div;
use crate::scalar::f32_from_i64;
use crate::scalar::f32_mul;
use crate::scalar::f32_sub;
use crate::scalar::f32_trunc;
use crate::scalar::int_to_bits;
use crate::scalar::is_nonneg;
use crate::scalar::is_nonneg_bits;
use crate::scalar::mul_bits;
use crate::scalar::nonneg_part;
use crate::scalar::nonneg_part_bits;
use crate::scalar::sub_bits;
use crate::scalar::trunc_bits;

verus! {

/// Default side length of the simulation grid, in cells.
pub const DIVISIONS: u32 = 128;

/// One simulation cell. Each field is the bit pattern of a binary32
/// value; together they form one 16-byte record in the serialized state.
#[derive(Clone, Copy, Debug, PartialEq, Eq, Structural)]
pub struct WavePoint {
    /// Height at the cell.
    pub value: u32,
    /// How fast the height is changing.
    pub velocity: u32,
    /// Local transmissivity. Patterns meaning a value that compares below
    /// zero mark the cell as a sink: it is forced to zero every tick and
    /// never updated by the stencil.
    pub medium: u32,
    /// Reserved channel, kept so that a record is exactly four fields.
    pub extra: u32,
}

/// The state every cell starts in: at rest, fully transmissive.
pub open spec fn default_cell() -> WavePoint {
    WavePoint { value: F32_ZERO, velocity: F32_ZERO, medium: F32_ONE, extra: F32_ONE }
}

impl Default for WavePoint {
    /// A cell at rest in a fully transmissive medium.
    fn default() -> (r: Self)
        ensures
            r == default_cell(),
    {
        WavePoint { value: F32_ZERO, velocity: F32_ZERO, medium: F32_ONE, extra: F32_ONE }
    }
}

/// In a row-major grid of side `div`, the flat index `i` addresses the
/// cell at column `i % div` and row `i / div`.
pub proof fn lemma_flat_index(div: int, i: int)
    requires
        1 <= div,
        0 <= i < div * div,
    ensures
        0 <= i % div < div,
        0 <= i / div < div,
        i == (i / div) * div + i % div,
{
    vstd::arithmetic::div_mod::lemma_fundamental_div_mod(i, div);
    vstd::arithmetic::div_mod::lemma_mod_division_less_than_divisor(i, div);
    vstd::arithmetic::div_mod::lemma_div_pos_is_pos(i, div);
    assert(div * (i / div) == (i / div) * div) by (nonlinear_arith);
    if i / div >= div {
        assert(div * div <= (i / div) * div) by (nonlinear_arith)
            requires
                0 <= div,
                div <= i / div,
        ;
        assert(false);
    }
}

/// Does the 5×5 excitation block anchored at `(x0, y0)` cover the cell
/// with flat index `i`? The block is clipped at the grid bounds, which
/// the index respects by construction.
pub open spec fn poke_hits(div: int, x0: int, y0: int, i: int) -> bool {
    let x = i % div;
    let y = i / div;
    x0 <= x < x0 + 5 && y0 <= y < y0 + 5
}

/// The effect of one excitation on one covered cell: the height gains
/// `1.0`, so overlapping excitations superpose (the accumulating variant,
/// not the overwriting one).
pub open spec fn poked_cell(c: WavePoint) -> WavePoint {
    WavePoint {
        value: add_bits(c.value, F32_ONE),
        velocity: c.velocity,
        medium: c.medium,
        extra: c.extra,
    }
}

/// A cell equal to `c` except for its transmissivity pattern.
pub open spec fn with_medium(c: WavePoint, medium: u32) -> WavePoint {
    WavePoint { value: c.value, velocity: c.velocity, medium, extra: c.extra }
}

/// The grid coordinate that a normalized coordinate pattern lands on:
/// clamp into `[0.0, 1.0]`, scale by the side length, truncate toward
/// zero, and cap at the last cell so that `1.0` maps onto the grid.
pub open spec fn norm_coord(div: int, c: u32) -> int {
    let t = trunc_bits(mul_bits(clamp01_bits(c), int_to_bits(div)), 32) as int;
    if t >= div - 1 {
        div - 1
    } else {
        t
    }
}

/// The clamped neighbour sum of the stencil at flat index `i`, divided by
/// four. Up to four axis neighbours contribute, each clamped to be
/// non-negative; a neighbour outside the grid is skipped, yet the divisor
/// stays four, so border cells are biased toward zero — a quirk kept for
/// compatibility with the original visual behaviour.
pub open spec fn stencil_mid(prev: Seq<WavePoint>, div: int, i: int) -> u32 {
    let x = i % div;
    let y = i / div;
    let m0 = F32_ZERO;
    let m1 = if x != 0 {
        add_bits(m0, nonneg_part_bits(prev[i - 1].value))
    } else {
        m0
    };
    let m2 = if x != div - 1 {
        add_bits(m1, nonneg_part_bits(prev[i + 1].value))
    } else {
        m1
    };
    let m3 = if y != 0 {
        add_bits(m2, nonneg_part_bits(prev[i - div].value))
    } else {
        m2
    };
    let m4 = if y != div - 1 {
        add_bits(m3, nonneg_part_bits(prev[i + div].value))
    } else {
        m3
    };
    div_bits(m4, F32_FOUR)
}

/// One tick's result for the cell at flat index `i`. `prev` is the
/// snapshot that the whole tick reads (last tick's cells); `stale` is the
/// cell that the write buffer held before the tick (two ticks old), whose
/// `medium` and `extra` channels are left in place because the stencil
/// writes only `value` and `velocity`. A cell whose transmissivity
/// compares below zero is a sink: it is forced to rest instead.
pub open spec fn advanced_cell(
    prev: Seq<WavePoint>,
    stale: WavePoint,
    div: int,
    damping: u32,
    i: int,
) -> WavePoint {
    let p = prev[i];
    if is_nonneg_bits(p.medium) {
        let target = mul_bits(p.medium, F32_THREE_HALVES);
        let new_vel = add_bits(
            mul_bits(target, sub_bits(stencil_mid(prev, div, i), p.value)),
            mul_bits(p.velocity, damping),
        );
        WavePoint {
            value: add_bits(p.value, new_vel),
            velocity: new_vel,
            medium: stale.medium,
            extra: stale.extra,
        }
    } else {
        WavePoint { value: F32_ZERO, velocity: F32_ZERO, medium: stale.medium, extra: stale.extra }
    }
}

/// The wave simulation engine: two same-sized cell buffers plus the
/// externally tunable damping factor.
pub struct WaveSimulation {
    divisions: usize,
    /// Damping factor applied to each cell's velocity every tick, as a
    /// binary32 bit pattern. Externally mutable; values outside `[0, 1)`
    /// make the simulation diverge but are not rejected.
    pub damping: u32,
    current_state: Vec<WavePoint>,
    previous_state: Vec<WavePoint>,
}

impl WaveSimulation {
    /// Side length of the grid, in cells.
    pub closed spec fn dim(&self) -> int {
        self.divisions as int
    }

    /// The cells of the current buffer, row-major: index `y * dim + x`.
    pub closed spec fn cells(&self) -> Seq<WavePoint> {
        self.current_state@
    }

    /// The cells of the previous tick's buffer, row-major.
    pub closed spec fn prev_cells(&self) -> Seq<WavePoint> {
        self.previous_state@
    }

    /// The damping factor's bit pattern, for use in contracts.
    pub closed spec fn damping_bits(&self) -> u32 {
        self.damping
    }

    /// Both buffers hold exactly `dim * dim` cells and the byte length of
    /// the serialized state fits in a machine word.
    pub open spec fn wf(&self) -> bool {
        &&& 1 <= self.dim()
        &&& self.dim() * self.dim() * 16 <= usize::MAX
        &&& self.cells().len() == self.dim() * self.dim()
        &&& self.prev_cells().len() == self.dim() * self.dim()
    }

    /// Construct an engine with every cell of both buffers in the default
    /// state. The bound on `divisions` is what the machine forces: the
    /// serialized state must fit in a machine word of bytes.
    pub fn new(divisions: u32) -> (sim: WaveSimulation)
        requires
            1 <= divisions,
            divisions * divisions * 16 <= usize::MAX,
        ensures
            sim.wf(),
            sim.dim() == divisions,
            sim.damping_bits() == F32_DEFAULT_DAMPING,
            forall|i: int| 0 <= i < sim.cells().len() ==> sim.cells()[i] == default_cell(),
            forall|i: int|
                0 <= i < sim.prev_cells().len() ==> sim.prev_cells()[i] == default_cell(),
    {
        let divisions = divisions as usize;
        let n = divisions * divisions;
        WaveSimulation {
            divisions,
            damping: F32_DEFAULT_DAMPING,
            current_state: default_buffer(n),
            previous_state: default_buffer(n),
        }
    }

    /// Side length of the grid, in cells.
    pub fn divisions(&self) -> (r: usize)
        ensures
            r == self.dim(),
    {
        self.divisions
    }

    /// Reallocate both buffers for a new side length, resetting every
    /// cell to the default state. This is a full reset, not a resample:
    /// all history is discarded. The damping setting is kept.
    pub fn set_divisions(&mut self, divisions: usize)
        requires
            1 <= divisions,
            divisions * divisions * 16 <= usize::MAX,
        ensures
            final(self).wf(),
            final(self).dim() == divisions,
            final(self).damping_bits() == old(self).damping_bits(),
            forall|i: int|
                0 <= i < final(self).cells().len() ==> final(self).cells()[i] == default_cell(),
            forall|i: int|
                0 <= i < final(self).prev_cells().len() ==> final(self).prev_cells()[i]
                    == default_cell(),
    {
        let n = divisions * divisions;
        self.divisions = divisions;
        self.current_state = default_buffer(n);
        self.previous_state = default_buffer(n);
    }

    /// Excite a 5×5 block of cells whose top-left corner is `(x_start,
    /// y_start)` by adding `1.0` to the height of each covered cell of
    /// the current buffer. Cells that would fall outside the grid are
    /// skipped; an anchor outside the grid excites nothing.
    pub fn poke(&mut self, x_start: usize, y_start: usize)
        requires
            old(self).wf(),
        ensures
            final(self).wf(),
            final(self).dim() == old(self).dim(),
            final(self).damping_bits() == old(self).damping_bits(),
            final(self).prev_cells() == old(self).prev_cells(),
            forall|i: int|
                0 <= i < old(self).cells().len() ==> final(self).cells()[i] == (
                if poke_hits(old(self).dim(), x_start as int, y_start as int, i) {
                    poked_cell(old(self).cells()[i])
                } else {
                    old(self).cells()[i]
                }),
    {
        let div = self.divisions;
        let ghost d = div as int;
        let ghost n = d * d;
        let ghost x0 = x_start as int;
        let ghost y0 = y_start as int;
        let ghost orig = self.current_state@;

        if x_start >= div || y_start >= div {
            proof {
                assert forall|i: int| 0 <= i < n implies !poke_hits(d, x0, y0, i) by {
                    lemma_flat_index(d, i);
                }
            }
            return;
        }
        assert(div + 5 <= usize::MAX) by (nonlinear_arith)
            requires
                1 <= div as int,
                div as int * div as int * 16 <= usize::MAX as int,
        ;

        let y_end = if y_start + 5 < div {
            y_start + 5
        } else {
            div
        };
        let x_end = if x_start + 5 < div {
            x_start + 5
        } else {
            div
        };

        let mut y = y_start;
        while y < y_end
            invariant
                self.divisions == div,
                d == div as int,
                1 <= d,
                d * d * 16 <= usize::MAX,
                n == d * d,
                orig.len() == n,
                x0 == x_start as int,
                y0 == y_start as int,
                x_start < div,
                y_start <= y <= y_end,
                y_end <= y_start + 5,
                y_end <= div,
                y_end == y_start + 5 || y_end == div,
                x_end <= x_start + 5,
                x_end <= div,
                x_end == x_start + 5 || x_end == div,
                orig == old(self).current_state@,
                self.current_state@.len() == n,
                self.previous_state@ == old(self).previous_state@,
                self.damping == old(self).damping,
                forall|i: int|
                    0 <= i < n ==> #[trigger] self.current_state@[i] == (
                    if poke_hits(d, x0, y0, i) && i / d < y {
                        poked_cell(orig[i])
                    } else {
                        orig[i]
                    }),
            decreases y_end - y,
        {
            let mut x = x_start;
            while x < x_end
                invariant
                    self.divisions == div,
                    d == div as int,
                    1 <= d,
                    d * d * 16 <= usize::MAX,
                    n == d * d,
                    orig.len() == n,
                    x0 == x_start as int,
                    y0 == y_start as int,
                    x_start <= x <= x_end,
                    y_start <= y < y_end,
                    y_end <= y_start + 5,
                    y_end <= div,
                    x_end <= x_start + 5,
                    x_end <= div,
                    x_end == x_start + 5 || x_end == div,
                    orig == old(self).current_state@,
                    self.current_state@.len() == n,
                    self.previous_state@ == old(self).previous_state@,
                    self.damping == old(self).damping,
                    forall|i: int|
                        0 <= i < n ==> #[trigger] self.current_state@[i] == (
                        if poke_hits(d, x0, y0, i) && (i / d < y || (i / d == y && i % d < x)) {
                            poked_cell(orig[i])
                        } else {
                            orig[i]
                        }),
                decreases x_end - x,
            {
                proof {
                    assert(y as int * d + x < n) by (nonlinear_arith)
                        requires
                            n == d * d,
                            0 <= (x as int) && (x as int) < d,
                            0 <= (y as int) && (y as int) < d,
                    ;
                }
                let index = y * div + x;
                proof {
                    lemma_fundamental_div_mod_converse(index as int, d, y as int, x as int);
                }
                let mut c = self.current_state[index];
                c.value = f32_add(c.value, F32_ONE);
                self.current_state.set(index, c);
                proof {
                    assert forall|i: int| 0 <= i < n implies #[trigger] self.current_state@[i] == (
                    if poke_hits(d, x0, y0, i) && (i / d < y || (i / d == y && i % d < x + 1)) {
                        poked_cell(orig[i])
                    } else {
                        orig[i]
                    }) by {
                        lemma_flat_index(d, i);
                        if i == index {
                            assert(i % d == x as int && i / d == y as int);
                            assert(poke_hits(d, x0, y0, i));
                        }
                    }
                }
                x = x + 1;
            }
            proof {
                assert forall|i: int| 0 <= i < n implies #[trigger] self.current_state@[i] == (
                if poke_hits(d, x0, y0, i) && i / d < y + 1 {
                    poked_cell(orig[i])
                } else {
                    orig[i]
                }) by {
                    lemma_flat_index(d, i);
                    assert(self.current_state@[i] == (
                    if poke_hits(d, x0, y0, i) && (i / d < y || (i / d == y && i % d < x)) {
                        poked_cell(orig[i])
                    } else {
                        orig[i]
                    }));
                }
            }
            y = y + 1;
        }
        proof {
            assert forall|i: int| 0 <= i < n implies #[trigger] self.current_state@[i] == (
            if poke_hits(d, x0, y0, i) {
                poked_cell(orig[i])
            } else {
                orig[i]
            }) by {
                lemma_flat_index(d, i);
                assert(self.current_state@[i] == (
                if poke_hits(d, x0, y0, i) && i / d < y {
                    poked_cell(orig[i])
                } else {
                    orig[i]
                }));
            }
        }
    }

    /// Excite the grid at a point given in normalized coordinates. Each
    /// component is the bit pattern of a coordinate meant to lie in
    /// `[0.0, 1.0]`; out-of-range and NaN patterns are silently clamped,
    /// never rejected. The point is scaled to a grid coordinate,
    /// truncated toward zero and capped at the last cell, and the 5 by 5
    /// excitation block is applied there.
    pub fn poke_normalized(&mut self, point: (u32, u32))
        requires
            old(self).wf(),
        ensures
            final(self).wf(),
            final(self).dim() == old(self).dim(),
            final(self).damping_bits() == old(self).damping_bits(),
            final(self).prev_cells() == old(self).prev_cells(),
            forall|i: int|
                0 <= i < old(self).cells().len() ==> #[trigger] final(self).cells()[i] == (
                if poke_hits(
                    old(self).dim(),
                    norm_coord(old(self).dim(), point.0),
                    norm_coord(old(self).dim(), point.1),
                    i,
                ) {
                    poked_cell(old(self).cells()[i])
                } else {
                    old(self).cells()[i]
                }),
    {
        let div = self.divisions;
        assert(div as int <= i64::MAX) by (nonlinear_arith)
            requires
                1 <= div as int,
                div as int * div as int * 16 <= usize::MAX as int,
        ;
        let scale = f32_from_i64(div as i64);
        let tx = f32_trunc(f32_mul(clamp01(point.0), scale), 32);
        let ty = f32_trunc(f32_mul(clamp01(point.1), scale), 32);
        let x = if tx >= (div - 1) as u64 {
            div - 1
        } else {
            tx as usize
        };
        let y = if ty >= (div - 1) as u64 {
            div - 1
        } else {
            ty as usize
        };
        assert(x as int == norm_coord(self.dim(), point.0));
        assert(y as int == norm_coord(self.dim(), point.1));
        self.poke(x, y);
    }

    /// Set the transmissivity pattern of the cell at `(x, y)` in both
    /// buffers, so that the change is visible to the next tick whichever
    /// buffer it reads. Coordinates outside the grid are silently
    /// ignored.
    pub fn set_medium(&mut self, x: usize, y: usize, medium: u32)
        requires
            old(self).wf(),
        ensures
            final(self).wf(),
            final(self).dim() == old(self).dim(),
            final(self).damping_bits() == old(self).damping_bits(),
            x < old(self).dim() && y < old(self).dim() ==> {
                &&& final(self).cells() == old(self).cells().update(
                    y * old(self).dim() + x,
                    with_medium(old(self).cells()[y * old(self).dim() + x], medium),
                )
                &&& final(self).prev_cells() == old(self).prev_cells().update(
                    y * old(self).dim() + x,
                    with_medium(old(self).prev_cells()[y * old(self).dim() + x], medium),
                )
            },
            !(x < old(self).dim() && y < old(self).dim()) ==> {
                &&& final(self).cells() == old(self).cells()
                &&& final(self).prev_cells() == old(self).prev_cells()
            },
    {
        let div = self.divisions;
        if x < div && y < div {
            proof {
                assert(y as int * (div as int) + x < div as int * (div as int)) by (
                nonlinear_arith)
                    requires
                        0 <= (x as int) && (x as int) < div as int,
                        0 <= (y as int) && (y as int) < div as int,
                ;
            }
            let index = y * div + x;
            let mut c = self.current_state[index];
            c.medium = medium;
            self.current_state.set(index, c);
            let mut p = self.previous_state[index];
            p.medium = medium;
            self.previous_state.set(index, p);
        }
    }

    /// Read a neighbour's height from the previous tick's snapshot,
    /// clamped to be non-negative: negative transients may exist locally
    /// but do not spread to their neighbours.
    fn get_value(&self, x: usize, y: usize) -> (r: u32)
        requires
            self.wf(),
            x < self.dim(),
            y < self.dim(),
        ensures
            r == nonneg_part_bits(self.prev_cells()[y * self.dim() + x].value),
    {
        proof {
            assert(y as int * self.dim() + x < self.dim() * self.dim()) by (nonlinear_arith)
                requires
                    0 <= (x as int) && (x as int) < self.dim(),
                    0 <= (y as int) && (y as int) < self.dim(),
            ;
        }
        nonneg_part(self.previous_state[y * self.divisions + x].value)
    }

    /// Advance the simulation by one tick. The buffers are swapped, so
    /// last tick's cells become the snapshot that every stencil read
    /// uses, and every cell of the new current buffer is recomputed from
    /// that snapshot alone: the result cannot depend on the order in
    /// which cells are visited. Cells whose transmissivity compares below
    /// zero are forced to rest, whatever their neighbours hold.
    pub fn advance(&mut self)
        requires
            old(self).wf(),
        ensures
            final(self).wf(),
            final(self).dim() == old(self).dim(),
            final(self).damping_bits() == old(self).damping_bits(),
            final(self).prev_cells() == old(self).cells(),
            forall|i: int|
                0 <= i < old(self).cells().len() ==> #[trigger] final(self).cells()[i]
                    == advanced_cell(
                    old(self).cells(),
                    old(self).prev_cells()[i],
                    old(self).dim(),
                    old(self).damping_bits(),
                    i,
                ),
            forall|i: int|
                0 <= i < old(self).cells().len() && !is_nonneg_bits(old(self).cells()[i].medium)
                    ==> (#[trigger] final(self).cells()[i]).value == F32_ZERO
                        && final(self).cells()[i].velocity == F32_ZERO,
    {
        std::mem::swap(&mut self.current_state, &mut self.previous_state);
        let div = self.divisions;
        let ghost d = div as int;
        let ghost n_spec = d * d;
        let ghost snapshot = self.previous_state@;
        let ghost stale = self.current_state@;
        let n = self.current_state.len();
        let mut i: usize = 0;
        while i < n
            invariant
                self.divisions == div,
                d == div as int,
                1 <= d,
                d * d * 16 <= usize::MAX,
                n == n_spec,
                n_spec == d * d,
                i <= n,
                snapshot == old(self).current_state@,
                stale == old(self).previous_state@,
                snapshot.len() == n_spec,
                stale.len() == n_spec,
                self.previous_state@ == snapshot,
                self.current_state@.len() == n_spec,
                self.damping == old(self).damping,
                forall|j: int|
                    0 <= j < i ==> #[trigger] self.current_state@[j] == advanced_cell(
                        snapshot,
                        stale[j],
                        d,
                        old(self).damping,
                        j,
                    ),
                forall|j: int| i <= j < n_spec ==> #[trigger] self.current_state@[j] == stale[j],
            decreases n - i,
        {
            proof {
                lemma_flat_index(d, i as int);
                assert((i as int / d - 1) * d == i as int / d * d - d) by (nonlinear_arith);
                assert((i as int / d + 1) * d == i as int / d * d + d) by (nonlinear_arith);
            }
            let x = i % div;
            let y = i / div;
            let p = self.previous_state[i];
            let mut c = self.current_state[i];
            if is_nonneg(p.medium) {
                let value = p.value;
                let vel = p.velocity;
                let mut target = p.medium;
                let mut mid = F32_ZERO;
                if x != 0 {
                    mid = f32_add(mid, self.get_value(x - 1, y));
                }
                if x != div - 1 {
                    mid = f32_add(mid, self.get_value(x + 1, y));
                }
                if y != 0 {
                    mid = f32_add(mid, self.get_value(x, y - 1));
                }
                if y != div - 1 {
                    mid = f32_add(mid, self.get_value(x, y + 1));
                }
                mid = f32_div(mid, F32_FOUR);
                target = f32_mul(target, F32_THREE_HALVES);
                let new_vel = f32_add(
                    f32_mul(target, f32_sub(mid, value)),
                    f32_mul(vel, self.damping),
                );
                let new_value = f32_add(value, new_vel);
                c.value = new_value;
                c.velocity = new_vel;
                assert(mid == stencil_mid(snapshot, d, i as int));
            } else {
                c.value = F32_ZERO;
                c.velocity = F32_ZERO;
            }
            self.current_state.set(i, c);
            assert(self.current_state@[i as int] == advanced_cell(
                snapshot,
                stale[i as int],
                d,
                old(self).damping,
                i as int,
            ));
            i = i + 1;
        }
    }

    /// Serialize the current buffer together with the side length. The
    /// bytes are row-major cells, each cell four packed little-endian
    /// 32-bit fields in the order value, velocity, medium, extra —
    /// always exactly `dim * dim * 16` bytes. The copy belongs to the
    /// caller; the engine's own buffers are not retained behind it.
    pub fn current_state(&self) -> (r: (u32, Vec<u8>))
        requires
            self.wf(),
        ensures
            r.0 == self.dim(),
            r.1@ == state_bytes(self.cells()),
            r.1@.len() == self.dim() * self.dim() * 16,
    {
        proof {
            assert(self.dim() <= u32::MAX) by (nonlinear_arith)
                requires
                    1 <= self.dim(),
                    self.dim() * self.dim() * 16 <= usize::MAX as int,
            ;
        }
        let n = self.current_state.len();
        let mut out: Vec<u8> = Vec::new();
        let mut i: usize = 0;
        while i < n
            invariant
                n == self.cells().len(),
                i <= n,
                out@ == state_bytes(self.cells().take(i as int)),
                out@.len() == 16 * i,
            decreases n - i,
        {
            let c = self.current_state[i];
            push_word(&mut out, c.value);
            push_word(&mut out, c.velocity);
            push_word(&mut out, c.medium);
            push_word(&mut out, c.extra);
            proof {
                let cs = self.cells();
                assert(cs.take(i + 1).drop_last() =~= cs.take(i as int));
                assert(cs.take(i + 1).last() == cs[i as int]);
                assert(out@ =~= state_bytes(cs.take(i as int)) + cell_bytes(cs[i as int]));
            }
            i = i + 1;
        }
        proof {
            assert(self.cells().take(n as int) =~= self.cells());
            lemma_state_bytes_len(self.cells());
        }
        (self.divisions as u32, out)
    }
}

/// The four little-endian bytes of a 32-bit pattern.
pub open spec fn le_bytes(w: u32) -> Seq<u8> {
    seq![
        (w & 0xFF) as u8,
        ((w >> 8) & 0xFF) as u8,
        ((w >> 16) & 0xFF) as u8,
        ((w >> 24) & 0xFF) as u8,
    ]
}

/// The 16 bytes of one cell: four packed little-endian 32-bit fields, in
/// the order value, velocity, medium, extra.
pub open spec fn cell_bytes(c: WavePoint) -> Seq<u8> {
    le_bytes(c.value) + le_bytes(c.velocity) + le_bytes(c.medium) + le_bytes(c.extra)
}

/// The raw byte serialization of a cell buffer: row-major cells, 16
/// bytes each.
pub open spec fn state_bytes(cells: Seq<WavePoint>) -> Seq<u8>
    decreases cells.len(),
{
    if cells.len() == 0 {
        Seq::empty()
    } else {
        state_bytes(cells.drop_last()) + cell_bytes(cells.last())
    }
}

/// The serialized state of `n` cells is exactly `16 * n` bytes.
pub proof fn lemma_state_bytes_len(cells: Seq<WavePoint>)
    ensures
        state_bytes(cells).len() == 16 * cells.len(),
    decreases cells.len(),
{
    if cells.len() > 0 {
        lemma_state_bytes_len(cells.drop_last());
    }
}

/// A 32-bit pattern reassembled from four little-endian bytes.
pub open spec fn word_from_bytes(b0: u8, b1: u8, b2: u8, b3: u8) -> u32 {
    b0 as u32 | (b1 as u32) << 8 | (b2 as u32) << 16 | (b3 as u32) << 24
}

/// One cell read back from its 16-byte record.
pub open spec fn cell_from_bytes(b: Seq<u8>) -> WavePoint
    recommends
        b.len() == 16,
{
    WavePoint {
        value: word_from_bytes(b[0], b[1], b[2], b[3]),
        velocity: word_from_bytes(b[4], b[5], b[6], b[7]),
        medium: word_from_bytes(b[8], b[9], b[10], b[11]),
        extra: word_from_bytes(b[12], b[13], b[14], b[15]),
    }
}

/// The cells encoded in a serialized state buffer, read 16 bytes at a
/// time. A trailing fragment shorter than one record is impossible in a
/// well-formed buffer and is ignored here.
pub open spec fn decoded_cells(bytes: Seq<u8>) -> Seq<WavePoint>
    decreases bytes.len(),
{
    if bytes.len() < 16 {
        Seq::empty()
    } else {
        decoded_cells(bytes.take(bytes.len() - 16)).push(
            cell_from_bytes(bytes.skip(bytes.len() - 16)),
        )
    }
}

/// Reassembling the four little-endian bytes of a pattern gives the
/// pattern back.
proof fn lemma_word_round_trip(w: u32)
    ensures
        word_from_bytes(
            (w & 0xFF) as u8,
            ((w >> 8) & 0xFF) as u8,
            ((w >> 16) & 0xFF) as u8,
            ((w >> 24) & 0xFF) as u8,
        ) == w,
{
    assert((w & 0xFF) as u8 as u32 | (((w >> 8) & 0xFF) as u8 as u32) << 8 | (((w >> 16)
        & 0xFF) as u8 as u32) << 16 | (((w >> 24) & 0xFF) as u8 as u32) << 24 == w)
        by (bit_vector);
}

/// Reading a cell's 16-byte record back gives the cell.
proof fn lemma_cell_round_trip(c: WavePoint)
    ensures
        cell_from_bytes(cell_bytes(c)) == c,
{
    lemma_word_round_trip(c.value);
    lemma_word_round_trip(c.velocity);
    lemma_word_round_trip(c.medium);
    lemma_word_round_trip(c.extra);
}

/// Round trip: decoding the documented byte serialization of any cell
/// buffer reconstructs the same `(value, velocity, medium, extra)`
/// pattern for every cell.
pub proof fn lemma_state_round_trip(cells: Seq<WavePoint>)
    ensures
        decoded_cells(state_bytes(cells)) == cells,
    decreases cells.len(),
{
    lemma_state_bytes_len(cells);
    if cells.len() == 0 {
        assert(decoded_cells(state_bytes(cells)) =~= cells);
    } else {
        lemma_state_round_trip(cells.drop_last());
        lemma_state_bytes_len(cells.drop_last());
        let bs = state_bytes(cells);
        assert(bs.take(bs.len() - 16) =~= state_bytes(cells.drop_last()));
        assert(bs.skip(bs.len() - 16) =~= cell_bytes(cells.last()));
        lemma_cell_round_trip(cells.last());
        assert(decoded_cells(bs) =~= cells);
    }
}

/// Append the four little-endian bytes of a 32-bit pattern.
fn push_word(out: &mut Vec<u8>, w: u32)
    ensures
        final(out)@ == old(out)@ + le_bytes(w),
{
    out.push((w & 0xFF) as u8);
    out.push(((w >> 8) & 0xFF) as u8);
    out.push(((w >> 16) & 0xFF) as u8);
    out.push(((w >> 24) & 0xFF) as u8);
    assert(out@ =~= old(out)@ + le_bytes(w));
}

/// Read one little-endian 32-bit field at byte offset `at`.
fn read_word(bytes: &Vec<u8>, at: usize) -> (w: u32)
    requires
        at + 4 <= bytes@.len(),
    ensures
        w == word_from_bytes(
            bytes@[at as int],
            bytes@[at as int + 1],
            bytes@[at as int + 2],
            bytes@[at as int + 3],
        ),
{
    let _len: usize = bytes.len();
    let b0 = bytes[at] as u32;
    let b1 = bytes[at + 1] as u32;
    let b2 = bytes[at + 2] as u32;
    let b3 = bytes[at + 3] as u32;
    b0 | b1 << 8 | b2 << 16 | b3 << 24
}

/// Read a serialized state buffer back into cells, following the
/// documented layout. A buffer whose length is not a whole number of
/// 16-byte records is rejected.
pub fn decode_state(bytes: &Vec<u8>) -> (r: Option<Vec<WavePoint>>)
    ensures
        bytes@.len() % 16 == 0 ==> r.is_some() && r.unwrap()@ == decoded_cells(bytes@),
        bytes@.len() % 16 != 0 ==> r.is_none(),
{
    let n = bytes.len();
    if n % 16 != 0 {
        return None;
    }
    let count = n / 16;
    proof {
        vstd::arithmetic::div_mod::lemma_fundamental_div_mod(n as int, 16);
    }
    let mut cells: Vec<WavePoint> = Vec::new();
    let mut k: usize = 0;
    while k < count
        invariant
            n == bytes@.len(),
            n % 16 == 0,
            count == n as int / 16,
            n == 16 * count,
            k <= count,
            cells@ == decoded_cells(bytes@.take(16 * k)),
            cells@.len() == k,
        decreases count - k,
    {
        let base = k * 16;
        let w0 = read_word(bytes, base);
        let w1 = read_word(bytes, base + 4);
        let w2 = read_word(bytes, base + 8);
        let w3 = read_word(bytes, base + 12);
        cells.push(WavePoint { value: w0, velocity: w1, medium: w2, extra: w3 });
        proof {
            let bs = bytes@;
            let t1 = bs.take(16 * (k + 1));
            assert(t1.take(t1.len() - 16) =~= bs.take(16 * k));
            assert(t1.skip(t1.len() - 16) =~= bs.subrange(16 * k, 16 * k + 16));
            assert(cell_from_bytes(t1.skip(t1.len() - 16)) == (WavePoint {
                value: w0,
                velocity: w1,
                medium: w2,
                extra: w3,
            }));
            assert(cells@ =~= decoded_cells(bs.take(16 * (k + 1))));
        }
        k = k + 1;
    }
    proof {
        assert(bytes@.take(16 * (count as int)) =~= bytes@);
    }
    Some(cells)
}

/// A buffer of `n` cells, each in the default state.
fn default_buffer(n: usize) -> (buf: Vec<WavePoint>)
    ensures
        buf@.len() == n,
        forall|i: int| 0 <= i < n ==> buf@[i] == default_cell(),
{
    let mut buf: Vec<WavePoint> = Vec::new();
    let mut k: usize = 0;
    while k < n
        invariant
            k <= n,
            buf@.len() == k,
            forall|i: int| 0 <= i < k ==> buf@[i] == default_cell(),
        decreases n - k,
    {
        buf.push(WavePoint::default());
        k = k + 1;
    }
    buf
}

} // verus!
