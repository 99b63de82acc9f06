//! The noise-displaced point-grid sketch: a static jittered grid of coloured
//! points, each drifting one screen unit per frame in a direction read from
//! a ridged noise field.
//!
//! The noise sample and the trigonometry that turns an angle into a unit
//! step live outside the crate; the logic here lays out the grid, maps raw
//! noise values to angles, and applies the per-point steps.

use vstd::prelude::*;

use crate::geom::{add_clamped, in_coord_range, Vec2i};
use crate::grid::{grid_ok, grid_points, GridPoint};

verus! {

/// Grid spacing: thirty screen units.
pub const GRID_SPACING: i64 = 30_000;

/// The sketch's state: the grid points.
#[derive(Debug)]
pub struct Model {
    pub points: Vec<GridPoint>,
}

/// Every point's position is representable.
pub open spec fn model_wf(m: Model) -> bool {
    forall|k: int| 0 <= k < m.points@.len() ==> in_coord_range((#[trigger] m.points@[k]).pos)
}

/// Maps a raw noise value in `[-1, 1]` (thousandths) to the drift angle in
/// thousandths of a degree: a full turn either way.
pub fn noise_angle_millideg(v: i64) -> (r: i64)
    requires
        -1000 <= v <= 1000,
    ensures
        r == 360 * v,
        -360_000 <= r <= 360_000,
{
    360 * v
}

/// Builds the initial model for a `w` by `h` window: a jittered grid with
/// [`GRID_SPACING`], lightness drawn from `[0.6, 1)`.
pub fn init_model(w: i64, h: i64) -> (r: Model)
    requires
        0 <= w <= 30_000_000,
        0 <= h <= 30_000_000,
    ensures
        r.points@.len() == (h / GRID_SPACING) * (w / GRID_SPACING),
        forall|k: int|
            0 <= k < r.points@.len() ==> grid_ok(
                #[trigger] r.points@[k],
                k / (w / GRID_SPACING),
                k % (w / GRID_SPACING),
                w as int,
                h as int,
                GRID_SPACING as int,
                600,
            ),
        model_wf(r),
{
    proof {
        vstd::arithmetic::div_mod::lemma_div_is_ordered(w as int, 30_000_000, 30_000);
        vstd::arithmetic::div_mod::lemma_div_is_ordered(h as int, 30_000_000, 30_000);
        vstd::arithmetic::div_mod::lemma_div_pos_is_pos(w as int, 30_000);
        vstd::arithmetic::div_mod::lemma_div_pos_is_pos(h as int, 30_000);
        assert((h as int / 30_000) * (w as int / 30_000) <= 1_000_000) by (nonlinear_arith)
            requires
                0 <= h as int / 30_000 <= 1000,
                0 <= w as int / 30_000 <= 1000,
        ;
    }
    let points: Vec<GridPoint> = grid_points(w, h, GRID_SPACING, 600);
    let m: Model = Model { points };
    proof {
        let hsteps = w as int / GRID_SPACING as int;
        let vsteps = h as int / GRID_SPACING as int;
        assert forall|k: int| 0 <= k < m.points@.len() implies in_coord_range(
            (#[trigger] m.points@[k]).pos,
        ) by {
            assert(grid_ok(m.points@[k], k / hsteps, k % hsteps, w as int, h as int,
                GRID_SPACING as int, 600));
            assert(vsteps * hsteps == hsteps * vsteps) by (nonlinear_arith);
            assert(hsteps >= 1) by (nonlinear_arith)
                requires
                    k < vsteps * hsteps,
                    k >= 0,
                    hsteps >= 0,
            ;
            vstd::arithmetic::div_mod::lemma_div_pos_is_pos(k, hsteps);
            vstd::arithmetic::div_mod::lemma_multiply_divide_lt(k, hsteps, vsteps);
            crate::geom::lemma_mul_abs_bound(k % hsteps, GRID_SPACING as int, 1000, 30_000);
            crate::geom::lemma_mul_abs_bound(k / hsteps, GRID_SPACING as int, 1000, 30_000);
        }
    }
    m
}

/// Advances every point by its drift step for this frame, computed outside
/// from the noise field; a point whose step would leave the representable
/// range stays put.
pub fn advance_points(m: &mut Model, steps: &Vec<Vec2i>)
    requires
        model_wf(*old(m)),
        steps@.len() == old(m).points@.len(),
        forall|k: int|
            0 <= k < steps@.len() ==> -2000 <= (#[trigger] steps@[k]).x <= 2000 && -2000
                <= steps@[k].y <= 2000,
    ensures
        model_wf(*final(m)),
        final(m).points@.len() == old(m).points@.len(),
        forall|k: int|
            0 <= k < final(m).points@.len() ==> (#[trigger] final(m).points@[k]).pos
                == crate::geom::spec_add_clamped(old(m).points@[k].pos, steps@[k])
                && final(m).points@[k].color == old(m).points@[k].color,
{
    let n: usize = m.points.len();
    let mut k: usize = 0;
    while k < n
        invariant
            k <= n,
            n == m.points@.len(),
            n == old(m).points@.len(),
            n == steps@.len(),
            model_wf(*old(m)),
            forall|i: int|
                0 <= i < n ==> -2000 <= (#[trigger] steps@[i]).x <= 2000 && -2000 <= steps@[i].y
                    <= 2000,
            forall|i: int| k <= i < n ==> #[trigger] m.points@[i] == old(m).points@[i],
            forall|i: int|
                0 <= i < k ==> (#[trigger] m.points@[i]).pos == crate::geom::spec_add_clamped(
                    old(m).points@[i].pos,
                    steps@[i],
                ) && m.points@[i].color == old(m).points@[i].color,
        decreases n - k,
    {
        let p: GridPoint = m.points[k];
        let np: Vec2i = add_clamped(p.pos, steps[k]);
        m.points.set(k, GridPoint { pos: np, color: p.color });
        k = k + 1;
    }
    proof {
        assert forall|i: int| 0 <= i < m.points@.len() implies in_coord_range(
            (#[trigger] m.points@[i]).pos,
        ) by {
            assert(m.points@[i].pos == crate::geom::spec_add_clamped(
                old(m).points@[i].pos,
                steps@[i],
            ));
        }
    }
}

} // verus!
