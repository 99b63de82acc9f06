//! Jittered point-grid initialisation shared by the point-grid and swarm
//! sketches: lattice points covering the window, each nudged by a bounded
//! random offset and given a random colour.

use vstd::prelude::*;

use crate::color::Hsl;
use crate::geom::Vec2i;
use crate::rng::rand_in_range;

verus! {

/// Jitter half-width applied to each lattice coordinate: three screen units.
pub const GRID_JITTER: i64 = 3000;

/// One grid point: a position and its colour.
#[derive(Clone, Copy, PartialEq, Eq, Structural, Debug)]
pub struct GridPoint {
    pub pos: Vec2i,
    pub color: Hsl,
}

/// The point for lattice cell `(i, j)` sits within the jitter of the
/// lattice position, and its colour lies in the requested bands.
pub open spec fn grid_ok(
    p: GridPoint,
    i: int,
    j: int,
    w: int,
    h: int,
    spacing: int,
    light_lo: int,
) -> bool {
    &&& -GRID_JITTER <= p.pos.x - (j * spacing - w / 2 + 4000) <= GRID_JITTER
    &&& -GRID_JITTER <= p.pos.y - (i * spacing - h / 2 - 4000) <= GRID_JITTER
    &&& 0 <= p.color.hue_millideg < 360_000
    &&& 300 <= p.color.sat_permille < 1000
    &&& light_lo <= p.color.light_permille < 1000
}

/// Lays out the grid for a `w` by `h` region: one point per lattice cell of
/// the given spacing, row by row, each jittered by up to [`GRID_JITTER`] on
/// both axes, hue uniform over the turn, saturation in `[0.3, 1)` and
/// lightness in `[light_lo / 1000, 1)`.
///
/// There are exactly `floor(h / spacing)` rows of `floor(w / spacing)`
/// points each.
#[verifier::loop_isolation(false)]
pub fn grid_points(w: i64, h: i64, spacing: i64, light_lo: i64) -> (out: Vec<GridPoint>)
    requires
        1000 <= spacing <= crate::geom::COORD_LIMIT,
        0 <= w <= crate::geom::COORD_LIMIT,
        0 <= h <= crate::geom::COORD_LIMIT,
        (h / spacing) * (w / spacing) <= 1_000_000,
        0 <= light_lo < 1000,
    ensures
        out@.len() == (h / spacing) * (w / spacing),
        forall|k: int|
            0 <= k < out@.len() ==> grid_ok(
                #[trigger] out@[k],
                k / (w / spacing),
                k % (w / spacing),
                w as int,
                h as int,
                spacing as int,
                light_lo as int,
            ),
{
    let vertical_steps: usize = (((h as u64) / (spacing as u64)) as u64) as usize;
    let horizontal_steps: usize = (((w as u64) / (spacing as u64)) as u64) as usize;
    let mut out: Vec<GridPoint> = Vec::new();
    proof {
        assert(vertical_steps * horizontal_steps <= 1_000_000);
        vstd::arithmetic::div_mod::lemma_div_is_ordered_by_denominator(w as int, 1000, spacing as int);
        vstd::arithmetic::div_mod::lemma_div_is_ordered(w as int, 1_000_000_000, 1000);
        vstd::arithmetic::div_mod::lemma_div_is_ordered_by_denominator(h as int, 1000, spacing as int);
        vstd::arithmetic::div_mod::lemma_div_is_ordered(h as int, 1_000_000_000, 1000);
        assert(horizontal_steps <= 1_000_000);
        assert(vertical_steps <= 1_000_000);
    }
    if horizontal_steps == 0 {
        proof {
            assert((h as int / spacing as int) * 0 == 0) by (nonlinear_arith);
        }
        return out;
    }
    let mut i: usize = 0;
    while i < vertical_steps
        invariant
            i <= vertical_steps,
            out@.len() == i * horizontal_steps,
            forall|k: int|
                0 <= k < out@.len() ==> grid_ok(
                    #[trigger] out@[k],
                    k / (horizontal_steps as int),
                    k % (horizontal_steps as int),
                    w as int,
                    h as int,
                    spacing as int,
                    light_lo as int,
                ),
        decreases vertical_steps - i,
    {
        let mut j: usize = 0;
        while j < horizontal_steps
            invariant
                i < vertical_steps,
                j <= horizontal_steps,
                out@.len() == i * horizontal_steps + j,
                forall|k: int|
                    0 <= k < out@.len() ==> grid_ok(
                        #[trigger] out@[k],
                        k / (horizontal_steps as int),
                        k % (horizontal_steps as int),
                        w as int,
                        h as int,
                        spacing as int,
                        light_lo as int,
                    ),
            decreases horizontal_steps - j,
        {
            proof {
                crate::geom::lemma_mul_abs_bound(
                    j as int,
                    spacing as int,
                    1_000_000,
                    1_000_000_000,
                );
                crate::geom::lemma_mul_abs_bound(
                    i as int,
                    spacing as int,
                    1_000_000,
                    1_000_000_000,
                );
                assert(j * spacing <= w) by (nonlinear_arith)
                    requires
                        0 <= j < horizontal_steps,
                        horizontal_steps == w as int / spacing as int,
                        spacing >= 1,
                        w >= 0,
                ;
                assert(i * spacing <= h) by (nonlinear_arith)
                    requires
                        0 <= i < vertical_steps,
                        vertical_steps == h as int / spacing as int,
                        spacing >= 1,
                        h >= 0,
                ;
            }
            let jx: i64 = rand_in_range(-GRID_JITTER, GRID_JITTER + 1);
            let jy: i64 = rand_in_range(-GRID_JITTER, GRID_JITTER + 1);
            let px: i64 = (j as i64) * spacing + jx - ((w as u64 / 2) as i64) + 4000;
            let py: i64 = (i as i64) * spacing + jy - ((h as u64 / 2) as i64) - 4000;
            let color: Hsl = Hsl {
                hue_millideg: rand_in_range(0, 360_000),
                sat_permille: rand_in_range(300, 1000),
                light_permille: rand_in_range(light_lo, 1000),
            };
            let p: GridPoint = GridPoint { pos: Vec2i { x: px, y: py }, color };
            let ghost k0 = out@.len() as int;
            out.push(p);
            proof {
                vstd::arithmetic::div_mod::lemma_fundamental_div_mod_converse(
                    k0,
                    horizontal_steps as int,
                    i as int,
                    j as int,
                );
                assert(grid_ok(
                    p,
                    i as int,
                    j as int,
                    w as int,
                    h as int,
                    spacing as int,
                    light_lo as int,
                ));
            }
            j = j + 1;
        }
        i = i + 1;
        proof {
            assert(i * horizontal_steps == (i - 1) * horizontal_steps + horizontal_steps)
                by (nonlinear_arith);
        }
    }
    proof {
        assert(vertical_steps * horizontal_steps == (h as int / spacing as int) * (w as int
            / spacing as int));
    }
    out
}

} // verus!
