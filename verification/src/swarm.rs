//! The mouse-attracted trail-swarm sketch: a field of three-segment trails
//! whose heads step through a noise field nudged toward the pointer, with
//! followers easing toward the point ahead and an edge-wrap correction.
//!
//! The noise sample and trigonometry happen outside the crate and arrive as
//! a per-point displacement; everything else — easing, the wrap correction,
//! and the per-point independence that makes the update safe to spread over
//! all processor cores — is here.

use rayon::iter::IndexedParallelIterator;
use rayon::iter::IntoParallelRefIterator;
use rayon::iter::IntoParallelRefMutIterator;
use rayon::iter::ParallelIterator;
use vstd::prelude::*;

use crate::color::Hsl;
use crate::geom::{tdiv, Vec2i};
use crate::grid::{grid_ok, grid_points, GridPoint};

verus! {

/// Coordinates this far out stay representable through a whole update.
pub const SWARM_COORD_LIMIT: i64 = 500_000_000;

/// Largest per-frame head displacement accepted, in thousandths of a unit.
pub const SWARM_STEP_LIMIT: i64 = 10_000;

/// One trail: a head and two smoothed followers, and a fixed colour.
#[derive(Clone, Copy, PartialEq, Eq, Structural, Debug)]
pub struct SwarmPoint {
    pub head: Vec2i,
    pub mid: Vec2i,
    pub tail: Vec2i,
    pub color: Hsl,
}

/// The sketch's state: the swarm, the margin-reduced window size, and the
/// last known pointer position.
#[derive(Debug)]
pub struct Model {
    pub points: Vec<SwarmPoint>,
    pub h: i64,
    pub w: i64,
    pub mouse_pos: Option<Vec2i>,
}

/// The edge correction: a coordinate below its minimum wraps relative to
/// the maximum; one above the maximum is corrected once, relative to the
/// minimum.  The correction is what is *added* to the coordinate.
pub open spec fn spec_correct(v: int, min: int, max: int) -> int {
    if v < min {
        (max + (min - v)) - v
    } else if v > max {
        (min + (v - max)) - v
    } else {
        0
    }
}

/// The edge correction, executable.  A value above the maximum is corrected
/// at most once per frame, so a large single-frame overshoot may stay out
/// of range.
pub fn correct_to_range(v: i64, min: i64, max: i64) -> (c: i64)
    requires
        -2_000_000_000 <= v <= 2_000_000_000,
        -2_000_000_000 <= min <= 2_000_000_000,
        -2_000_000_000 <= max <= 2_000_000_000,
    ensures
        c == spec_correct(v as int, min as int, max as int),
{
    if v < min {
        let n: i64 = max + (min - v);
        n - v
    } else if v > max {
        let n: i64 = min + (v - max);
        n - v
    } else {
        0
    }
}

/// All three stored positions are within the swarm's coordinate bound.
pub open spec fn swarm_pt_ok(p: SwarmPoint) -> bool {
    &&& -SWARM_COORD_LIMIT <= p.head.x <= SWARM_COORD_LIMIT
    &&& -SWARM_COORD_LIMIT <= p.head.y <= SWARM_COORD_LIMIT
    &&& -SWARM_COORD_LIMIT <= p.mid.x <= SWARM_COORD_LIMIT
    &&& -SWARM_COORD_LIMIT <= p.mid.y <= SWARM_COORD_LIMIT
    &&& -SWARM_COORD_LIMIT <= p.tail.x <= SWARM_COORD_LIMIT
    &&& -SWARM_COORD_LIMIT <= p.tail.y <= SWARM_COORD_LIMIT
}

/// One trail's update: the head advances by `disp`, each follower eases
/// halfway toward the point ahead of it, and the correction computed from
/// the head alone is added to all three positions.
pub open spec fn spec_swarm_step(p: SwarmPoint, disp: Vec2i, w: int, h: int) -> SwarmPoint {
    let hx = p.head.x + disp.x;
    let hy = p.head.y + disp.y;
    let mx = p.mid.x + tdiv(hx - p.mid.x, 2);
    let my = p.mid.y + tdiv(hy - p.mid.y, 2);
    let tx = p.tail.x + tdiv(mx - p.tail.x, 2);
    let ty = p.tail.y + tdiv(my - p.tail.y, 2);
    let cx = spec_correct(hx, -(w / 2), w / 2);
    let cy = spec_correct(hy, -(h / 2), h / 2);
    SwarmPoint {
        head: Vec2i { x: (hx + cx) as i64, y: (hy + cy) as i64 },
        mid: Vec2i { x: (mx + cx) as i64, y: (my + cy) as i64 },
        tail: Vec2i { x: (tx + cx) as i64, y: (ty + cy) as i64 },
        color: p.color,
    }
}

/// The update applied to any trail: a trail out of the coordinate bound is
/// left untouched, every other one takes its step.
pub open spec fn spec_step_or_keep(p: SwarmPoint, disp: Vec2i, w: int, h: int) -> SwarmPoint {
    if swarm_pt_ok(p) {
        spec_swarm_step(p, disp, w, h)
    } else {
        p
    }
}

/// The whole swarm after one frame: each trail mapped independently.
pub open spec fn spec_swarm_map(
    s: Seq<SwarmPoint>,
    disps: Seq<Vec2i>,
    w: int,
    h: int,
) -> Seq<SwarmPoint> {
    Seq::new(s.len(), |i: int| spec_step_or_keep(s[i], disps[i], w, h))
}

/// One trail's update, executable.
pub fn swarm_step(p: SwarmPoint, disp: Vec2i, w: i64, h: i64) -> (r: SwarmPoint)
    requires
        -SWARM_STEP_LIMIT <= disp.x <= SWARM_STEP_LIMIT,
        -SWARM_STEP_LIMIT <= disp.y <= SWARM_STEP_LIMIT,
        0 <= w <= crate::geom::COORD_LIMIT,
        0 <= h <= crate::geom::COORD_LIMIT,
    ensures
        r == spec_step_or_keep(p, disp, w as int, h as int),
{
    let ok: bool = -SWARM_COORD_LIMIT <= p.head.x && p.head.x <= SWARM_COORD_LIMIT
        && -SWARM_COORD_LIMIT <= p.head.y && p.head.y <= SWARM_COORD_LIMIT
        && -SWARM_COORD_LIMIT <= p.mid.x && p.mid.x <= SWARM_COORD_LIMIT
        && -SWARM_COORD_LIMIT <= p.mid.y && p.mid.y <= SWARM_COORD_LIMIT
        && -SWARM_COORD_LIMIT <= p.tail.x && p.tail.x <= SWARM_COORD_LIMIT
        && -SWARM_COORD_LIMIT <= p.tail.y && p.tail.y <= SWARM_COORD_LIMIT;
    if !ok {
        return p;
    }
    let hx: i64 = p.head.x + disp.x;
    let hy: i64 = p.head.y + disp.y;
    let mx: i64 = p.mid.x + crate::geom::div_trunc(hx - p.mid.x, 2);
    let my: i64 = p.mid.y + crate::geom::div_trunc(hy - p.mid.y, 2);
    let tx: i64 = p.tail.x + crate::geom::div_trunc(mx - p.tail.x, 2);
    let ty: i64 = p.tail.y + crate::geom::div_trunc(my - p.tail.y, 2);
    let half_w: i64 = ((w as u64) / 2) as i64;
    let half_h: i64 = ((h as u64) / 2) as i64;
    let cx: i64 = correct_to_range(hx, -half_w, half_w);
    let cy: i64 = correct_to_range(hy, -half_h, half_h);
    SwarmPoint {
        head: Vec2i { x: hx + cx, y: hy + cy },
        mid: Vec2i { x: mx + cx, y: my + cy },
        tail: Vec2i { x: tx + cx, y: ty + cy },
        color: p.color,
    }
}

/// The whole swarm's per-frame update, sequential.
///
/// Each trail's new state depends only on its own old state and the shared
/// read-only inputs, never on another trail.
pub fn update_swarm(points: &mut Vec<SwarmPoint>, disps: &Vec<Vec2i>, w: i64, h: i64)
    requires
        disps@.len() == old(points)@.len(),
        forall|k: int|
            0 <= k < disps@.len() ==> -SWARM_STEP_LIMIT <= (#[trigger] disps@[k]).x
                <= SWARM_STEP_LIMIT && -SWARM_STEP_LIMIT <= disps@[k].y <= SWARM_STEP_LIMIT,
        0 <= w <= crate::geom::COORD_LIMIT,
        0 <= h <= crate::geom::COORD_LIMIT,
    ensures
        final (points)@ =~= spec_swarm_map(old(points)@, disps@, w as int, h as int),
{
    let n: usize = points.len();
    let mut k: usize = 0;
    while k < n
        invariant
            k <= n,
            n == points@.len(),
            n == old(points)@.len(),
            n == disps@.len(),
            forall|i: int|
                0 <= i < n ==> -SWARM_STEP_LIMIT <= (#[trigger] disps@[i]).x <= SWARM_STEP_LIMIT
                    && -SWARM_STEP_LIMIT <= disps@[i].y <= SWARM_STEP_LIMIT,
            0 <= w <= crate::geom::COORD_LIMIT,
            0 <= h <= crate::geom::COORD_LIMIT,
            forall|i: int| k <= i < n ==> #[trigger] points@[i] == old(points)@[i],
            forall|i: int|
                0 <= i < k ==> #[trigger] points@[i] == spec_step_or_keep(
                    old(points)@[i],
                    disps@[i],
                    w as int,
                    h as int,
                ),
        decreases n - k,
    {
        let p: SwarmPoint = points[k];
        let np: SwarmPoint = swarm_step(p, disps[k], w, h);
        points.set(k, np);
        k = k + 1;
    }
}

/// The whole swarm's per-frame update, spread over all processor cores.
///
/// Relies on `rayon::iter::ParallelIterator::for_each` over
/// `par_iter_mut().zip(..)`: the closure, which only calls the verified
/// [`swarm_step`], is applied to each trail exactly once, pairs each trail
/// with its own displacement by index, and nothing is shared mutably
/// between trails — so the outcome is the same as the sequential map,
/// however the work is scheduled.
#[verifier::external_body]
pub fn par_update_swarm(points: &mut Vec<SwarmPoint>, disps: &Vec<Vec2i>, w: i64, h: i64)
    requires
        disps@.len() == old(points)@.len(),
        forall|k: int|
            0 <= k < disps@.len() ==> -SWARM_STEP_LIMIT <= (#[trigger] disps@[k]).x
                <= SWARM_STEP_LIMIT && -SWARM_STEP_LIMIT <= disps@[k].y <= SWARM_STEP_LIMIT,
        0 <= w <= crate::geom::COORD_LIMIT,
        0 <= h <= crate::geom::COORD_LIMIT,
    ensures
        final (points)@ =~= spec_swarm_map(old(points)@, disps@, w as int, h as int),
{
    points
        .par_iter_mut()
        .zip(disps.par_iter())
        .for_each(|(p, d)| {
            *p = swarm_step(*p, *d, w, h);
        });
}

/// Law: the per-frame update is a pointwise map of each trail's own state,
/// so partitioning the swarm across workers any way and concatenating the
/// results gives exactly the sequential outcome.
pub proof fn lemma_swarm_update_partition(
    a: Seq<SwarmPoint>,
    b: Seq<SwarmPoint>,
    da: Seq<Vec2i>,
    db: Seq<Vec2i>,
    w: int,
    h: int,
)
    requires
        da.len() == a.len(),
        db.len() == b.len(),
    ensures
        spec_swarm_map(a + b, da + db, w, h) =~= spec_swarm_map(a, da, w, h) + spec_swarm_map(
            b,
            db,
            w,
            h,
        ),
{
    assert forall|i: int| 0 <= i < a.len() + b.len() implies spec_swarm_map(
        a + b,
        da + db,
        w,
        h,
    )[i] == (spec_swarm_map(a, da, w, h) + spec_swarm_map(b, db, w, h))[i] by {
        if i < a.len() {
            assert((a + b)[i] == a[i]);
            assert((da + db)[i] == da[i]);
        } else {
            assert((a + b)[i] == b[i - a.len()]);
            assert((da + db)[i] == db[i - a.len()]);
        }
    }
}

/// Builds the initial model for a `w` by `h` window: twenty units of margin
/// are taken off each dimension, and the swarm starts as a jittered grid
/// with fifteen-unit spacing, saturation and lightness both in `[0.3, 1)`,
/// every trail collapsed onto its grid point.
pub fn init_model(w: i64, h: i64) -> (r: Model)
    requires
        20_000 <= w <= 15_020_000,
        20_000 <= h <= 15_020_000,
    ensures
        r.w == w - 20_000,
        r.h == h - 20_000,
        r.mouse_pos is None,
        r.points@.len() == ((h - 20_000) / 15_000) * ((w - 20_000) / 15_000),
        forall|k: int|
            0 <= k < r.points@.len() ==> (#[trigger] r.points@[k]).mid == r.points@[k].head
                && r.points@[k].tail == r.points@[k].head,
        forall|k: int|
            0 <= k < r.points@.len() ==> grid_ok(
                (GridPoint { pos: (#[trigger] r.points@[k]).head, color: r.points@[k].color }),
                k / ((w - 20_000) / 15_000),
                k % ((w - 20_000) / 15_000),
                w - 20_000,
                h - 20_000,
                15_000,
                300,
            ),
{
    let wi: i64 = w - 20_000;
    let hi: i64 = h - 20_000;
    proof {
        vstd::arithmetic::div_mod::lemma_div_is_ordered(wi as int, 15_000_000, 15_000);
        vstd::arithmetic::div_mod::lemma_div_is_ordered(hi as int, 15_000_000, 15_000);
        vstd::arithmetic::div_mod::lemma_div_pos_is_pos(wi as int, 15_000);
        vstd::arithmetic::div_mod::lemma_div_pos_is_pos(hi as int, 15_000);
        assert((hi as int / 15_000) * (wi as int / 15_000) <= 1_000_000) by (nonlinear_arith)
            requires
                0 <= hi as int / 15_000 <= 1000,
                0 <= wi as int / 15_000 <= 1000,
        ;
    }
    let grid: Vec<GridPoint> = grid_points(wi, hi, 15_000, 300);
    let mut points: Vec<SwarmPoint> = Vec::new();
    let mut k: usize = 0;
    while k < grid.len()
        invariant
            k <= grid@.len(),
            points@.len() == k,
            forall|i: int|
                0 <= i < k ==> (#[trigger] points@[i]).head == grid@[i].pos && points@[i].mid
                    == grid@[i].pos && points@[i].tail == grid@[i].pos && points@[i].color
                    == grid@[i].color,
        decreases grid@.len() - k,
    {
        let g: GridPoint = grid[k];
        points.push(SwarmPoint { head: g.pos, mid: g.pos, tail: g.pos, color: g.color });
        k = k + 1;
    }
    let m: Model = Model { points, h: hi, w: wi, mouse_pos: None };
    proof {
        let cols = (w - 20_000) as int / 15_000;
        assert forall|k: int| 0 <= k < m.points@.len() implies grid_ok(
            (GridPoint { pos: (#[trigger] m.points@[k]).head, color: m.points@[k].color }),
            k / cols,
            k % cols,
            w - 20_000,
            h - 20_000,
            15_000,
            300,
        ) by {
            assert(grid_ok(grid@[k], k / cols, k % cols, wi as int, hi as int, 15_000, 300));
            assert((GridPoint { pos: m.points@[k].head, color: m.points@[k].color }) == grid@[k]);
        }
    }
    m
}

impl Model {
    /// Applies one input event: only pointer moves matter to this sketch.
    pub fn event(&mut self, ev: crate::events::InputEvent)
        ensures
            final (self).points == old(self).points,
            final (self).w == old(self).w,
            final (self).h == old(self).h,
            ev matches crate::events::InputEvent::MouseMoved(p) ==> final (self).mouse_pos
                == Some(p),
            !(ev is MouseMoved) ==> final (self).mouse_pos == old(self).mouse_pos,
    {
        match ev {
            crate::events::InputEvent::MouseMoved(p) => {
                self.mouse_pos = Some(p);
            },
            _ => {},
        }
    }

    /// The pointer position the update steers toward: the last known one,
    /// or the origin before the pointer has ever moved.
    pub fn mouse_or_origin(&self) -> (r: Vec2i)
        ensures
            r == (match self.mouse_pos {
                Some(p) => p,
                None => Vec2i { x: 0, y: 0 },
            }),
    {
        match self.mouse_pos {
            Some(p) => p,
            None => Vec2i { x: 0, y: 0 },
        }
    }
}

/// The trail alpha ramp: the head is drawn almost opaque and each follower
/// fainter, `(3 - index) * 0.33` of full.
pub fn trail_alpha_permille(index: u64) -> (r: i64)
    requires
        index < 3,
    ensures
        r == (3 - index) * 330,
{
    ((3 - index) as i64) * 330
}

} // verus!
