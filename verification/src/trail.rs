//! The growing light-trail sketch: rays spawned at the pointer on a click,
//! each advancing by its own speed, re-steering at random from a noise
//! field, and bouncing off the window edges.
//!
//! Noise sampling and the trigonometry that turns an angle into a rotation
//! live outside the crate; the per-frame movement, the steering decision,
//! the bounce rule and the spawn parameters are all here.

use vstd::prelude::*;

use crate::color::Hsl;
use crate::geom::{
    in_coord_range, is_unit, norm_sq, normalize, spec_add_clamped, Vec2i, COORD_LIMIT, UNIT,
};
use crate::rng::{rand_below, rand_in_range};

verus! {

/// One light ray: where it is, where it was, its colour, its unit-length
/// direction and its speed in thousandths of a unit per frame.
#[derive(Clone, Copy, PartialEq, Eq, Structural, Debug)]
pub struct TrailPoint {
    pub coords: Vec2i,
    pub coords_prev: Vec2i,
    pub color: Hsl,
    pub direction: Vec2i,
    pub speed: i64,
}

/// The sketch's state: the rays, the window size, and the last known
/// pointer position.
#[derive(Debug)]
pub struct Model {
    pub points: Vec<TrailPoint>,
    pub h: i64,
    pub w: i64,
    pub mouse_position: Option<Vec2i>,
}

/// A ray is usable: positions representable, direction in the unit band,
/// speed non-negative and bounded.
pub open spec fn trail_wf(p: TrailPoint) -> bool {
    &&& in_coord_range(p.coords)
    &&& in_coord_range(p.coords_prev)
    &&& is_unit(p.direction)
    &&& 0 <= p.speed <= 100_000
}

impl TrailPoint {
    /// Builds a ray at `starting_coords`: the direction is normalized on
    /// storage and a missing speed defaults to one unit per frame.
    pub fn new(starting_coords: Vec2i, color: Hsl, direction: Vec2i, speed: Option<i64>) -> (r:
        TrailPoint)
        requires
            in_coord_range(starting_coords),
            in_coord_range(direction),
            norm_sq(direction) != 0,
            speed matches Some(s) ==> 0 <= s <= 100_000,
        ensures
            trail_wf(r),
            r.coords == starting_coords,
            r.coords_prev == starting_coords,
            r.color == color,
            is_unit(r.direction),
            norm_sq(direction) == UNIT * UNIT ==> r.direction == direction,
            direction.x >= 0 ==> r.direction.x >= 0,
            direction.x <= 0 ==> r.direction.x <= 0,
            direction.y >= 0 ==> r.direction.y >= 0,
            direction.y <= 0 ==> r.direction.y <= 0,
            r.speed == (match speed {
                Some(s) => s as int,
                None => 1000int,
            }),
    {
        let sp: i64 = match speed {
            Some(s) => s,
            None => 1000,
        };
        TrailPoint {
            coords: starting_coords,
            coords_prev: starting_coords,
            color,
            direction: normalize(direction),
            speed: sp,
        }
    }
}

/// Records the previous position and advances the ray by its direction
/// times its speed; a step that would leave the representable range leaves
/// the position in place.  Returns whether this frame re-steers the ray,
/// which happens with probability one in ten.
pub fn advance_point(p: &mut TrailPoint) -> (steer: bool)
    requires
        trail_wf(*old(p)),
    ensures
        trail_wf(*final(p)),
        final(p).coords_prev == old(p).coords,
        final(p).coords == spec_add_clamped(
            old(p).coords,
            old(p).direction.scale_frac_spec(old(p).speed as int, 1000),
        ),
        final(p).direction == old(p).direction,
        final(p).color == old(p).color,
        final(p).speed == old(p).speed,
{
    proof {
        crate::geom::lemma_unit_bounds(p.direction);
    }
    p.coords_prev = p.coords;
    let step: Vec2i = p.direction.scale_frac(p.speed, UNIT);
    proof {
        crate::geom::lemma_mul_abs_bound(p.direction.x as int, p.speed as int, 2000, 100_000);
        crate::geom::lemma_mul_abs_bound(p.direction.y as int, p.speed as int, 2000, 100_000);
        crate::geom::lemma_tdiv_bound(p.direction.x * p.speed, 1000, 200_000_000);
        crate::geom::lemma_tdiv_bound(p.direction.y * p.speed, 1000, 200_000_000);
    }
    p.coords = crate::geom::add_clamped(p.coords, step);
    rand_below(1000) < 100
}

/// The steering angle for a raw noise value in `[-1, 1]` (thousandths):
/// up to fifteen hundredths of a turn either way, in thousandths of a
/// degree.
pub fn steer_angle_millideg(v: i64) -> (r: i64)
    requires
        -1000 <= v <= 1000,
    ensures
        r == 54 * v,
        -54_000 <= r <= 54_000,
{
    54 * v
}

/// Rotates the ray's direction by the angle whose cosine and sine arrive in
/// thousandths; the position is untouched and the direction stays in the
/// unit band.
pub fn steer_point(p: &mut TrailPoint, c: i64, s: i64)
    requires
        trail_wf(*old(p)),
        -2000 <= c <= 2000,
        -2000 <= s <= 2000,
    ensures
        trail_wf(*final(p)),
        final(p).coords == old(p).coords,
        final(p).coords_prev == old(p).coords_prev,
        final(p).color == old(p).color,
        final(p).speed == old(p).speed,
        is_unit(final(p).direction),
{
    let nd: Vec2i = crate::geom::rotate_unit(p.direction, c, s);
    p.direction = nd;
}

/// Reflects the ray's direction off the window edges: a ray at or past the
/// left or right edge has its direction's horizontal component flipped and
/// the vertical one kept; otherwise, one at or past the top or bottom edge
/// has the vertical component flipped and the horizontal one kept.  The
/// direction's length is unchanged either way.
pub fn bounce_point(p: &mut TrailPoint, w: i64, h: i64)
    requires
        trail_wf(*old(p)),
        0 <= w <= COORD_LIMIT,
        0 <= h <= COORD_LIMIT,
    ensures
        trail_wf(*final(p)),
        final(p).coords == old(p).coords,
        final(p).coords_prev == old(p).coords_prev,
        final(p).color == old(p).color,
        final(p).speed == old(p).speed,
        old(p).coords.x <= -(w / 2) || old(p).coords.x >= w / 2 ==> final(p).direction == (Vec2i {
            x: (-old(p).direction.x) as i64,
            y: old(p).direction.y,
        }),
        !(old(p).coords.x <= -(w / 2) || old(p).coords.x >= w / 2) && (old(p).coords.y <= -(h / 2)
            || old(p).coords.y >= h / 2) ==> final(p).direction == (Vec2i {
            x: old(p).direction.x,
            y: (-old(p).direction.y) as i64,
        }),
        !(old(p).coords.x <= -(w / 2) || old(p).coords.x >= w / 2) && !(old(p).coords.y <= -(h / 2)
            || old(p).coords.y >= h / 2) ==> final(p).direction == old(p).direction,
        norm_sq(final(p).direction) == norm_sq(old(p).direction),
{
    proof {
        crate::geom::lemma_unit_bounds(p.direction);
        assert((-p.direction.x) * (-p.direction.x) == p.direction.x * p.direction.x)
            by (nonlinear_arith);
        assert((-p.direction.y) * (-p.direction.y) == p.direction.y * p.direction.y)
            by (nonlinear_arith);
    }
    let half_w: i64 = ((w as u64) / 2) as i64;
    let half_h: i64 = ((h as u64) / 2) as i64;
    if p.coords.x <= -half_w || p.coords.x >= half_w {
        p.direction = Vec2i { x: -p.direction.x, y: p.direction.y };
    } else if p.coords.y <= -half_h || p.coords.y >= half_h {
        p.direction = Vec2i { x: p.direction.x, y: -p.direction.y };
    }
}

/// How many rays one press spawns: three to nine.
pub fn ray_count() -> (r: i64)
    ensures
        3 <= r <= 9,
{
    rand_in_range(3, 10)
}

/// The launch angle for one ray, in thousandths of a degree: the noise
/// value (thousandths, `[-1, 1]`) scaled to a full turn and stretched by a
/// random factor in `[0.6, 1.4)` of a whole, truncated toward zero.
pub fn spawn_angle_millideg(v: i64, factor: i64) -> (r: i64)
    requires
        -1000 <= v <= 1000,
        600 <= factor < 1400,
    ensures
        r == crate::geom::tdiv(360 * v * factor, 1000),
        -504_000 <= r <= 504_000,
{
    proof {
        crate::geom::lemma_mul_abs_bound(360 * v, factor as int, 360_000, 1400);
        crate::geom::lemma_tdiv_bound(360 * v * factor, 1000, 504_000_000);
    }
    crate::geom::div_trunc(360 * v * factor, 1000)
}

/// The random stretch factor for one ray's launch angle, in thousandths.
pub fn spawn_factor_permille() -> (r: i64)
    ensures
        600 <= r < 1400,
{
    rand_in_range(600, 1400)
}

/// Spawns one ray at `pos` along `dir`: colour drawn from a saturated
/// band — hue anywhere on the turn, saturation in `[0.7, 1)`, lightness in
/// `[0.5, 0.8)` — and speed in `[1, 4)` units per frame.
pub fn spawn_ray(m: &mut Model, pos: Vec2i, dir: Vec2i)
    requires
        in_coord_range(pos),
        in_coord_range(dir),
        norm_sq(dir) != 0,
        forall|k: int| 0 <= k < old(m).points@.len() ==> trail_wf(#[trigger] old(m).points@[k]),
    ensures
        final(m).points@.len() == old(m).points@.len() + 1,
        forall|k: int|
            0 <= k < old(m).points@.len() ==> final(m).points@[k] == old(m).points@[k],
        forall|k: int| 0 <= k < final(m).points@.len() ==> trail_wf(#[trigger] final(m).points@[k]),
        final(m).points@.last().coords == pos,
        final(m).points@.last().coords_prev == pos,
        is_unit(final(m).points@.last().direction),
        1000 <= final(m).points@.last().speed < 4000,
        0 <= final(m).points@.last().color.hue_millideg < 360_000,
        700 <= final(m).points@.last().color.sat_permille < 1000,
        500 <= final(m).points@.last().color.light_permille < 800,
        final(m).h == old(m).h,
        final(m).w == old(m).w,
        final(m).mouse_position == old(m).mouse_position,
{
    let color: Hsl = Hsl {
        hue_millideg: rand_in_range(0, 180_000) * 2,
        sat_permille: rand_in_range(700, 1000),
        light_permille: rand_in_range(500, 800),
    };
    let speed: i64 = rand_in_range(1000, 4000);
    let p: TrailPoint = TrailPoint::new(pos, color, dir, Some(speed));
    m.points.push(p);
}

impl Model {
    /// An empty trail field for a `w` by `h` window.
    pub fn init(w: i64, h: i64) -> (r: Model)
        ensures
            r.points@.len() == 0,
            r.w == w,
            r.h == h,
            r.mouse_position is None,
    {
        Model { points: Vec::new(), h, w, mouse_position: None }
    }

    /// Applies a pointer move; a press is handled by the caller, which
    /// spawns rays at the reported position.
    pub fn event_mouse_moved(&mut self, pos: Vec2i)
        ensures
            final(self).points == old(self).points,
            final(self).w == old(self).w,
            final(self).h == old(self).h,
            final(self).mouse_position == Some(pos),
    {
        self.mouse_position = Some(pos);
    }
}

} // verus!
