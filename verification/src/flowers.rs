//! The bezier-petal flower-garden sketch: flowers and circles spawned while
//! dragging, stored as a tagged sequence of drawable shapes, each animated
//! by scale and rotation driven by its age in frames.
//!
//! The petal outlines are built with the curve library; rotating a finished
//! lobe by its angle and filling it happens in the drawing context outside
//! the crate.

use vstd::prelude::*;

use crate::bezier::{curve_seq, FinishedPath, PathBuilder, PathStyle};
use crate::color::Hsla;
use crate::events::InputEvent;
use crate::geom::{in_coord_range, tdiv, Vec2i};
use crate::rng::{coin, rand_in_range};

verus! {

/// Frames that must pass between two spawns while dragging.
pub const SPAWN_GAP_FRAMES: u64 = 12;

/// A flower: petal lobes from `start` toward `tip`, a middle fraction in
/// thousandths, a thickness in thousandths of a unit, and a birth frame.
#[derive(Clone, Copy, PartialEq, Eq, Structural, Debug)]
pub struct Flower {
    pub start: Vec2i,
    pub tip: Vec2i,
    pub middle: i64,
    pub thickness: i64,
    pub color: Hsla,
    pub leaf_count: u32,
    pub born_time: u64,
}

/// A filled circle.
#[derive(Clone, Copy, PartialEq, Eq, Structural, Debug)]
pub struct Circle {
    pub center: Vec2i,
    pub radius: i64,
    pub color: Hsla,
}

/// One shape of the garden: the closed set of things that can draw
/// themselves, each knowing its birth frame.
#[derive(Clone, Copy, PartialEq, Eq, Structural, Debug)]
pub enum Drawable {
    Flower(Flower),
    Circle(Circle),
}

impl Drawable {
    /// The frame this shape was born in; a circle reports frame zero.
    pub fn born_time(&self) -> (r: u64)
        ensures
            r == (match *self {
                Drawable::Flower(f) => f.born_time,
                Drawable::Circle(_) => 0u64,
            }),
    {
        match *self {
            Drawable::Flower(f) => f.born_time,
            Drawable::Circle(_) => 0,
        }
    }
}

/// The sketch's state.
#[derive(Debug)]
pub struct Model {
    pub height: i64,
    pub width: i64,
    pub mouse_position: Option<Vec2i>,
    pub flowers: Vec<Drawable>,
    pub last_flower_born_time: Option<u64>,
    pub pressed: bool,
}

/// A spawn is allowed when no shape was ever spawned, or when more than
/// [`SPAWN_GAP_FRAMES`] frames have passed since the last one.
pub open spec fn spawn_allowed(last: Option<u64>, t: u64) -> bool {
    match last {
        None => true,
        Some(b) => b + SPAWN_GAP_FRAMES < t,
    }
}

/// The fields a freshly spawned flower satisfies: rooted at the drag point,
/// tip offset thirty to eighty units to the right, middle fraction free,
/// thickness ten to forty units, a translucent colour, and an even leaf
/// count between six and eighteen.
pub open spec fn flower_fields_ok(f: Flower, pos: Vec2i, t: u64) -> bool {
    &&& f.start == pos
    &&& f.born_time == t
    &&& f.tip.y == pos.y
    &&& pos.x + 30_000 <= f.tip.x < pos.x + 80_000
    &&& 0 <= f.middle < 1000
    &&& 10_000 <= f.thickness < 40_000
    &&& 0 <= f.color.hue_millideg < 360_000
    &&& 400 <= f.color.sat_permille < 700
    &&& 200 <= f.color.light_permille < 500
    &&& f.color.alpha_permille == 850
    &&& 6 <= f.leaf_count <= 18
    &&& f.leaf_count % 2 == 0
}

/// The fields a companion circle satisfies: centred on the drag point,
/// radius about fifteen hundredths of the flower's reach, nearly opaque.
pub open spec fn circle_fields_ok(c: Circle, pos: Vec2i) -> bool {
    &&& c.center == pos
    &&& 4_500 <= c.radius < 12_000
    &&& 0 <= c.color.hue_millideg < 360_000
    &&& 400 <= c.color.sat_permille < 700
    &&& 300 <= c.color.light_permille < 500
    &&& c.color.alpha_permille == 950
}

/// What a spawning pointer move does to the garden: one flower always, a
/// circle half the time — its radius fifteen hundredths of that flower's
/// start-to-tip offset — everything older untouched.
pub open spec fn garden_grew(pre: Model, post: Model, pos: Vec2i, t: u64) -> bool {
    &&& post.last_flower_born_time == Some(t)
    &&& pre.flowers@.len() < post.flowers@.len() <= pre.flowers@.len() + 2
    &&& forall|k: int| 0 <= k < pre.flowers@.len() ==> post.flowers@[k] == pre.flowers@[k]
    &&& (post.flowers@[pre.flowers@.len() as int] matches Drawable::Flower(f)
        && flower_fields_ok(f, pos, t))
    &&& (post.flowers@.len() == pre.flowers@.len() + 2 ==> (post.flowers@[pre.flowers@.len() as int]
        matches Drawable::Flower(f) && post.flowers@.last() matches Drawable::Circle(c)
        && circle_fields_ok(c, pos) && c.radius == ((f.tip.x - pos.x) * 150) / 1000))
}

impl Model {
    /// An empty garden for a `w` by `h` window.
    pub fn init(w: i64, h: i64) -> (r: Model)
        ensures
            r.width == w,
            r.height == h,
            r.mouse_position is None,
            r.flowers@.len() == 0,
            r.last_flower_born_time is None,
            !r.pressed,
    {
        Model {
            height: h,
            width: w,
            mouse_position: None,
            flowers: Vec::new(),
            last_flower_born_time: None,
            pressed: false,
        }
    }

    /// Applies one input event at frame `t`: presses and releases toggle
    /// the dragging flag, and a pointer move while dragging spawns — if the
    /// gate allows — one flower and, on a coin flip, a circle.
    pub fn event(&mut self, ev: InputEvent, t: u64)
        requires
            ev matches InputEvent::MouseMoved(p) ==> -900_000_000 <= p.x <= 900_000_000
                && -900_000_000 <= p.y <= 900_000_000,
        ensures
            final(self).width == old(self).width,
            final(self).height == old(self).height,
            ev is MousePressed ==> final(self).pressed
                && final(self).mouse_position == old(self).mouse_position
                && final(self).flowers == old(self).flowers
                && final(self).last_flower_born_time == old(self).last_flower_born_time,
            ev is MouseReleased ==> !final(self).pressed
                && final(self).mouse_position == old(self).mouse_position
                && final(self).flowers == old(self).flowers
                && final(self).last_flower_born_time == old(self).last_flower_born_time,
            ev matches InputEvent::MouseMoved(p) ==> {
                &&& final(self).mouse_position == Some(p)
                &&& final(self).pressed == old(self).pressed
                &&& (old(self).pressed && spawn_allowed(old(self).last_flower_born_time, t)
                    ==> garden_grew(*old(self), *final(self), p, t))
                &&& (!(old(self).pressed && spawn_allowed(old(self).last_flower_born_time, t))
                    ==> final(self).flowers == old(self).flowers
                        && final(self).last_flower_born_time == old(
                        self,
                    ).last_flower_born_time)
            },
    {
        match ev {
            InputEvent::MouseMoved(pos) => {
                self.mouse_position = Some(pos);
                let allowed: bool = match self.last_flower_born_time {
                    None => true,
                    Some(b) => t > SPAWN_GAP_FRAMES && b < t - SPAWN_GAP_FRAMES,
                };
                if self.pressed && allowed {
                    let offset: i64 = rand_in_range(30_000, 80_000);
                    let tip: Vec2i = Vec2i { x: pos.x + offset, y: pos.y };
                    let half_leaves: i64 = rand_in_range(3, 10);
                    proof {
                        vstd::arithmetic::div_mod::lemma_mod_multiples_basic(
                            half_leaves as int,
                            2,
                        );
                    }
                    let flower: Flower = Flower {
                        start: pos,
                        tip,
                        middle: rand_in_range(0, 1000),
                        thickness: rand_in_range(10_000, 40_000),
                        color: Hsla {
                            hue_millideg: rand_in_range(0, 360_000),
                            sat_permille: rand_in_range(400, 700),
                            light_permille: rand_in_range(200, 500),
                            alpha_permille: 850,
                        },
                        leaf_count: (half_leaves * 2) as u32,
                        born_time: t,
                    };
                    self.flowers.push(Drawable::Flower(flower));
                    if coin() {
                        // Radius: fifteen hundredths of the start-to-tip
                        // distance, which here is the horizontal offset.
                        let radius: i64 = crate::geom::div_trunc(offset * 150, 1000);
                        proof {
                            vstd::arithmetic::div_mod::lemma_div_is_ordered(
                                4_500_000,
                                offset * 150,
                                1000,
                            );
                            vstd::arithmetic::div_mod::lemma_div_is_ordered(
                                offset * 150,
                                11_999_999,
                                1000,
                            );
                        }
                        let circle: Circle = Circle {
                            center: pos,
                            radius,
                            color: Hsla {
                                hue_millideg: rand_in_range(0, 360_000),
                                sat_permille: rand_in_range(400, 700),
                                light_permille: rand_in_range(300, 500),
                                alpha_permille: 950,
                            },
                        };
                        self.flowers.push(Drawable::Circle(circle));
                    }
                    self.last_flower_born_time = Some(t);
                }
            },
            InputEvent::MousePressed => {
                self.pressed = true;
            },
            InputEvent::MouseReleased => {
                self.pressed = false;
            },
        }
    }
}

/// The flower can be built into petal paths: representable start, bounded
/// reach, fraction and thickness in range, and at least one leaf.
pub open spec fn flower_wf(f: Flower) -> bool {
    &&& in_coord_range(f.start)
    &&& -10_000_000 <= f.tip.x - f.start.x <= 10_000_000
    &&& -10_000_000 <= f.tip.y - f.start.y <= 10_000_000
    &&& 0 <= f.middle <= 1000
    &&& 0 <= f.thickness <= 1_000_000
    &&& 1 <= f.leaf_count
}

impl Flower {
    /// The lobe's control points at the given scale, relative to the
    /// flower's start: the middle point pushed half a thickness up
    /// (`r.0`) and down (`r.1`), and the translated tip (`r.2`).
    pub open spec fn lobe_controls(self, scale_permille: int) -> (Vec2i, Vec2i, Vec2i) {
        let tipt = Vec2i {
            x: (self.tip.x - self.start.x) as i64,
            y: (self.tip.y - self.start.y) as i64,
        };
        let m = tipt.scale_frac_spec(self.middle as int, 1000);
        let m1 = Vec2i { x: m.x, y: (m.y + self.thickness / 2) as i64 };
        let m2 = Vec2i { x: m.x, y: (m.y - self.thickness / 2) as i64 };
        (
            m1.scale_frac_spec(scale_permille, 1000),
            m2.scale_frac_spec(scale_permille, 1000),
            tipt.scale_frac_spec(scale_permille, 1000),
        )
    }

    /// The point sequence of one petal lobe at the given scale: out from
    /// the origin through the raised middle point to the tip, back to the
    /// origin, out again through the lowered middle point, and back — a
    /// closed outline to be filled, rotated by the lobe's angle outside.
    pub fn lobe_path(&self, scale_permille: i64) -> (r: FinishedPath)
        requires
            flower_wf(*self),
            0 <= scale_permille <= 90_000,
        ensures
            r.style == PathStyle::Fill,
            r.points@.len() == 21,
            ({
                let (m1s, m2s, tips) = self.lobe_controls(scale_permille as int);
                let root = Vec2i { x: 0, y: 0 };
                let p1 = curve_seq(seq![root, m1s, tips]);
                let p2 = p1.drop_last() + curve_seq(seq![tips, root]);
                let p3 = p2.drop_last() + curve_seq(seq![root, m2s, tips]);
                let p4 = p3.drop_last() + curve_seq(seq![tips, root]);
                r.points@ =~= p4
            }),
    {
        let tipt: Vec2i = Vec2i { x: self.tip.x - self.start.x, y: self.tip.y - self.start.y };
        let m: Vec2i = tipt.scale_frac(self.middle, 1000);
        proof {
            crate::geom::lemma_mul_abs_bound(tipt.x as int, self.middle as int, 10_000_000, 1000);
            crate::geom::lemma_mul_abs_bound(tipt.y as int, self.middle as int, 10_000_000, 1000);
            crate::geom::lemma_tdiv_bound(tipt.x * self.middle, 1000, 10_000_000_000);
            crate::geom::lemma_tdiv_bound(tipt.y * self.middle, 1000, 10_000_000_000);
        }
        let half_t: i64 = ((self.thickness as u64) / 2) as i64;
        let m1: Vec2i = Vec2i { x: m.x, y: m.y + half_t };
        let m2: Vec2i = Vec2i { x: m.x, y: m.y - half_t };
        proof {
            lemma_scaled_control_in_range(m1, scale_permille as int);
            lemma_scaled_control_in_range(m2, scale_permille as int);
            lemma_scaled_control_in_range(tipt, scale_permille as int);
        }
        let m1s: Vec2i = m1.scale_frac(scale_permille, 1000);
        let m2s: Vec2i = m2.scale_frac(scale_permille, 1000);
        let tips: Vec2i = tipt.scale_frac(scale_permille, 1000);
        let root: Vec2i = Vec2i { x: 0, y: 0 };
        let mut seg1: Vec<Vec2i> = Vec::new();
        seg1.push(m1s);
        seg1.push(tips);
        let mut seg2: Vec<Vec2i> = Vec::new();
        seg2.push(root);
        let mut seg3: Vec<Vec2i> = Vec::new();
        seg3.push(m2s);
        seg3.push(tips);
        let mut seg4: Vec<Vec2i> = Vec::new();
        seg4.push(root);
        proof {
            assert(seg1@ =~= seq![m1s, tips]);
            assert(seg2@ =~= seq![root]);
            assert(seg3@ =~= seq![m2s, tips]);
            assert(seg4@ =~= seq![root]);
        }
        let ghost p1 = curve_seq(seq![root, m1s, tips]);
        let ghost p2 = p1.drop_last() + curve_seq(seq![tips, root]);
        let ghost p3 = p2.drop_last() + curve_seq(seq![root, m2s, tips]);
        let ghost p4 = p3.drop_last() + curve_seq(seq![tips, root]);
        let b0: PathBuilder = PathBuilder::start_shape(root);
        proof {
            assert(b0.points@.drop_last() =~= Seq::<crate::bezier::SamplePt>::empty());
            assert(seq![b0.last_point()] + seg1@ =~= seq![root, m1s, tips]);
        }
        let b1: PathBuilder = b0.add_bezier_curve(&seg1);
        proof {
            assert(b1.points@ =~= p1);
            assert(seq![b1.last_point()] + seg2@ =~= seq![tips, root]);
        }
        let b2: PathBuilder = b1.add_bezier_curve(&seg2);
        proof {
            assert(b2.points@ =~= p2);
            assert(seq![b2.last_point()] + seg3@ =~= seq![root, m2s, tips]);
        }
        let b3: PathBuilder = b2.add_bezier_curve(&seg3);
        proof {
            assert(b3.points@ =~= p3);
            assert(seq![b3.last_point()] + seg4@ =~= seq![tips, root]);
        }
        let b4: PathBuilder = b3.add_bezier_curve(&seg4);
        proof {
            assert(b4.points@ =~= p4);
        }
        b4.as_fill()
    }
}

/// A control point of magnitude at most ten and a half thousand units,
/// scaled by up to ninety, stays representable.
proof fn lemma_scaled_control_in_range(v: Vec2i, scale: int)
    requires
        -10_500_000 <= v.x <= 10_500_000,
        -10_500_000 <= v.y <= 10_500_000,
        0 <= scale <= 90_000,
    ensures
        in_coord_range(v.scale_frac_spec(scale, 1000)),
        in_coord_range(v),
{
    crate::geom::lemma_mul_abs_bound(v.x as int, scale, 10_500_000, 90_000);
    crate::geom::lemma_mul_abs_bound(v.y as int, scale, 10_500_000, 90_000);
    crate::geom::lemma_tdiv_bound(v.x * scale, 1000, 945_000_000_000);
    crate::geom::lemma_tdiv_bound(v.y * scale, 1000, 945_000_000_000);
}

/// The angle of lobe `i` of `leaf_count`, in thousandths of a degree: its
/// even share of the full turn, plus the flower's current rotation.
pub fn lobe_angle_millideg(i: u32, leaf_count: u32, rotation_millideg: i64) -> (r: i64)
    requires
        1 <= leaf_count,
        i < leaf_count,
        -1_000_000_000 <= rotation_millideg <= 1_000_000_000,
    ensures
        r == (i * 360_000) / (leaf_count as int) + rotation_millideg,
{
    let share: u64 = ((i as u64) * 360_000) / (leaf_count as u64);
    proof {
        vstd::arithmetic::div_mod::lemma_div_nonincreasing(
            (i as u64 * 360_000) as int,
            leaf_count as int,
        );
    }
    (share as i64) + rotation_millideg
}

/// The animation parameters of a shape `age` frames after its birth: the
/// scale in thousandths grows by one per frame from one whole, without
/// bound, and the rotation advances twenty-seven hundredths of a degree
/// per frame, wrapped to a full turn.
pub fn anim_params(t_now: u64, born: u64) -> (r: (i64, i64))
    requires
        born <= t_now,
        t_now - born <= 1_000_000_000_000_000,
    ensures
        r.0 == 1000 + (t_now - born),
        r.1 == (270 * (t_now - born)) % 360_000,
        0 <= r.1 < 360_000,
{
    let age: u64 = t_now - born;
    let scale: i64 = 1000 + (age as i64);
    // The rotation repeats every four thousand frames.
    let a2: u64 = age % 4000;
    let rot: u64 = (270 * a2) % 360_000;
    proof {
        let q = (age as int) / 4000;
        let rr = (age as int) % 4000;
        assert(270 * (4000 * q + rr) == 360_000 * (3 * q) + 270 * rr) by (nonlinear_arith);
        vstd::arithmetic::div_mod::lemma_mod_multiples_vanish(
            3 * q,
            270 * rr,
            360_000,
        );
    }
    (scale, rot as i64)
}

/// The inner bloom of a two-coloured flower: the same flower with its tip
/// scaled by eighty-five hundredths (in absolute coordinates, as drawn)
/// and three quarters of the thickness.
pub fn duo_inner(tip: Vec2i, thickness: i64) -> (r: (Vec2i, i64))
    requires
        in_coord_range(tip),
        0 <= thickness <= 1_000_000,
    ensures
        r.0 == tip.scale_frac_spec(850, 1000),
        r.1 == tdiv(thickness * 750, 1000),
{
    proof {
        crate::geom::lemma_mul_abs_bound(tip.x as int, 850, 1_000_000_000, 1000);
        crate::geom::lemma_mul_abs_bound(tip.y as int, 850, 1_000_000_000, 1000);
    }
    (tip.scale_frac(850, 1000), crate::geom::div_trunc(thickness * 750, 1000))
}

/// The horizontal part of a quadratic Bernstein sample, scaled by `d * d`:
/// at parameter `k / d`, the weights are `(d-k)^2`, `2 k (d-k)` and `k^2`,
/// so the endpoint weight at `k = 0` is exactly `d^2` on the first point.
pub open spec fn quad_x(a: Vec2i, b: Vec2i, c: Vec2i, d: int, k: int) -> int {
    (d - k) * (d - k) * a.x + 2 * k * (d - k) * b.x + k * k * c.x
}

/// The vertical part of a quadratic Bernstein sample, scaled by `d * d`.
pub open spec fn quad_y(a: Vec2i, b: Vec2i, c: Vec2i, d: int, k: int) -> int {
    (d - k) * (d - k) * a.y + 2 * k * (d - k) * b.y + k * k * c.y
}

/// `d + 1` samples of the quadratic Bernstein curve through `a`, `b`, `c`,
/// each scaled by `d * d` so that every sample is exact.
#[verifier::loop_isolation(false)]
pub fn quad_samples(a: Vec2i, b: Vec2i, c: Vec2i, d: u32) -> (out: Vec<(i64, i64)>)
    requires
        1 <= d <= 100,
        -21_000_000 <= a.x <= 21_000_000,
        -21_000_000 <= a.y <= 21_000_000,
        -21_000_000 <= b.x <= 21_000_000,
        -21_000_000 <= b.y <= 21_000_000,
        -21_000_000 <= c.x <= 21_000_000,
        -21_000_000 <= c.y <= 21_000_000,
    ensures
        out@.len() == d + 1,
        forall|k: int|
            0 <= k <= d ==> #[trigger] out@[k] == (
                quad_x(a, b, c, d as int, k) as i64,
                quad_y(a, b, c, d as int, k) as i64,
            ),
{
    let mut out: Vec<(i64, i64)> = Vec::new();
    let mut k: u32 = 0;
    while k <= d
        invariant
            k <= d + 1,
            out@.len() == k,
            forall|m: int|
                0 <= m < k ==> #[trigger] out@[m] == (
                    quad_x(a, b, c, d as int, m) as i64,
                    quad_y(a, b, c, d as int, m) as i64,
                ),
        decreases d + 1 - k,
    {
        proof {
            crate::geom::lemma_mul_abs_bound((d - k) as int, (d - k) as int, 100, 100);
            crate::geom::lemma_mul_abs_bound(2 * (k as int), (d - k) as int, 200, 100);
            crate::geom::lemma_mul_abs_bound(k as int, k as int, 100, 100);
        }
        let w0: i64 = ((d - k) as i64) * ((d - k) as i64);
        let w1: i64 = 2 * (k as i64) * ((d - k) as i64);
        let w2: i64 = (k as i64) * (k as i64);
        proof {
            crate::geom::lemma_mul_abs_bound(w0 as int, a.x as int, 10_000, 21_000_000);
            crate::geom::lemma_mul_abs_bound(w1 as int, b.x as int, 20_000, 21_000_000);
            crate::geom::lemma_mul_abs_bound(w2 as int, c.x as int, 10_000, 21_000_000);
            crate::geom::lemma_mul_abs_bound(w0 as int, a.y as int, 10_000, 21_000_000);
            crate::geom::lemma_mul_abs_bound(w1 as int, b.y as int, 20_000, 21_000_000);
            crate::geom::lemma_mul_abs_bound(w2 as int, c.y as int, 10_000, 21_000_000);
        }
        let x: i64 = w0 * a.x + w1 * b.x + w2 * c.x;
        let y: i64 = w0 * a.y + w1 * b.y + w2 * c.y;
        out.push((x, y));
        k = k + 1;
    }
    out
}

/// The two quadratic arcs of one leaf outline, sampled at twenty-one
/// parameters each and scaled by four hundred: out from `start` through a
/// control point half a thickness to the right of the midpoint, and back
/// from `tip` through one half a thickness to the left.
pub fn leaf_points(start: Vec2i, tip: Vec2i, thickness: i64, middle: i64) -> (out: Vec<(i64, i64)>)
    requires
        -10_000_000 <= start.x <= 10_000_000,
        -10_000_000 <= start.y <= 10_000_000,
        -10_000_000 <= tip.x <= 10_000_000,
        -10_000_000 <= tip.y <= 10_000_000,
        0 <= thickness <= 1_000_000,
        0 <= middle <= 1000,
    ensures
        out@.len() == 42,
        ({
            let m = (Vec2i { x: (start.x + tip.x) as i64, y: (start.y + tip.y) as i64 })
                .scale_frac_spec(middle as int, 1000);
            let p1 = Vec2i { x: (m.x + thickness / 2) as i64, y: m.y };
            let p2 = Vec2i { x: (m.x - thickness / 2) as i64, y: m.y };
            &&& (forall|k: int|
                0 <= k <= 20 ==> #[trigger] out@[k] == (
                    quad_x(start, p1, tip, 20, k) as i64,
                    quad_y(start, p1, tip, 20, k) as i64,
                ))
            &&& (forall|k: int|
                0 <= k <= 20 ==> #[trigger] out@[21 + k] == (
                    quad_x(tip, p2, start, 20, k) as i64,
                    quad_y(tip, p2, start, 20, k) as i64,
                ))
        }),
{
    let s: Vec2i = Vec2i { x: start.x + tip.x, y: start.y + tip.y };
    proof {
        crate::geom::lemma_mul_abs_bound(s.x as int, middle as int, 20_000_000, 1000);
        crate::geom::lemma_mul_abs_bound(s.y as int, middle as int, 20_000_000, 1000);
        crate::geom::lemma_tdiv_bound(s.x * middle, 1000, 20_000_000_000);
        crate::geom::lemma_tdiv_bound(s.y * middle, 1000, 20_000_000_000);
    }
    let m: Vec2i = s.scale_frac(middle, 1000);
    let half_t: i64 = ((thickness as u64) / 2) as i64;
    let p1: Vec2i = Vec2i { x: m.x + half_t, y: m.y };
    let p2: Vec2i = Vec2i { x: m.x - half_t, y: m.y };
    let mut out: Vec<(i64, i64)> = quad_samples(start, p1, tip, 20);
    let mut arc2: Vec<(i64, i64)> = quad_samples(tip, p2, start, 20);
    let ghost first = out@;
    out.append(&mut arc2);
    proof {
        assert forall|k: int| 0 <= k <= 20 implies #[trigger] out@[k] == (
            quad_x(start, p1, tip, 20, k) as i64,
            quad_y(start, p1, tip, 20, k) as i64,
        ) by {
            assert(out@[k] == first[k]);
        }
    }
    out
}

} // verus!
