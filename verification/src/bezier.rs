//! The shared curve-building library: binomial machinery, the curve
//! evaluator, and a fluent path builder that chains curve segments.
//!
//! The evaluator samples a control polygon at the six parameters
//! `t = k / 5`, `k = 0 ..= 5`, whatever the number of control points.  Its
//! recorded example curves fix six output points for both a two-point and a
//! three-point input, so the sample count is deliberately held at six here
//! rather than derived from the degree; the worked examples are the behaviour
//! of record.  Samples are returned in fifths of a coordinate step, which
//! keeps every sample exact.

use vstd::arithmetic::div_mod::lemma_div_denominator;
use vstd::prelude::*;

use crate::geom::{in_coord_range, Vec2i, COORD_LIMIT};

verus! {

/// Mathematical factorial.
pub open spec fn fact(n: nat) -> nat
    decreases n,
{
    if n == 0 {
        1
    } else {
        n * fact((n - 1) as nat)
    }
}

/// Binomial coefficient in the form the evaluator uses:
/// `n! / i! / (n - i)!` over whole numbers.
pub open spec fn binom(n: nat, i: nat) -> nat {
    fact(n) / (fact(i) * fact((n - i) as nat))
}

/// Factorials are at least one.
pub proof fn lemma_fact_pos(n: nat)
    ensures
        fact(n) >= 1,
    decreases n,
{
    if n > 0 {
        lemma_fact_pos((n - 1) as nat);
        assert(n * fact((n - 1) as nat) >= 1 * fact((n - 1) as nat)) by (nonlinear_arith)
            requires
                n >= 1,
                fact((n - 1) as nat) >= 1,
        ;
    }
}

/// Factorials grow with their argument.
pub proof fn lemma_fact_monotonic(i: nat, j: nat)
    requires
        i <= j,
    ensures
        fact(i) <= fact(j),
    decreases j,
{
    if i < j {
        lemma_fact_monotonic(i, (j - 1) as nat);
        lemma_fact_pos((j - 1) as nat);
        assert(fact((j - 1) as nat) <= j * fact((j - 1) as nat)) by (nonlinear_arith)
            requires
                j >= 1,
                fact((j - 1) as nat) >= 1,
        ;
    }
}

/// Product of the whole numbers `1 ..= num`.
pub fn factorial(num: u128) -> (r: u128)
    requires
        fact(num as nat) <= u128::MAX,
    ensures
        r == fact(num as nat),
{
    let mut r: u128 = 1;
    let mut k: u128 = 0;
    while k < num
        invariant
            k <= num,
            r == fact(k as nat),
            fact(num as nat) <= u128::MAX,
        decreases num - k,
    {
        proof {
            lemma_fact_monotonic((k + 1) as nat, num as nat);
            assert(fact((k + 1) as nat) == (k + 1) * fact(k as nat));
        }
        k = k + 1;
        r = r * k;
    }
    r
}

/// `C(n, i)`, computed as `n! / i! / (n - i)!` exactly as the evaluator
/// states it.
pub fn binomial_coefficient(n: u128, i: u128) -> (r: u128)
    requires
        i <= n,
        fact(n as nat) <= u128::MAX,
    ensures
        r == binom(n as nat, i as nat),
{
    proof {
        lemma_fact_monotonic(i as nat, n as nat);
        lemma_fact_monotonic((n - i) as nat, n as nat);
        lemma_fact_pos(i as nat);
        lemma_fact_pos((n - i) as nat);
    }
    let fn_: u128 = factorial(n);
    let fi: u128 = factorial(i);
    let fni: u128 = factorial(n - i);
    let r: u128 = fn_ / fi / fni;
    proof {
        lemma_div_denominator(fact(n as nat) as int, fact(i as nat) as int, fact((n - i) as nat) as int);
    }
    r
}

/// The row of binomial coefficients for `n = 5` is `1, 5, 10, 10, 5, 1`.
pub proof fn lemma_binomial_row_five()
    ensures
        binom(5, 0) == 1,
        binom(5, 1) == 5,
        binom(5, 2) == 10,
        binom(5, 3) == 10,
        binom(5, 4) == 5,
        binom(5, 5) == 1,
{
    assert(fact(0) == 1);
    assert(fact(1) == 1);
    assert(fact(2) == 2);
    assert(fact(3) == 6);
    assert(fact(4) == 24);
    assert(fact(5) == 120);
    assert(1nat * 120nat == 120 && 1nat * 24nat == 24 && 2nat * 6nat == 12 && 6nat * 2nat == 12
        && 24nat * 1nat == 24 && 120nat * 1nat == 120) by (nonlinear_arith);
    assert(120nat / 120nat == 1 && 120nat / 24nat == 5 && 120nat / 12nat == 10);
    assert(binom(5, 0) == 120nat / (fact(0) * fact(5)));
    assert(binom(5, 1) == 120nat / (fact(1) * fact(4)));
    assert(binom(5, 2) == 120nat / (fact(2) * fact(3)));
    assert(binom(5, 3) == 120nat / (fact(3) * fact(2)));
    assert(binom(5, 4) == 120nat / (fact(4) * fact(1)));
    assert(binom(5, 5) == 120nat / (fact(5) * fact(0)));
}

/// A curve sample, held in fifths of a coordinate step so that every sample
/// of the evaluator is exact.
#[derive(Clone, Copy, PartialEq, Eq, Structural, Debug)]
pub struct SamplePt {
    pub x5: i64,
    pub y5: i64,
}

/// Horizontal coordinate, in fifths, of the `k`-th of the six samples of the
/// polygon through `ps`.
pub open spec fn curve_x(ps: Seq<Vec2i>, k: int) -> int {
    let n = ps.len() - 1;
    let j = (k * n) / 5;
    let r = (k * n) % 5;
    if r == 0 {
        5 * ps[j].x
    } else {
        (5 - r) * ps[j].x + r * ps[j + 1].x
    }
}

/// Vertical coordinate, in fifths, of the `k`-th of the six samples.
pub open spec fn curve_y(ps: Seq<Vec2i>, k: int) -> int {
    let n = ps.len() - 1;
    let j = (k * n) / 5;
    let r = (k * n) % 5;
    if r == 0 {
        5 * ps[j].y
    } else {
        (5 - r) * ps[j].y + r * ps[j + 1].y
    }
}

/// The `k`-th output point carries exactly the `k`-th sample of the polygon
/// through `ps`.
pub open spec fn matches_curve(out: Seq<SamplePt>, ps: Seq<Vec2i>, k: int) -> bool {
    out[k].x5 == curve_x(ps, k) && out[k].y5 == curve_y(ps, k)
}

/// Evaluates the curve through the given control points at the six parameters
/// `k / 5`, `k = 0 ..= 5`.
///
/// The first sample is exactly five times the first control point and the
/// last exactly five times the last, so chained segments join seamlessly.
pub fn bezier_curve(points: &Vec<Vec2i>) -> (out: Vec<SamplePt>)
    requires
        points@.len() >= 2,
        points@.len() <= 1000,
        forall|i: int| 0 <= i < points@.len() ==> in_coord_range(#[trigger] points@[i]),
    ensures
        out@.len() == 6,
        forall|k: int| 0 <= k < 6 ==> #[trigger] matches_curve(out@, points@, k),
        out@[0].x5 == 5 * points@[0].x,
        out@[0].y5 == 5 * points@[0].y,
        out@[5].x5 == 5 * points@[points@.len() - 1].x,
        out@[5].y5 == 5 * points@[points@.len() - 1].y,
{
    let n: usize = points.len() - 1;
    let mut out: Vec<SamplePt> = Vec::new();
    let mut k: usize = 0;
    while k < 6
        invariant
            k <= 6,
            out@.len() == k,
            points@.len() >= 2,
            points@.len() <= 1000,
            n == points@.len() - 1,
            forall|i: int| 0 <= i < points@.len() ==> in_coord_range(#[trigger] points@[i]),
            forall|m: int| 0 <= m < k ==> #[trigger] matches_curve(out@, points@, m),
        decreases 6 - k,
    {
        proof {
            assert(k * n <= 5 * n) by (nonlinear_arith)
                requires
                    0 <= k <= 5,
                    n >= 1,
            ;
        }
        let s: usize = k * n;
        let j: usize = s / 5;
        let r: usize = s % 5;
        proof {
            assert(5 * j + r == s);
            assert(j <= n);
            if r != 0 {
                assert(5 * j < s);
                assert(j < n);
            }
        }
        let p: SamplePt;
        if r == 0 {
            p = SamplePt { x5: 5 * points[j].x, y5: 5 * points[j].y };
        } else {
            let ri: i64 = r as i64;
            proof {
                crate::geom::lemma_mul_abs_bound(
                    (5 - r) as int,
                    points@[j as int].x as int,
                    5,
                    1_000_000_000,
                );
                crate::geom::lemma_mul_abs_bound(
                    r as int,
                    points@[j + 1 as int].x as int,
                    5,
                    1_000_000_000,
                );
                crate::geom::lemma_mul_abs_bound(
                    (5 - r) as int,
                    points@[j as int].y as int,
                    5,
                    1_000_000_000,
                );
                crate::geom::lemma_mul_abs_bound(
                    r as int,
                    points@[j + 1 as int].y as int,
                    5,
                    1_000_000_000,
                );
            }
            p =
            SamplePt {
                x5: (5 - ri) * points[j].x + ri * points[j + 1].x,
                y5: (5 - ri) * points[j].y + ri * points[j + 1].y,
            };
        }
        let ghost out0 = out@;
        out.push(p);
        proof {
            assert(matches_curve(out@, points@, k as int));
            assert forall|m: int| 0 <= m < k implies matches_curve(out@, points@, m) by {
                assert(matches_curve(out0, points@, m));
                assert(out@[m] == out0[m]);
            }
        }
        k = k + 1;
    }
    proof {
        let m = points@.len() - 1;
        vstd::arithmetic::div_mod::lemma_mod_multiples_basic(m, 5);
        vstd::arithmetic::div_mod::lemma_div_multiples_vanish(m, 5);
        assert(m * 5 == 5 * m) by (nonlinear_arith);
        assert(matches_curve(out@, points@, 0));
        assert(matches_curve(out@, points@, 5));
        assert(curve_x(points@, 0) == 5 * points@[0].x);
        assert(curve_y(points@, 0) == 5 * points@[0].y);
        assert(curve_x(points@, 5) == 5 * points@[m].x);
        assert(curve_y(points@, 5) == 5 * points@[m].y);
    }
    out
}

/// Both coordinates of the sample have magnitude at most five times
/// [`COORD_LIMIT`].
pub open spec fn sample_in_range(p: SamplePt) -> bool {
    -5 * COORD_LIMIT <= p.x5 <= 5 * COORD_LIMIT && -5 * COORD_LIMIT <= p.y5 <= 5 * COORD_LIMIT
}

/// The six samples of a polygon with in-range control points are in range.
proof fn lemma_curve_bounds(ps: Seq<Vec2i>, k: int)
    requires
        0 <= k < 6,
        2 <= ps.len() <= 1000,
        forall|i: int| 0 <= i < ps.len() ==> in_coord_range(#[trigger] ps[i]),
    ensures
        -5_000_000_000 <= curve_x(ps, k) <= 5_000_000_000,
        -5_000_000_000 <= curve_y(ps, k) <= 5_000_000_000,
{
    let n = ps.len() - 1;
    assert(0 <= k * n && k * n <= 5 * n) by (nonlinear_arith)
        requires
            0 <= k <= 5,
            n >= 1,
    ;
    let s = k * n;
    let j = s / 5;
    let r = s % 5;
    assert(5 * j + r == s);
    assert(j <= n);
    assert(in_coord_range(ps[j]));
    if r == 0 {
        assert(curve_x(ps, k) == 5 * ps[j].x);
        assert(curve_y(ps, k) == 5 * ps[j].y);
    } else {
        assert(j < n);
        assert(in_coord_range(ps[j + 1]));
        assert(curve_x(ps, k) == (5 - r) * ps[j].x + r * ps[j + 1].x);
        assert(curve_y(ps, k) == (5 - r) * ps[j].y + r * ps[j + 1].y);
        crate::geom::lemma_mul_abs_bound(5 - r, ps[j].x as int, 5 - r, 1_000_000_000);
        crate::geom::lemma_mul_abs_bound(r, ps[j + 1].x as int, r, 1_000_000_000);
        crate::geom::lemma_mul_abs_bound(5 - r, ps[j].y as int, 5 - r, 1_000_000_000);
        crate::geom::lemma_mul_abs_bound(r, ps[j + 1].y as int, r, 1_000_000_000);
    }
}

/// The `k`-th sample of the polygon through `ps`, as a stored sample point.
pub open spec fn curve_pt(ps: Seq<Vec2i>, k: int) -> SamplePt {
    SamplePt { x5: curve_x(ps, k) as i64, y5: curve_y(ps, k) as i64 }
}

/// All six samples of the polygon through `ps`.
pub open spec fn curve_seq(ps: Seq<Vec2i>) -> Seq<SamplePt> {
    Seq::new(6, |k: int| curve_pt(ps, k))
}

/// How a finished path is handed to the drawing context.
#[derive(Clone, Copy, PartialEq, Eq, Structural, Debug)]
pub enum PathStyle {
    /// An open stroked outline.
    Contour,
    /// A filled shape.
    Fill,
}

/// The point sequence of a finished path together with its rendering style.
#[derive(Clone, Debug)]
pub struct FinishedPath {
    pub points: Vec<SamplePt>,
    pub style: PathStyle,
}

/// Accumulates the sampled points of one or more chained curve segments.
///
/// The accumulator always holds at least one point, and its final point
/// always falls on a whole coordinate step: it is the last control point of
/// the most recent segment, ready to serve as the first control point of the
/// next one.
#[derive(Clone, Debug)]
pub struct PathBuilder {
    pub points: Vec<SamplePt>,
}

impl PathBuilder {
    /// The accumulator is usable: non-empty, in range, and ending on a whole
    /// coordinate step.
    pub open spec fn wf(self) -> bool {
        &&& self.points@.len() >= 1
        &&& forall|i: int|
            0 <= i < self.points@.len() ==> sample_in_range(#[trigger] self.points@[i])
        &&& self.points@.last().x5 % 5 == 0
        &&& self.points@.last().y5 % 5 == 0
    }

    /// The final accumulated point, as a control point.
    pub open spec fn last_point(self) -> Vec2i {
        Vec2i {
            x: (self.points@.last().x5 / 5) as i64,
            y: (self.points@.last().y5 / 5) as i64,
        }
    }

    /// Begins an accumulator holding just the starting point.
    pub fn start_shape(start: Vec2i) -> (r: PathBuilder)
        requires
            in_coord_range(start),
        ensures
            r.wf(),
            r.points@.len() == 1,
            r.points@[0].x5 == 5 * start.x,
            r.points@[0].y5 == 5 * start.y,
            r.last_point() == start,
    {
        let mut v: Vec<SamplePt> = Vec::new();
        v.push(SamplePt { x5: 5 * start.x, y5: 5 * start.y });
        proof {
            vstd::arithmetic::div_mod::lemma_mod_multiples_basic(start.x as int, 5);
            vstd::arithmetic::div_mod::lemma_mod_multiples_basic(start.y as int, 5);
            vstd::arithmetic::div_mod::lemma_div_multiples_vanish(start.x as int, 5);
            vstd::arithmetic::div_mod::lemma_div_multiples_vanish(start.y as int, 5);
            assert(start.x * 5 == 5 * start.x) by (nonlinear_arith);
            assert(start.y * 5 == 5 * start.y) by (nonlinear_arith);
        }
        PathBuilder { points: v }
    }

    /// Appends one curve segment.
    ///
    /// The last accumulated point becomes the first control point of the new
    /// segment; the six samples of the extended control polygon replace it at
    /// the tail of the accumulator.
    pub fn add_bezier_curve(self, added: &Vec<Vec2i>) -> (r: PathBuilder)
        requires
            self.wf(),
            in_coord_range(self.last_point()),
            1 <= added@.len() <= 999,
            forall|i: int| 0 <= i < added@.len() ==> in_coord_range(#[trigger] added@[i]),
        ensures
            r.wf(),
            r.points@ =~= self.points@.drop_last() + curve_seq(
                seq![self.last_point()] + added@,
            ),
            r.last_point() == added@.last(),
            in_coord_range(r.last_point()),
    {
        let ghost ctrl = seq![self.last_point()] + added@;
        let mut pts: Vec<SamplePt> = self.points;
        let last: SamplePt = pts.pop().unwrap();
        proof {
            crate::geom::lemma_tdiv_exact(last.x5 as int, 5);
            crate::geom::lemma_tdiv_exact(last.y5 as int, 5);
        }
        let lp: Vec2i = Vec2i { x: crate::geom::div_trunc(last.x5, 5), y: crate::geom::div_trunc(last.y5, 5) };
        let mut input: Vec<Vec2i> = Vec::new();
        input.push(lp);
        let mut i: usize = 0;
        while i < added.len()
            invariant
                i <= added@.len(),
                added@.len() <= 999,
                input@.len() == i + 1,
                input@[0] == self.last_point(),
                forall|m: int| 1 <= m < i + 1 ==> #[trigger] input@[m] == added@[m - 1],
                forall|m: int| 0 <= m < added@.len() ==> in_coord_range(#[trigger] added@[m]),
                in_coord_range(self.last_point()),
            decreases added@.len() - i,
        {
            input.push(added[i]);
            i = i + 1;
        }
        proof {
            assert(input@ =~= ctrl);
            assert(forall|m: int| 0 <= m < input@.len() ==> in_coord_range(#[trigger] input@[m]))
                by {
                assert forall|m: int| 0 <= m < input@.len() implies in_coord_range(
                    #[trigger] input@[m],
                ) by {
                    if m == 0 {
                    } else {
                        assert(input@[m] == added@[m - 1]);
                    }
                }
            }
        }
        let samples: Vec<SamplePt> = bezier_curve(&input);
        let ghost base = pts@;
        let mut k: usize = 0;
        while k < samples.len()
            invariant
                k <= samples@.len(),
                samples@.len() == 6,
                pts@.len() == base.len() + k,
                forall|m: int| 0 <= m < base.len() ==> #[trigger] pts@[m] == base[m],
                forall|m: int|
                    base.len() <= m < base.len() + k ==> #[trigger] pts@[m] == samples@[m
                        - base.len()],
            decreases samples@.len() - k,
        {
            pts.push(samples[k]);
            k = k + 1;
        }
        proof {
            assert forall|m: int| 0 <= m < 6 implies samples@[m] == curve_pt(ctrl, m) by {
                assert(matches_curve(samples@, input@, m));
                lemma_curve_bounds(ctrl, m);
            }
            assert(pts@ =~= self.points@.drop_last() + curve_seq(ctrl));
            // The tail sample is five times the final control point.
            assert(matches_curve(samples@, input@, 5));
            lemma_curve_bounds(ctrl, 5);
            vstd::arithmetic::div_mod::lemma_mod_multiples_basic(ctrl.last().x as int, 5);
            vstd::arithmetic::div_mod::lemma_mod_multiples_basic(ctrl.last().y as int, 5);
            vstd::arithmetic::div_mod::lemma_div_multiples_vanish(ctrl.last().x as int, 5);
            vstd::arithmetic::div_mod::lemma_div_multiples_vanish(ctrl.last().y as int, 5);
            assert(ctrl.last().x * 5 == 5 * ctrl.last().x) by (nonlinear_arith);
            assert(ctrl.last().y * 5 == 5 * ctrl.last().y) by (nonlinear_arith);
            assert forall|m: int| 0 <= m < pts@.len() implies sample_in_range(
                #[trigger] pts@[m],
            ) by {
                if m < base.len() {
                    assert(sample_in_range(self.points@[m]));
                } else {
                    lemma_curve_bounds(ctrl, m - base.len());
                }
            }
        }
        PathBuilder { points: pts }
    }

    /// Consumes the accumulator as an open stroked path.
    pub fn as_contour(self) -> (r: FinishedPath)
        ensures
            r.points@ == self.points@,
            r.style == PathStyle::Contour,
    {
        FinishedPath { points: self.points, style: PathStyle::Contour }
    }

    /// Consumes the accumulator as a filled path.
    pub fn as_fill(self) -> (r: FinishedPath)
        ensures
            r.points@ == self.points@,
            r.style == PathStyle::Fill,
    {
        FinishedPath { points: self.points, style: PathStyle::Fill }
    }
}

impl SamplePt {
    /// The sample as whole coordinate steps, when it falls on one.
    pub fn exact_coords(&self) -> (r: Option<Vec2i>)
        ensures
            self.x5 % 5 == 0 && self.y5 % 5 == 0 ==> r == Some(
                Vec2i { x: (self.x5 / 5) as i64, y: (self.y5 / 5) as i64 },
            ),
            !(self.x5 % 5 == 0 && self.y5 % 5 == 0) ==> r is None,
    {
        if self.x5 % 5 == 0 && self.y5 % 5 == 0 {
            Some(Vec2i { x: self.x5 / 5, y: self.y5 / 5 })
        } else {
            None
        }
    }
}

} // verus!
