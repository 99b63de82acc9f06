//! Fixed-point planar geometry shared by all sketches.
//!
//! A coordinate of `1000` stands for one screen unit, so positions are held in
//! thousandths of a unit.  Direction vectors are stored with nominal length
//! [`UNIT`]; [`is_unit`] allows a small band around that length, and every
//! operation that produces a direction promises to land in the band.

use vstd::arithmetic::div_mod::lemma_div_nonincreasing;
use vstd::prelude::*;

verus! {

/// Nominal length of a stored direction vector.
pub const UNIT: i64 = 1000;

/// Smallest squared length a direction vector may have.
pub const UNIT_NORM_SQ_MIN: i64 = 990_000;

/// Largest squared length a direction vector may have.
pub const UNIT_NORM_SQ_MAX: i64 = 1_010_000;

/// Largest coordinate magnitude the geometry functions work with
/// (a million screen units).
pub const COORD_LIMIT: i64 = 1_000_000_000;

/// A planar vector in thousandths of a screen unit.
#[derive(Clone, Copy, PartialEq, Eq, Structural, Debug)]
pub struct Vec2i {
    pub x: i64,
    pub y: i64,
}

/// Both coordinates lie within [`COORD_LIMIT`].
pub open spec fn in_coord_range(v: Vec2i) -> bool {
    -COORD_LIMIT <= v.x <= COORD_LIMIT && -COORD_LIMIT <= v.y <= COORD_LIMIT
}

/// Squared Euclidean length.
pub open spec fn norm_sq(v: Vec2i) -> int {
    v.x * v.x + v.y * v.y
}

/// The vector's length lies in the accepted band around [`UNIT`].
pub open spec fn is_unit(v: Vec2i) -> bool {
    UNIT_NORM_SQ_MIN <= norm_sq(v) <= UNIT_NORM_SQ_MAX
}

/// Truncating division (rounds toward zero), as executable `/` does.
pub open spec fn tdiv(a: int, b: int) -> int {
    if a >= 0 {
        a / b
    } else {
        -((-a) / b)
    }
}

/// A product of magnitude-bounded factors is magnitude-bounded.
pub proof fn lemma_mul_abs_bound(a: int, b: int, aa: int, bb: int)
    by (nonlinear_arith)
    requires
        -aa <= a <= aa,
        -bb <= b <= bb,
    ensures
        -(aa * bb) <= a * b <= aa * bb,
{
}

/// A square is never negative, and is at least one for a nonzero factor.
pub proof fn lemma_square_pos(a: int)
    by (nonlinear_arith)
    ensures
        a * a >= 0,
        a != 0 ==> a * a >= 1,
{
}

/// Truncating division of `a` by a positive divisor, rounding toward zero.
pub fn div_trunc(a: i64, b: i64) -> (r: i64)
    requires
        b > 0,
        a > i64::MIN,
    ensures
        r == tdiv(a as int, b as int),
        a >= 0 ==> 0 <= r <= a,
        a < 0 ==> a <= r <= 0,
{
    if a >= 0 {
        let q: u64 = (a as u64) / (b as u64);
        proof {
            lemma_div_nonincreasing(a as int, b as int);
        }
        q as i64
    } else {
        let m: u64 = ((-a) as u64) / (b as u64);
        proof {
            lemma_div_nonincreasing(-a as int, b as int);
        }
        -(m as i64)
    }
}

/// Largest `r` with `r * r <= n`.
pub fn isqrt(n: u64) -> (r: u64)
    ensures
        r * r <= n < (r + 1) * (r + 1),
{
    let mut lo: u64 = 0;
    let mut hi: u64 = 4_294_967_296;
    proof {
        assert((4_294_967_296int) * 4_294_967_296 > u64::MAX) by (nonlinear_arith);
    }
    while hi - lo > 1
        invariant
            lo < hi <= 4_294_967_296,
            lo * lo <= n,
            n < hi * hi,
        decreases hi - lo,
    {
        let mid: u64 = lo + (hi - lo) / 2;
        proof {
            lemma_mul_abs_bound(mid as int, mid as int, 4_294_967_295, 4_294_967_295);
            assert((4_294_967_295int) * 4_294_967_295 < u64::MAX) by (nonlinear_arith);
        }
        if mid * mid <= n {
            lo = mid;
        } else {
            hi = mid;
        }
    }
    lo
}

impl Vec2i {
    /// Builds the vector with the given coordinates.
    pub fn new(x: i64, y: i64) -> (r: Vec2i)
        ensures
            r.x == x,
            r.y == y,
    {
        Vec2i { x, y }
    }

    /// The zero vector.
    pub fn zero() -> (r: Vec2i)
        ensures
            r.x == 0,
            r.y == 0,
    {
        Vec2i { x: 0, y: 0 }
    }

    /// Componentwise difference, at the specification level.
    pub open spec fn sub_spec(self, o: Vec2i) -> Vec2i {
        Vec2i { x: (self.x - o.x) as i64, y: (self.y - o.y) as i64 }
    }

    /// Componentwise sum.
    pub fn add(self, o: Vec2i) -> (r: Vec2i)
        requires
            i64::MIN <= self.x + o.x <= i64::MAX,
            i64::MIN <= self.y + o.y <= i64::MAX,
        ensures
            r.x == self.x + o.x,
            r.y == self.y + o.y,
    {
        Vec2i { x: self.x + o.x, y: self.y + o.y }
    }

    /// Componentwise difference.
    pub fn sub(self, o: Vec2i) -> (r: Vec2i)
        requires
            i64::MIN <= self.x - o.x <= i64::MAX,
            i64::MIN <= self.y - o.y <= i64::MAX,
        ensures
            r.x == self.x - o.x,
            r.y == self.y - o.y,
    {
        Vec2i { x: self.x - o.x, y: self.y - o.y }
    }

    /// The scaled vector of [`Vec2i::scale_frac`], at the specification
    /// level.
    pub open spec fn scale_frac_spec(self, num: int, den: int) -> Vec2i {
        Vec2i { x: tdiv(self.x * num, den) as i64, y: tdiv(self.y * num, den) as i64 }
    }

    /// Scales by the fraction `num / den`, rounding each coordinate toward zero.
    pub fn scale_frac(self, num: i64, den: i64) -> (r: Vec2i)
        requires
            den > 0,
            0 <= num <= 1_000_000,
            in_coord_range(self),
        ensures
            r.x == tdiv(self.x * num, den as int),
            r.y == tdiv(self.y * num, den as int),
            r == self.scale_frac_spec(num as int, den as int),
    {
        proof {
            lemma_mul_abs_bound(self.x as int, num as int, 1_000_000_000, 1_000_000);
            lemma_mul_abs_bound(self.y as int, num as int, 1_000_000_000, 1_000_000);
        }
        Vec2i { x: div_trunc(self.x * num, den), y: div_trunc(self.y * num, den) }
    }

    /// Rotation by a quarter turn counterclockwise; the length is kept exactly.
    pub fn rotate90(self) -> (r: Vec2i)
        requires
            self.x > i64::MIN,
            self.y > i64::MIN,
        ensures
            r.x == -self.y,
            r.y == self.x,
            norm_sq(r) == norm_sq(self),
    {
        proof {
            assert((-self.y) * (-self.y) == self.y * self.y) by (nonlinear_arith);
        }
        Vec2i { x: -self.y, y: self.x }
    }

    /// Rotation by a quarter turn clockwise; the length is kept exactly.
    pub fn rotate270(self) -> (r: Vec2i)
        requires
            self.x > i64::MIN,
            self.y > i64::MIN,
        ensures
            r.x == self.y,
            r.y == -self.x,
            norm_sq(r) == norm_sq(self),
    {
        proof {
            assert((-self.x) * (-self.x) == self.x * self.x) by (nonlinear_arith);
        }
        Vec2i { x: self.y, y: -self.x }
    }
}

/// A direction of length exactly [`UNIT`] along the dominant axis of `v`.
fn axis_unit(v: Vec2i) -> (r: Vec2i)
    requires
        v.x != 0 || v.y != 0,
        v.x > i64::MIN,
        v.y > i64::MIN,
    ensures
        is_unit(r),
        v.x >= 0 ==> r.x >= 0,
        v.x <= 0 ==> r.x <= 0,
        v.y >= 0 ==> r.y >= 0,
        v.y <= 0 ==> r.y <= 0,
{
    proof {
        assert((1000int) * 1000 == 1_000_000) by (nonlinear_arith);
        assert(((-1000) as int) * -1000 == 1_000_000) by (nonlinear_arith);
        assert((0int) * 0 == 0) by (nonlinear_arith);
    }
    let ax: i64 = if v.x >= 0 {
        v.x
    } else {
        -v.x
    };
    let ay: i64 = if v.y >= 0 {
        v.y
    } else {
        -v.y
    };
    if ax >= ay {
        if v.x >= 0 {
            Vec2i { x: UNIT, y: 0 }
        } else {
            Vec2i { x: -UNIT, y: 0 }
        }
    } else {
        if v.y >= 0 {
            Vec2i { x: 0, y: UNIT }
        } else {
            Vec2i { x: 0, y: -UNIT }
        }
    }
}

/// An input whose length is already exactly [`UNIT`] passes through the
/// scaling arithmetic unchanged, whether or not it was brought up to a
/// workable length first.
proof fn lemma_unit_input_comes_back(v: Vec2i, sx: int, sy: int, len: int, rx: int, ry: int)
    requires
        norm_sq(v) == 1_000_000,
        (sx == 1000 * v.x && sy == 1000 * v.y) || (sx == v.x && sy == v.y),
        len >= 0,
        len * len <= sx * sx + sy * sy < (len + 1) * (len + 1),
        rx == tdiv(sx * 1000, len),
        ry == tdiv(sy * 1000, len),
    ensures
        rx == v.x,
        ry == v.y,
        rx * rx + ry * ry == 1_000_000,
        -2000 <= rx <= 2000,
        -2000 <= ry <= 2000,
{
    if sx == 1000 * v.x && sy == 1000 * v.y {
        assert(sx * sx + sy * sy == 1_000_000_000_000) by (nonlinear_arith)
            requires
                sx == 1000 * v.x,
                sy == 1000 * v.y,
                v.x * v.x + v.y * v.y == 1_000_000,
        ;
        assert(len == 1_000_000) by (nonlinear_arith)
            requires
                len >= 0,
                len * len <= 1_000_000_000_000 < (len + 1) * (len + 1),
        ;
        assert(sx * 1000 == 1_000_000 * v.x && sy * 1000 == 1_000_000 * v.y)
            by (nonlinear_arith)
            requires
                sx == 1000 * v.x,
                sy == 1000 * v.y,
        ;
        assert(v.x * 1_000_000 == 1_000_000 * v.x) by (nonlinear_arith);
        assert(v.y * 1_000_000 == 1_000_000 * v.y) by (nonlinear_arith);
        vstd::arithmetic::div_mod::lemma_mod_multiples_basic(v.x as int, 1_000_000);
        vstd::arithmetic::div_mod::lemma_mod_multiples_basic(v.y as int, 1_000_000);
        lemma_tdiv_exact(sx * 1000, 1_000_000);
        lemma_tdiv_exact(sy * 1000, 1_000_000);
        vstd::arithmetic::div_mod::lemma_div_multiples_vanish(v.x as int, 1_000_000);
        vstd::arithmetic::div_mod::lemma_div_multiples_vanish(v.y as int, 1_000_000);
    } else {
        assert(sx == v.x && sy == v.y);
        assert(len == 1000) by (nonlinear_arith)
            requires
                len >= 0,
                len * len <= 1_000_000 < (len + 1) * (len + 1),
        ;
        assert(v.x * 1000 == 1000 * v.x) by (nonlinear_arith);
        assert(v.y * 1000 == 1000 * v.y) by (nonlinear_arith);
        vstd::arithmetic::div_mod::lemma_mod_multiples_basic(v.x as int, 1000);
        vstd::arithmetic::div_mod::lemma_mod_multiples_basic(v.y as int, 1000);
        lemma_tdiv_exact(sx * 1000, 1000);
        lemma_tdiv_exact(sy * 1000, 1000);
        vstd::arithmetic::div_mod::lemma_div_multiples_vanish(v.x as int, 1000);
        vstd::arithmetic::div_mod::lemma_div_multiples_vanish(v.y as int, 1000);
    }
    assert(-2000 <= v.x <= 2000 && -2000 <= v.y <= 2000) by (nonlinear_arith)
        requires
            v.x * v.x + v.y * v.y == 1_000_000,
    ;
}

/// Scales `v` to length [`UNIT`]; the zero vector stays zero, and a vector
/// already of length exactly [`UNIT`] comes back unchanged.
///
/// The result is promised to land in the accepted length band.  If integer
/// rounding on a degenerate input were ever to leave the band, the dominant
/// axis direction of `v` is returned instead, so the promise holds without
/// exception.
pub fn normalize(v: Vec2i) -> (r: Vec2i)
    requires
        in_coord_range(v),
    ensures
        norm_sq(v) == 0 ==> r == (Vec2i { x: 0, y: 0 }),
        norm_sq(v) != 0 ==> is_unit(r),
        norm_sq(v) == UNIT * UNIT ==> r == v,
        v.x >= 0 ==> r.x >= 0,
        v.x <= 0 ==> r.x <= 0,
        v.y >= 0 ==> r.y >= 0,
        v.y <= 0 ==> r.y <= 0,
{
    proof {
        lemma_square_pos(v.x as int);
        lemma_square_pos(v.y as int);
    }
    if v.x == 0 && v.y == 0 {
        return Vec2i { x: 0, y: 0 };
    }
    // Bring short vectors up to a workable length first.
    let sx: i64;
    let sy: i64;
    if -UNIT < v.x && v.x < UNIT && -UNIT < v.y && v.y < UNIT {
        sx = v.x * UNIT;
        sy = v.y * UNIT;
    } else {
        sx = v.x;
        sy = v.y;
    }
    proof {
        lemma_mul_abs_bound(sx as int, sx as int, 1_000_000_000, 1_000_000_000);
        lemma_mul_abs_bound(sy as int, sy as int, 1_000_000_000, 1_000_000_000);
        lemma_square_pos(sx as int);
        lemma_square_pos(sy as int);
        assert(sx != 0 || sy != 0);
    }
    let nsq: i64 = sx * sx + sy * sy;
    proof {
        assert(nsq >= 1);
    }
    let len: u64 = isqrt(nsq as u64);
    proof {
        assert(len >= 1) by (nonlinear_arith)
            requires
                (nsq as u64) >= 1,
                (nsq as u64) < (len + 1) * (len + 1),
        ;
        assert(len <= 2_000_000_000) by (nonlinear_arith)
            requires
                len * len <= 2_000_000_000_000_000_000u64,
        ;
        lemma_mul_abs_bound(sx as int, 1000, 1_000_000_000, 1000);
        lemma_mul_abs_bound(sy as int, 1000, 1_000_000_000, 1000);
    }
    let rx: i64 = div_trunc(sx * UNIT, len as i64);
    let ry: i64 = div_trunc(sy * UNIT, len as i64);
    proof {
        if norm_sq(v) == 1_000_000 {
            lemma_unit_input_comes_back(v, sx as int, sy as int, len as int, rx as int, ry as int);
        }
    }
    if -2000 <= rx && rx <= 2000 && -2000 <= ry && ry <= 2000 {
        proof {
            lemma_mul_abs_bound(rx as int, rx as int, 2000, 2000);
            lemma_mul_abs_bound(ry as int, ry as int, 2000, 2000);
        }
        let band: i64 = rx * rx + ry * ry;
        if UNIT_NORM_SQ_MIN <= band && band <= UNIT_NORM_SQ_MAX {
            return Vec2i { x: rx, y: ry };
        }
    }
    axis_unit(v)
}

/// A vector in the unit band has coordinates below twice [`UNIT`].
pub proof fn lemma_unit_bounds(v: Vec2i)
    requires
        is_unit(v),
    ensures
        -2 * UNIT < v.x < 2 * UNIT,
        -2 * UNIT < v.y < 2 * UNIT,
{
    lemma_square_pos(v.x as int);
    lemma_square_pos(v.y as int);
    assert(v.x >= 2000 ==> v.x * v.x >= 4_000_000) by (nonlinear_arith);
    assert(v.x <= -2000 ==> v.x * v.x >= 4_000_000) by (nonlinear_arith);
    assert(v.y >= 2000 ==> v.y * v.y >= 4_000_000) by (nonlinear_arith);
    assert(v.y <= -2000 ==> v.y * v.y >= 4_000_000) by (nonlinear_arith);
}

/// Rotates the direction `v` by the angle whose cosine and sine are
/// `c / UNIT` and `s / UNIT`, then rescales to the accepted length band.
///
/// If the rotated vector degenerates to zero, `v` itself is returned.
pub fn rotate_unit(v: Vec2i, c: i64, s: i64) -> (r: Vec2i)
    requires
        is_unit(v),
        -2 * UNIT <= c <= 2 * UNIT,
        -2 * UNIT <= s <= 2 * UNIT,
    ensures
        is_unit(r),
{
    proof {
        lemma_unit_bounds(v);
        lemma_mul_abs_bound(v.x as int, c as int, 2000, 2000);
        lemma_mul_abs_bound(v.y as int, s as int, 2000, 2000);
        lemma_mul_abs_bound(v.x as int, s as int, 2000, 2000);
        lemma_mul_abs_bound(v.y as int, c as int, 2000, 2000);
    }
    let rx: i64 = div_trunc(v.x * c - v.y * s, UNIT);
    let ry: i64 = div_trunc(v.x * s + v.y * c, UNIT);
    if rx == 0 && ry == 0 {
        return v;
    }
    proof {
        lemma_square_pos(rx as int);
        lemma_square_pos(ry as int);
    }
    let w: Vec2i = Vec2i { x: rx, y: ry };
    normalize(w)
}

/// Truncating division agrees with Euclidean division on exact multiples.
pub proof fn lemma_tdiv_exact(a: int, b: int)
    requires
        b > 0,
        a % b == 0,
    ensures
        tdiv(a, b) == a / b,
{
    if a < 0 {
        let q = a / b;
        vstd::arithmetic::div_mod::lemma_fundamental_div_mod(a, b);
        assert(a == b * q);
        assert(-a == b * (-q)) by (nonlinear_arith)
            requires
                a == b * q,
        ;
        vstd::arithmetic::div_mod::lemma_div_multiples_vanish(-q, b);
    }
}

/// A truncating quotient of a magnitude-bounded dividend is bounded by the
/// quotient of the bound.
pub proof fn lemma_tdiv_bound(a: int, b: int, m: int)
    requires
        b > 0,
        0 <= m,
        -m <= a <= m,
    ensures
        -(m / b) <= tdiv(a, b) <= m / b,
{
    if a >= 0 {
        vstd::arithmetic::div_mod::lemma_div_is_ordered(a, m, b);
        vstd::arithmetic::div_mod::lemma_div_pos_is_pos(a, b);
    } else {
        vstd::arithmetic::div_mod::lemma_div_is_ordered(-a, m, b);
        vstd::arithmetic::div_mod::lemma_div_pos_is_pos(-a, b);
    }
}

/// The moved point of [`add_clamped`]: `p + d`, unless that leaves the
/// representable range, in which case `p` itself.
pub open spec fn spec_add_clamped(p: Vec2i, d: Vec2i) -> Vec2i {
    if in_coord_range(Vec2i { x: (p.x + d.x) as i64, y: (p.y + d.y) as i64 }) {
        Vec2i { x: (p.x + d.x) as i64, y: (p.y + d.y) as i64 }
    } else {
        p
    }
}

/// Moves `p` by `d`, but leaves `p` in place if the move would leave the
/// representable coordinate range.
pub fn add_clamped(p: Vec2i, d: Vec2i) -> (r: Vec2i)
    requires
        in_coord_range(p),
        -1_000_000 <= d.x <= 1_000_000,
        -1_000_000 <= d.y <= 1_000_000,
    ensures
        in_coord_range(r),
        r == spec_add_clamped(p, d),
{
    let nx: i64 = p.x + d.x;
    let ny: i64 = p.y + d.y;
    if -COORD_LIMIT <= nx && nx <= COORD_LIMIT && -COORD_LIMIT <= ny && ny <= COORD_LIMIT {
        Vec2i { x: nx, y: ny }
    } else {
        p
    }
}

/// Distance between two points, rounded down to whole coordinate steps.
pub fn distance(a: Vec2i, b: Vec2i) -> (r: i64)
    requires
        in_coord_range(a),
        in_coord_range(b),
    ensures
        0 <= r <= 3_000_000_000,
        r * r <= norm_sq(a.sub_spec(b)) < (r + 1) * (r + 1),
{
    let dx: i64 = a.x - b.x;
    let dy: i64 = a.y - b.y;
    proof {
        lemma_mul_abs_bound(dx as int, dx as int, 2_000_000_000, 2_000_000_000);
        lemma_mul_abs_bound(dy as int, dy as int, 2_000_000_000, 2_000_000_000);
        lemma_square_pos(dx as int);
        lemma_square_pos(dy as int);
    }
    let nsq: i64 = dx * dx + dy * dy;
    let r: u64 = isqrt(nsq as u64);
    proof {
        assert(r <= 3_000_000_000) by (nonlinear_arith)
            requires
                r * r <= 8_000_000_000_000_000_000u64,
        ;
    }
    r as i64
}

} // verus!
