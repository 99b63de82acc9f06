//! The flow-field triangle-mesh sketch: right triangles tessellating a
//! region a fifth larger than the window, two per lattice cell, their
//! vertices displaced each frame by a noise flow field.
//!
//! Noise sampling lives outside the crate: colours are assigned there from
//! noise at initialisation, and per-frame vertex displacements arrive as
//! plain offsets after the mapping below.

use vstd::prelude::*;

use crate::color::Hsl;
use crate::geom::{in_coord_range, spec_add_clamped, tdiv, Vec2i};

verus! {

/// Leg length of each right triangle: twenty screen units.
pub const TRIANGLE_SIDE: i64 = 20_000;

/// One filled triangle.
#[derive(Clone, Copy, PartialEq, Eq, Structural, Debug)]
pub struct Triangle {
    pub a: Vec2i,
    pub b: Vec2i,
    pub c: Vec2i,
    pub color: Hsl,
}

/// The sketch's state.
#[derive(Debug)]
pub struct Model {
    pub height: i64,
    pub width: i64,
    pub mouse_position: Option<Vec2i>,
    pub triangles: Vec<Triangle>,
}

/// The triangle at flat index `k` of the tessellation: lattice cell
/// `(ki, kj)` holds its lower-left half (`second` false, lightness one
/// tenth) and its upper-right half (`second` true, lightness seven
/// tenths), both at fixed saturation.  Hues start at zero; the caller
/// colours the mesh from its noise field.
pub open spec fn mesh_tri_ok(t: Triangle, ki: int, kj: int, second: bool, we: int, he: int) -> bool {
    let x = -we + ki * (TRIANGLE_SIDE as int);
    let y = -he + kj * (TRIANGLE_SIDE as int);
    if !second {
        &&& t.a == (Vec2i { x: x as i64, y: y as i64 })
        &&& t.b == (Vec2i { x: (x + TRIANGLE_SIDE) as i64, y: y as i64 })
        &&& t.c == (Vec2i { x: x as i64, y: (y + TRIANGLE_SIDE) as i64 })
        &&& t.color == (Hsl { hue_millideg: 0, sat_permille: 700, light_permille: 100 })
    } else {
        &&& t.a == (Vec2i { x: (x + TRIANGLE_SIDE) as i64, y: (y + TRIANGLE_SIDE) as i64 })
        &&& t.b == (Vec2i { x: (x + TRIANGLE_SIDE) as i64, y: y as i64 })
        &&& t.c == (Vec2i { x: x as i64, y: (y + TRIANGLE_SIDE) as i64 })
        &&& t.color == (Hsl { hue_millideg: 0, sat_permille: 700, light_permille: 700 })
    }
}

/// Tessellates the region with half-extents a fifth larger than the
/// window's: for each lattice position from one extended corner to the
/// other, the cell's two triangles in order, column by column.
#[verifier::loop_isolation(false)]
pub fn mesh_triangles(w: i64, h: i64) -> (out: Vec<Triangle>)
    requires
        0 <= w <= 16_000_000,
        0 <= h <= 16_000_000,
    ensures
        ({
            let we = w * 6 / 10;
            let he = h * 6 / 10;
            let ni = 2 * we / (TRIANGLE_SIDE as int) + 1;
            let nj = 2 * he / (TRIANGLE_SIDE as int) + 1;
            &&& out@.len() == 2 * ni * nj
            &&& forall|k: int|
                0 <= k < out@.len() ==> mesh_tri_ok(
                    #[trigger] out@[k],
                    (k / 2) / nj,
                    (k / 2) % nj,
                    k % 2 == 1,
                    we,
                    he,
                )
        }),
{
    let we: i64 = (((w as u64) * 6) / 10) as i64;
    let he: i64 = (((h as u64) * 6) / 10) as i64;
    let ni: usize = ((2 * (we as u64)) / (TRIANGLE_SIDE as u64) + 1) as usize;
    let nj: usize = ((2 * (he as u64)) / (TRIANGLE_SIDE as u64) + 1) as usize;
    proof {
        assert(we <= 9_600_000);
        assert(he <= 9_600_000);
        vstd::arithmetic::div_mod::lemma_div_is_ordered(2 * (we as int), 19_200_000, 20_000);
        vstd::arithmetic::div_mod::lemma_div_is_ordered(2 * (he as int), 19_200_000, 20_000);
        vstd::arithmetic::div_mod::lemma_div_pos_is_pos(2 * (we as int), 20_000);
        vstd::arithmetic::div_mod::lemma_div_pos_is_pos(2 * (he as int), 20_000);
    }
    let mut out: Vec<Triangle> = Vec::new();
    let mut ki: usize = 0;
    while ki < ni
        invariant
            ki <= ni,
            out@.len() == 2 * (ki * nj),
            forall|k: int|
                0 <= k < out@.len() ==> mesh_tri_ok(
                    #[trigger] out@[k],
                    (k / 2) / (nj as int),
                    (k / 2) % (nj as int),
                    k % 2 == 1,
                    we as int,
                    he as int,
                ),
        decreases ni - ki,
    {
        let mut kj: usize = 0;
        while kj < nj
            invariant
                ki < ni,
                kj <= nj,
                out@.len() == 2 * (ki * nj) + 2 * kj,
                forall|k: int|
                    0 <= k < out@.len() ==> mesh_tri_ok(
                        #[trigger] out@[k],
                        (k / 2) / (nj as int),
                        (k / 2) % (nj as int),
                        k % 2 == 1,
                        we as int,
                        he as int,
                    ),
            decreases nj - kj,
        {
            proof {
                crate::geom::lemma_mul_abs_bound(ki as int, 20_000, 961, 20_000);
                crate::geom::lemma_mul_abs_bound(kj as int, 20_000, 961, 20_000);
                crate::geom::lemma_mul_abs_bound(ki as int, nj as int, 961, 961);
            }
            let x: i64 = -we + (ki as i64) * TRIANGLE_SIDE;
            let y: i64 = -he + (kj as i64) * TRIANGLE_SIDE;
            let t0: Triangle = Triangle {
                a: Vec2i { x, y },
                b: Vec2i { x: x + TRIANGLE_SIDE, y },
                c: Vec2i { x, y: y + TRIANGLE_SIDE },
                color: Hsl { hue_millideg: 0, sat_permille: 700, light_permille: 100 },
            };
            let t1: Triangle = Triangle {
                a: Vec2i { x: x + TRIANGLE_SIDE, y: y + TRIANGLE_SIDE },
                b: Vec2i { x: x + TRIANGLE_SIDE, y },
                c: Vec2i { x, y: y + TRIANGLE_SIDE },
                color: Hsl { hue_millideg: 0, sat_permille: 700, light_permille: 700 },
            };
            let ghost cell = (ki as int) * (nj as int) + kj as int;
            out.push(t0);
            out.push(t1);
            proof {
                vstd::arithmetic::div_mod::lemma_fundamental_div_mod_converse(
                    2 * cell,
                    2,
                    cell,
                    0,
                );
                vstd::arithmetic::div_mod::lemma_fundamental_div_mod_converse(
                    2 * cell + 1,
                    2,
                    cell,
                    1,
                );
                vstd::arithmetic::div_mod::lemma_fundamental_div_mod_converse(
                    cell,
                    nj as int,
                    ki as int,
                    kj as int,
                );
                assert(out@[2 * cell] == t0);
                assert(out@[2 * cell + 1] == t1);
            }
            kj = kj + 1;
        }
        ki = ki + 1;
        proof {
            assert(2 * ((ki as int) * (nj as int)) == 2 * (((ki - 1) as int) * (nj as int)) + 2 * (
            nj as int)) by (nonlinear_arith);
        }
    }
    proof {
        let we_s = w as int * 6 / 10;
        let he_s = h as int * 6 / 10;
        assert(we as int == we_s);
        assert(he as int == he_s);
        assert(ni as int == 2 * we_s / (TRIANGLE_SIDE as int) + 1);
        assert(nj as int == 2 * he_s / (TRIANGLE_SIDE as int) + 1);
        assert(out@.len() == 2 * ((ni as int) * (nj as int)));
        assert(2 * ((ni as int) * (nj as int)) == 2 * (ni as int) * (nj as int))
            by (nonlinear_arith);
    }
    out
}

/// Maps a raw noise value in `[-1, 1]` (thousandths) to a displacement in
/// thousandths of a unit: a tenth of a unit either way.
pub fn noise_displacement(v: i64) -> (r: i64)
    requires
        -1000 <= v <= 1000,
    ensures
        r == tdiv(v as int, 10),
        -100 <= r <= 100,
{
    proof {
        crate::geom::lemma_tdiv_bound(v as int, 10, 1000);
    }
    crate::geom::div_trunc(v, 10)
}

/// Displaces the three vertices of one triangle independently; a vertex
/// whose move would leave the representable range stays put.
pub fn displace(t: &mut Triangle, da: Vec2i, db: Vec2i, dc: Vec2i)
    requires
        in_coord_range(old(t).a),
        in_coord_range(old(t).b),
        in_coord_range(old(t).c),
        -1000 <= da.x <= 1000 && -1000 <= da.y <= 1000,
        -1000 <= db.x <= 1000 && -1000 <= db.y <= 1000,
        -1000 <= dc.x <= 1000 && -1000 <= dc.y <= 1000,
    ensures
        final(t).a == spec_add_clamped(old(t).a, da),
        final(t).b == spec_add_clamped(old(t).b, db),
        final(t).c == spec_add_clamped(old(t).c, dc),
        final(t).color == old(t).color,
{
    t.a = crate::geom::add_clamped(t.a, da);
    t.b = crate::geom::add_clamped(t.b, db);
    t.c = crate::geom::add_clamped(t.c, dc);
}

impl Model {
    /// The initial model: the tessellation of the window, to be coloured by
    /// the caller from its noise field.
    pub fn init(w: i64, h: i64) -> (r: Model)
        requires
            0 <= w <= 16_000_000,
            0 <= h <= 16_000_000,
        ensures
            r.width == w,
            r.height == h,
            r.mouse_position is None,
            ({
                let we = w * 6 / 10;
                let he = h * 6 / 10;
                let ni = 2 * we / (TRIANGLE_SIDE as int) + 1;
                let nj = 2 * he / (TRIANGLE_SIDE as int) + 1;
                &&& r.triangles@.len() == 2 * ni * nj
                &&& forall|k: int|
                    0 <= k < r.triangles@.len() ==> mesh_tri_ok(
                        #[trigger] r.triangles@[k],
                        (k / 2) / nj,
                        (k / 2) % nj,
                        k % 2 == 1,
                        we,
                        he,
                    )
            }),
    {
        Model { height: h, width: w, mouse_position: None, triangles: mesh_triangles(w, h) }
    }

    /// Applies one input event: only pointer moves matter to this sketch.
    pub fn event(&mut self, ev: crate::events::InputEvent)
        ensures
            final(self).triangles == old(self).triangles,
            final(self).width == old(self).width,
            final(self).height == old(self).height,
            ev matches crate::events::InputEvent::MouseMoved(p) ==> final(self).mouse_position
                == Some(p),
            !(ev is MouseMoved) ==> final(self).mouse_position == old(self).mouse_position,
    {
        match ev {
            crate::events::InputEvent::MouseMoved(p) => {
                self.mouse_position = Some(p);
            },
            _ => {},
        }
    }
}

} // verus!
