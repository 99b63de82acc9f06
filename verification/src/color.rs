//! Colour values in integer units: hue in thousandths of a degree,
//! saturation, lightness and alpha in thousandths.

use vstd::prelude::*;

verus! {

/// One full hue turn, in thousandths of a degree.
pub const HUE_TURN: i64 = 360_000;

/// A hue/saturation/lightness colour.
#[derive(Clone, Copy, PartialEq, Eq, Structural, Debug)]
pub struct Hsl {
    pub hue_millideg: i64,
    pub sat_permille: i64,
    pub light_permille: i64,
}

/// A hue/saturation/lightness colour with an alpha channel.
#[derive(Clone, Copy, PartialEq, Eq, Structural, Debug)]
pub struct Hsla {
    pub hue_millideg: i64,
    pub sat_permille: i64,
    pub light_permille: i64,
    pub alpha_permille: i64,
}

/// The hue is wrapped to one turn and the fractions lie in `[0, 1]`.
pub open spec fn color_wf(c: Hsl) -> bool {
    &&& 0 <= c.hue_millideg < HUE_TURN
    &&& 0 <= c.sat_permille <= 1000
    &&& 0 <= c.light_permille <= 1000
}

impl Hsl {
    /// Builds the colour with the given channels.
    pub fn new(hue_millideg: i64, sat_permille: i64, light_permille: i64) -> (r: Hsl)
        ensures
            r.hue_millideg == hue_millideg,
            r.sat_permille == sat_permille,
            r.light_permille == light_permille,
    {
        Hsl { hue_millideg, sat_permille, light_permille }
    }
}

/// Wraps a hue that may have wandered at most one turn out of range back
/// into `[0, HUE_TURN)`.
pub fn wrap_hue(h: i64) -> (r: i64)
    requires
        -HUE_TURN <= h < 2 * HUE_TURN,
    ensures
        r == h % HUE_TURN,
        0 <= r < HUE_TURN,
{
    if h < 0 {
        let r: i64 = h + HUE_TURN;
        proof {
            vstd::arithmetic::div_mod::lemma_small_mod(r as nat, HUE_TURN as nat);
            vstd::arithmetic::div_mod::lemma_mod_multiples_vanish(1, h as int, HUE_TURN as int);
        }
        r
    } else if h >= HUE_TURN {
        let r: i64 = h - HUE_TURN;
        proof {
            vstd::arithmetic::div_mod::lemma_small_mod(r as nat, HUE_TURN as nat);
            vstd::arithmetic::div_mod::lemma_mod_multiples_vanish(-1, h as int, HUE_TURN as int);
        }
        r
    } else {
        proof {
            vstd::arithmetic::div_mod::lemma_small_mod(h as nat, HUE_TURN as nat);
        }
        h
    }
}

} // verus!
