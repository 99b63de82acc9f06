//! The procedural tree-growth simulation: a hierarchy of branches fed by
//! randomly split growth pulses.
//!
//! Resources are held in thousandths of a resource unit.  Every branch keeps
//! its pool non-negative: spending is always bounded by current holdings, and
//! a pool saturates at [`RESOURCES_CAP`] rather than overflowing.  Every
//! stored growth direction stays in the unit-length band.

use vstd::prelude::*;

use crate::color::{color_wf, Hsl, HUE_TURN};
use crate::geom::{
    in_coord_range, is_unit, lemma_unit_bounds, normalize, Vec2i, COORD_LIMIT, UNIT,
};
use crate::rng::{coin, rand_below, rand_in_range};

verus! {

/// Resources above which a branch may spawn a side child.
pub const NEW_BRANCH_RESOURCES_LEVEL: i64 = 10_000;

/// Resources above which an unstopped branch may extend its tip.
pub const GROWTH_MIN_RESOURCES_LEVEL: i64 = 5_000;

/// Least cost of spawning a child branch.
pub const BRANCH_COST_MIN: i64 = 6_000;

/// Greatest cost of spawning a child branch.
pub const BRANCH_COST_MAX: i64 = 10_000;

/// A branch's resource pool saturates here instead of overflowing.
pub const RESOURCES_CAP: i64 = 1_000_000_000_000;

/// A branch stops taking new children beyond this count.
pub const CHILDREN_CAP: usize = 1_000_000;

/// How many stop-and-continue handoffs one growth pulse may chain.
pub const CONTINUATION_FUEL: u32 = 64;

/// Wall-clock milliseconds that must accumulate between growth steps.
pub const UPDATE_DELAY: u64 = 1200;

/// The sun-pull strategy: given a tip, it yields the point the branch is
/// drawn toward.  The one strategy in use targets the tip's own horizontal
/// position at a fixed height.
#[derive(Clone, Copy, PartialEq, Eq, Structural, Debug)]
pub struct SunDirection {
    pub target_height: i64,
}

impl SunDirection {
    /// The target height is a representable coordinate.
    pub open spec fn wf(self) -> bool {
        -COORD_LIMIT <= self.target_height <= COORD_LIMIT
    }

    /// Unit direction from `tip` toward the sun's target point — straight
    /// up when the target is above the tip, straight down when below, zero
    /// when the tip already sits at the target.
    pub fn direction_from(&self, tip: Vec2i) -> (r: Vec2i)
        requires
            self.wf(),
            in_coord_range(tip),
        ensures
            tip.y == self.target_height ==> r == (Vec2i { x: 0, y: 0 }),
            tip.y != self.target_height ==> is_unit(r),
            r.x == 0,
            tip.y < self.target_height ==> r.y > 0,
            tip.y > self.target_height ==> r.y < 0,
    {
        let dy: i64 = self.target_height - tip.y;
        // The direction only depends on the sign, so the offset may be
        // clamped into the representable range.
        let dyc: i64 = if dy > COORD_LIMIT {
            COORD_LIMIT
        } else if dy < -COORD_LIMIT {
            -COORD_LIMIT
        } else {
            dy
        };
        let d: Vec2i = Vec2i { x: 0, y: dyc };
        proof {
            crate::geom::lemma_square_pos(d.y as int);
        }
        let r: Vec2i = normalize(d);
        proof {
            if dyc != 0 {
                crate::geom::lemma_square_pos(r.x as int);
                crate::geom::lemma_square_pos(r.y as int);
                assert(r.y != 0);
            }
        }
        r
    }
}

/// One branch of the tree: a segment from `base` to `tip`, a growth
/// direction, a colour, an owned list of children, and a resource pool.
#[derive(Debug)]
pub struct Branch {
    pub base: Vec2i,
    pub tip: Vec2i,
    pub growth_direction: Vec2i,
    pub children: Vec<Branch>,
    pub color: Hsl,
    pub resources: i64,
    pub stopped: bool,
}

/// Larger of two naturals.
pub open spec fn nat_max(a: nat, b: nat) -> nat {
    if a >= b {
        a
    } else {
        b
    }
}

/// Height of the tallest branch in the sequence, or zero.
pub open spec fn children_height(s: Seq<Branch>) -> nat
    decreases s,
{
    if s.len() == 0 {
        0
    } else {
        nat_max(children_height(s.drop_last()), s.last().height())
    }
}

/// Branches in the sequence, counted recursively.
pub open spec fn children_count(s: Seq<Branch>) -> nat
    decreases s,
{
    if s.len() == 0 {
        0
    } else {
        children_count(s.drop_last()) + s.last().node_count()
    }
}

impl Branch {
    /// Height of the branch hierarchy rooted here.
    pub open spec fn height(self) -> nat
        decreases self,
    {
        1 + children_height(self.children@)
    }

    /// Branches in the hierarchy rooted here, this one included.
    pub open spec fn node_count(self) -> nat
        decreases self,
    {
        1 + children_count(self.children@)
    }

    /// Well-formedness, holding recursively of every branch below: the pool
    /// lies in `[0, RESOURCES_CAP]`, the growth direction is unit-length,
    /// both endpoints are representable, the colour is in range, and the
    /// child list is within its cap.
    pub open spec fn wf(self) -> bool
        decreases self,
    {
        &&& 0 <= self.resources <= RESOURCES_CAP
        &&& is_unit(self.growth_direction)
        &&& in_coord_range(self.base)
        &&& in_coord_range(self.tip)
        &&& color_wf(self.color)
        &&& self.children@.len() <= CHILDREN_CAP
        &&& forall|i: int| 0 <= i < self.children@.len() ==> (#[trigger] self.children@[i]).wf()
    }

    /// Plants a new branch at `base`, growing along `direction` (normalized
    /// on storage), with no children and no resources.
    pub fn new(base: Vec2i, direction: Vec2i, color: Hsl) -> (r: Branch)
        requires
            in_coord_range(base),
            in_coord_range(direction),
            crate::geom::norm_sq(direction) != 0,
            color_wf(color),
        ensures
            r.wf(),
            r.base == base,
            r.tip == base,
            is_unit(r.growth_direction),
            crate::geom::norm_sq(direction) == UNIT * UNIT ==> r.growth_direction == direction,
            direction.x >= 0 ==> r.growth_direction.x >= 0,
            direction.x <= 0 ==> r.growth_direction.x <= 0,
            direction.y >= 0 ==> r.growth_direction.y >= 0,
            direction.y <= 0 ==> r.growth_direction.y <= 0,
            r.children@.len() == 0,
            r.color == color,
            r.resources == 0,
            !r.stopped,
    {
        Branch {
            base,
            tip: base,
            growth_direction: normalize(direction),
            children: Vec::new(),
            color,
            resources: 0,
            stopped: false,
        }
    }
}

/// What one growth pulse never changes, recursively: every branch that
/// existed keeps its base, colour, growth direction and its place in its
/// parent's list; a stopped branch stays stopped and its tip stays put.
pub open spec fn advance_preserves(pre: Branch, post: Branch) -> bool
    decreases pre,
{
    &&& post.base == pre.base
    &&& post.color == pre.color
    &&& post.growth_direction == pre.growth_direction
    &&& post.children@.len() >= pre.children@.len()
    &&& (pre.stopped ==> post.stopped)
    &&& (pre.stopped ==> post.tip == pre.tip)
    &&& forall|i: int|
        0 <= i < pre.children@.len() ==> advance_preserves(
            #[trigger] pre.children@[i],
            post.children@[i],
        )
}

/// Leaving a branch alone preserves it.
proof fn lemma_preserves_refl(b: Branch)
    ensures
        advance_preserves(b, b),
    decreases b,
{
    assert forall|i: int| 0 <= i < b.children@.len() implies advance_preserves(
        #[trigger] b.children@[i],
        b.children@[i],
    ) by {
        lemma_preserves_refl(b.children@[i]);
    }
}

/// Resources held across a sequence of branch hierarchies.
pub open spec fn children_pool_sum(s: Seq<Branch>) -> int
    decreases s,
{
    if s.len() == 0 {
        0
    } else {
        children_pool_sum(s.drop_last()) + pool_sum(s.last())
    }
}

/// Resources held by the branch and everything below it.
pub open spec fn pool_sum(b: Branch) -> int
    decreases b,
{
    b.resources + children_pool_sum(b.children@)
}

/// Replacing one element of a sequence changes its pool total by the
/// difference of the two elements' totals.
proof fn lemma_pool_sum_update(s: Seq<Branch>, i: int, x: Branch)
    requires
        0 <= i < s.len(),
    ensures
        children_pool_sum(s.update(i, x)) == children_pool_sum(s) - pool_sum(s[i]) + pool_sum(x),
    decreases s.len(),
{
    if i == s.len() - 1 {
        assert(s.update(i, x).drop_last() =~= s.drop_last());
        assert(s.update(i, x).last() == x);
        assert(s.last() == s[i]);
    } else {
        lemma_pool_sum_update(s.drop_last(), i, x);
        assert(s.update(i, x).drop_last() =~= s.drop_last().update(i, x));
        assert(s.update(i, x).last() == s.last());
        assert(s.drop_last()[i] == s[i]);
    }
}

/// Appending an element adds its pool total.
proof fn lemma_pool_sum_push(s: Seq<Branch>, x: Branch)
    ensures
        children_pool_sum(s.push(x)) == children_pool_sum(s) + pool_sum(x),
{
    assert(s.push(x).drop_last() =~= s);
    assert(s.push(x).last() == x);
}

/// Every branch of the sequence is at most as tall as the sequence.
proof fn lemma_child_height(s: Seq<Branch>, i: int)
    requires
        0 <= i < s.len(),
    ensures
        s[i].height() <= children_height(s),
    decreases s.len(),
{
    if i == s.len() - 1 {
        assert(s.last() == s[i]);
    } else {
        lemma_child_height(s.drop_last(), i);
        assert(s.drop_last()[i] == s[i]);
    }
}

/// Cosine and sine, in thousandths, of sixteen angles spread over the
/// jitter range of roughly one twentieth of a turn either way.
fn jitter_entry(k: u64) -> (r: (i64, i64))
    ensures
        -1000 <= r.0 <= 1000,
        -1000 <= r.1 <= 1000,
{
    match k {
        0 => (951, -309),
        1 => (963, -269),
        2 => (974, -228),
        3 => (982, -187),
        4 => (989, -146),
        5 => (995, -105),
        6 => (998, -63),
        7 => (1000, -21),
        8 => (1000, 21),
        9 => (998, 63),
        10 => (995, 105),
        11 => (989, 146),
        12 => (982, 187),
        13 => (974, 228),
        14 => (963, 269),
        _ => (951, 309),
    }
}

/// A child's colour: the parent's, with the hue walked by `delta` and
/// wrapped to a full turn; saturation and lightness are inherited unchanged.
pub fn child_color(color: Hsl, delta: i64) -> (r: Hsl)
    requires
        color_wf(color),
        -54_000 <= delta <= 54_000,
    ensures
        color_wf(r),
        r.hue_millideg == (color.hue_millideg + delta) % (HUE_TURN as int),
        r.sat_permille == color.sat_permille,
        r.light_permille == color.light_permille,
{
    Hsl {
        hue_millideg: crate::color::wrap_hue(color.hue_millideg + delta),
        sat_permille: color.sat_permille,
        light_permille: color.light_permille,
    }
}

/// Spends `cost` from a pool at or above the branching threshold and builds
/// the child branch: the parent's direction turned a quarter turn (the way
/// `flip` says), blended toward the sun, jittered, with a hue-walked colour.
///
/// The remaining pool is exactly `resources - cost`, which is never
/// negative: the threshold is at least the greatest cost.
pub fn spawn_child_branch(
    tip: Vec2i,
    growth_direction: Vec2i,
    color: Hsl,
    resources: i64,
    cost: i64,
    flip: bool,
    jitter: u64,
    hue_delta: i64,
    sun: &SunDirection,
) -> (r: (Branch, i64))
    requires
        in_coord_range(tip),
        is_unit(growth_direction),
        color_wf(color),
        NEW_BRANCH_RESOURCES_LEVEL <= resources <= RESOURCES_CAP,
        BRANCH_COST_MIN <= cost <= BRANCH_COST_MAX,
        -54_000 <= hue_delta <= 54_000,
        sun.wf(),
    ensures
        r.1 == resources - cost,
        r.1 >= 0,
        r.0.wf(),
        r.0.base == tip,
        r.0.tip == tip,
        r.0.children@.len() == 0,
        r.0.resources == 0,
        r.0.color.sat_permille == color.sat_permille,
        r.0.color.light_permille == color.light_permille,
{
    proof {
        lemma_unit_bounds(growth_direction);
    }
    let rotated: Vec2i = if flip {
        growth_direction.rotate90()
    } else {
        growth_direction.rotate270()
    };
    let sun_dir: Vec2i = sun.direction_from(tip);
    proof {
        if tip.y != sun.target_height {
            lemma_unit_bounds(sun_dir);
        }
    }
    // The parent's turned direction, weighted nine quarters, plus the pull
    // of the sun.
    let bx: i64 = crate::geom::div_trunc(9 * rotated.x, 4) + sun_dir.x;
    let by: i64 = crate::geom::div_trunc(9 * rotated.y, 4) + sun_dir.y;
    let combined: Vec2i = if bx == 0 && by == 0 {
        rotated
    } else {
        proof {
            crate::geom::lemma_square_pos(bx as int);
            crate::geom::lemma_square_pos(by as int);
        }
        normalize(Vec2i { x: bx, y: by })
    };
    let (c, s): (i64, i64) = jitter_entry(jitter);
    let dir: Vec2i = crate::geom::rotate_unit(combined, c, s);
    let child: Branch = Branch {
        base: tip,
        tip,
        growth_direction: dir,
        children: Vec::new(),
        color: child_color(color, hue_delta),
        resources: 0,
        stopped: false,
    };
    (child, resources - cost)
}

/// Law: at or above the branching threshold, spending any admissible
/// branching cost leaves the pool non-negative — a branch holding exactly
/// the threshold can pay even the greatest cost.
pub proof fn lemma_branching_spend_safe(resources: int, cost: int)
    requires
        resources >= NEW_BRANCH_RESOURCES_LEVEL,
        BRANCH_COST_MIN <= cost <= BRANCH_COST_MAX,
    ensures
        resources - cost >= 0,
{
}

/// Every pool in a well-formed branch hierarchy is non-negative.
pub open spec fn all_resources_nonneg(b: Branch) -> bool
    decreases b,
{
    &&& 0 <= b.resources
    &&& forall|i: int|
        0 <= i < b.children@.len() ==> all_resources_nonneg(#[trigger] b.children@[i])
}

/// Law: well-formedness carries non-negativity of every resource pool in
/// the hierarchy, so any sequence of growth steps that preserves
/// well-formedness keeps every pool at or above zero.
pub proof fn lemma_wf_resources_nonneg(b: Branch)
    requires
        b.wf(),
    ensures
        all_resources_nonneg(b),
    decreases b,
{
    assert forall|i: int| 0 <= i < b.children@.len() implies all_resources_nonneg(
        #[trigger] b.children@[i],
    ) by {
        lemma_wf_resources_nonneg(b.children@[i]);
    }
}

impl Branch {
    /// One growth pulse.
    ///
    /// The branch keeps a random share of the pulse, hands random chunks of
    /// the rest to its children in reverse order, and absorbs whatever they
    /// leave.  A rich branch may spawn a side child; an unstopped branch may
    /// extend its tip or, if it disagrees with the sun, stop for good and
    /// hand its pool to a continuation child.  `fuel` bounds how long a
    /// chain of such handoffs a single pulse may build.
    #[verifier::loop_isolation(false)]
    pub fn advance(self, additional_resources: i64, sun: &SunDirection, fuel: u32) -> (r: Branch)
        requires
            self.wf(),
            0 <= additional_resources <= RESOURCES_CAP,
            sun.wf(),
        ensures
            r.wf(),
            advance_preserves(self, r),
            all_resources_nonneg(r),
            pool_sum(r) <= pool_sum(self) + additional_resources,
            r.tip == self.tip || (exists|g: int|
                4000 <= g < 10000 && r.tip == crate::geom::spec_add_clamped(
                    self.tip,
                    self.growth_direction.scale_frac_spec(g, 1000),
                )),
            self.children@.len() == 0 && self.resources + additional_resources
                <= GROWTH_MIN_RESOURCES_LEVEL ==> r.resources == self.resources
                + additional_resources && r.tip == self.tip && r.children@.len() == 0
                && r.stopped == self.stopped,
            additional_resources == 0 ==> r == self,
        decreases fuel, self.height(),
    {
        if additional_resources == 0 {
            proof {
                lemma_wf_resources_nonneg(self);
                lemma_preserves_refl(self);
            }
            return self;
        }
        let ghost init = self;
        let mut b: Branch = self;
        let child_count: usize = b.children.len();
        let divisor: i64 = (child_count as i64 + 3) * (if b.stopped {
            20
        } else {
            1
        });
        let bound: i64 = ((additional_resources as u64) / (divisor as u64)) as i64;
        proof {
            vstd::arithmetic::div_mod::lemma_div_nonincreasing(
                additional_resources as int,
                divisor as int,
            );
        }
        let accumulate: i64 = rand_in_range(0, bound + 1);
        let mut remaining: i64 = additional_resources - accumulate;
        proof {
            assert forall|m: int| 0 <= m < b.children@.len() implies advance_preserves(
                #[trigger] init.children@[m],
                b.children@[m],
            ) by {
                lemma_preserves_refl(init.children@[m]);
            }
        }
        let mut idx: usize = child_count;
        while idx > 0
            invariant
                idx <= child_count,
                b.children@.len() == child_count,
                child_count == init.children@.len(),
                init.wf(),
                sun.wf(),
                0 <= remaining <= RESOURCES_CAP,
                forall|m: int| 0 <= m < idx ==> b.children@[m] == init.children@[m],
                forall|m: int|
                    0 <= m < b.children@.len() ==> (#[trigger] b.children@[m]).wf(),
                forall|m: int|
                    0 <= m < b.children@.len() ==> advance_preserves(
                        #[trigger] init.children@[m],
                        b.children@[m],
                    ),
                accumulate + remaining <= additional_resources,
                init.children@.len() == 0 ==> remaining == additional_resources - accumulate,
                children_pool_sum(b.children@) <= children_pool_sum(init.children@) + (
                additional_resources - accumulate - remaining),
                b.base == init.base,
                b.tip == init.tip,
                b.growth_direction == init.growth_direction,
                b.color == init.color,
                b.resources == init.resources,
                b.stopped == init.stopped,
            decreases idx,
        {
            idx = idx - 1;
            let chunk: i64 = rand_in_range(0, remaining + 1);
            let ghost before = b.children@;
            let c: Branch = b.children.remove(idx);
            proof {
                assert(c == init.children@[idx as int]);
                lemma_child_height(init.children@, idx as int);
                assert(init.height() == 1 + children_height(init.children@));
                assert(c.height() < init.height());
            }
            let c2: Branch = c.advance(chunk, sun, fuel);
            b.children.insert(idx, c2);
            proof {
                assert(b.children@ =~= before.update(idx as int, c2));
                lemma_pool_sum_update(before, idx as int, c2);
            }
            remaining = remaining - chunk;
        }
        // This branch absorbs its own share plus whatever the children left.
        let gain: i64 = accumulate + remaining;
        if b.resources <= RESOURCES_CAP - gain {
            b.resources = b.resources + gain;
        } else {
            b.resources = RESOURCES_CAP;
        }
        // Side branching.
        if b.resources > NEW_BRANCH_RESOURCES_LEVEL {
            if rand_below(1000) < 250 {
                let cost: i64 = rand_in_range(BRANCH_COST_MIN, BRANCH_COST_MAX);
                let flip: bool = coin();
                let jitter: u64 = rand_below(16);
                let hue_delta: i64 = rand_in_range(-54_000, 54_001);
                let spawned: (Branch, i64) = spawn_child_branch(
                    b.tip,
                    b.growth_direction,
                    b.color,
                    b.resources,
                    cost,
                    flip,
                    jitter,
                    hue_delta,
                    sun,
                );
                b.resources = spawned.1;
                if b.children.len() < CHILDREN_CAP {
                    proof {
                        lemma_pool_sum_push(b.children@, spawned.0);
                    }
                    b.children.push(spawned.0);
                }
            }
        }
        // Tip growth, or termination with a continuation child.
        if !b.stopped && b.resources > GROWTH_MIN_RESOURCES_LEVEL {
            if rand_below(1000) < 150 {
                let sun_dir: Vec2i = sun.direction_from(b.tip);
                let mut stop_taken: bool = false;
                if sun_dir.x != b.growth_direction.x || sun_dir.y != b.growth_direction.y {
                    if rand_below(1000) < 250 && fuel > 0 {
                        proof {
                            lemma_unit_bounds(b.growth_direction);
                            if b.tip.y != sun.target_height {
                                lemma_unit_bounds(sun_dir);
                            }
                        }
                        let nd: Vec2i = Vec2i {
                            x: b.growth_direction.x + sun_dir.x,
                            y: b.growth_direction.y + sun_dir.y,
                        };
                        proof {
                            crate::geom::lemma_square_pos(nd.x as int);
                            crate::geom::lemma_square_pos(nd.y as int);
                        }
                        if nd.x != 0 || nd.y != 0 {
                            stop_taken = true;
                            b.stopped = true;
                            let growth: i64 = b.resources;
                            b.resources = 0;
                            let continuation: Branch = Branch::new(b.tip, nd, b.color);
                            let grown: Branch = continuation.advance(growth, sun, fuel - 1);
                            if b.children.len() < CHILDREN_CAP {
                                proof {
                                    lemma_pool_sum_push(b.children@, grown);
                                }
                                b.children.push(grown);
                            }
                        }
                    }
                }
                if !stop_taken {
                    let growth: i64 = rand_in_range(1000, 2500);
                    b.resources = b.resources - growth;
                    proof {
                        lemma_unit_bounds(b.growth_direction);
                    }
                    let step: Vec2i = b.growth_direction.scale_frac(growth * 4, UNIT);
                    proof {
                        crate::geom::lemma_mul_abs_bound(
                            b.growth_direction.x as int,
                            (growth * 4) as int,
                            2000,
                            10_000,
                        );
                        crate::geom::lemma_mul_abs_bound(
                            b.growth_direction.y as int,
                            (growth * 4) as int,
                            2000,
                            10_000,
                        );
                        crate::geom::lemma_tdiv_bound(
                            b.growth_direction.x * (growth * 4),
                            1000,
                            20_000_000,
                        );
                        crate::geom::lemma_tdiv_bound(
                            b.growth_direction.y * (growth * 4),
                            1000,
                            20_000_000,
                        );
                    }
                    b.tip = crate::geom::add_clamped(b.tip, step);
                    proof {
                        assert(4000 <= growth * 4 < 10000);
                        assert(b.tip == crate::geom::spec_add_clamped(
                            init.tip,
                            init.growth_direction.scale_frac_spec(growth * 4, 1000),
                        ));
                        assert(exists|g: int|
                            4000 <= g < 10000 && b.tip == crate::geom::spec_add_clamped(
                                init.tip,
                                init.growth_direction.scale_frac_spec(g, 1000),
                            ));
                    }
                }
            }
        }
        proof {
            lemma_wf_resources_nonneg(b);
        }
        b
    }
}

/// The segments of a sequence of branch hierarchies, in order.
pub open spec fn children_segments(s: Seq<Branch>) -> Seq<(Vec2i, Vec2i, Hsl)>
    decreases s,
{
    if s.len() == 0 {
        Seq::empty()
    } else {
        children_segments(s.drop_last()) + s.last().spec_segments()
    }
}

impl Branch {
    /// The hierarchy's (base, tip, colour) segments: this branch first,
    /// then each child's subtree in storage order.
    pub open spec fn spec_segments(self) -> Seq<(Vec2i, Vec2i, Hsl)>
        decreases self,
    {
        seq![(self.base, self.tip, self.color)] + children_segments(self.children@)
    }

    /// Every segment of the hierarchy, trunk first and then each child's
    /// subtree in storage order, as (base, tip, colour) triples ready to be
    /// drawn as lines.
    #[verifier::loop_isolation(false)]
    pub fn segments(&self) -> (r: Vec<(Vec2i, Vec2i, Hsl)>)
        ensures
            r@ =~= self.spec_segments(),
            r@.len() == self.node_count(),
            r@[0] == (self.base, self.tip, self.color),
        decreases self.height(),
    {
        let mut out: Vec<(Vec2i, Vec2i, Hsl)> = Vec::new();
        out.push((self.base, self.tip, self.color));
        proof {
            assert(self.children@.take(0) =~= Seq::<Branch>::empty());
            assert(out@ =~= seq![(self.base, self.tip, self.color)] + children_segments(
                self.children@.take(0),
            ));
        }
        let mut i: usize = 0;
        while i < self.children.len()
            invariant
                i <= self.children@.len(),
                out@.len() == 1 + children_count(self.children@.take(i as int)),
                out@ =~= seq![(self.base, self.tip, self.color)] + children_segments(
                    self.children@.take(i as int),
                ),
                out@[0] == (self.base, self.tip, self.color),
            decreases self.children@.len() - i,
        {
            proof {
                lemma_child_height(self.children@, i as int);
                assert(self.height() == 1 + children_height(self.children@));
            }
            let mut cs: Vec<(Vec2i, Vec2i, Hsl)> = self.children[i].segments();
            out.append(&mut cs);
            proof {
                assert(self.children@.take(i + 1).drop_last() =~= self.children@.take(i as int));
                assert(self.children@.take(i + 1).last() == self.children@[i as int]);
                assert(out@ =~= seq![(self.base, self.tip, self.color)] + children_segments(
                    self.children@.take(i + 1),
                ));
            }
            i = i + 1;
        }
        proof {
            assert(self.children@.take(self.children@.len() as int) =~= self.children@);
        }
        out
    }
}

/// The whole tree: exactly one root branch, the trunk.
#[derive(Debug)]
pub struct Tree {
    pub trunk: Branch,
}

impl Tree {
    /// Plants a tree at `base`, growing straight up.
    pub fn new(base: Vec2i, color: Hsl) -> (r: Tree)
        requires
            in_coord_range(base),
            color_wf(color),
        ensures
            r.trunk.wf(),
            r.trunk.base == base,
            r.trunk.tip == base,
            r.trunk.growth_direction == (Vec2i { x: 0, y: UNIT }),
            r.trunk.color == color,
            r.trunk.children@.len() == 0,
            r.trunk.resources == 0,
            !r.trunk.stopped,
    {
        let up: Vec2i = Vec2i { x: 0, y: UNIT };
        proof {
            assert(up.y * up.y == 1_000_000) by (nonlinear_arith)
                requires
                    up.y == 1000,
            ;
            assert(up.x * up.x == 0) by (nonlinear_arith)
                requires
                    up.x == 0,
            ;
            assert(UNIT * UNIT == 1_000_000) by (nonlinear_arith)
                requires
                    UNIT == 1000,
            ;
        }
        Tree { trunk: Branch::new(base, up, color) }
    }
}

/// The tree sketch's state between frames.
#[derive(Debug)]
pub struct Model {
    pub height: i64,
    pub width: i64,
    pub mouse_position: Option<Vec2i>,
    pub delay: u64,
    pub tree: Tree,
    pub sun_direction: SunDirection,
}

impl Model {
    /// The model is usable: a well-formed tree, a representable sun target,
    /// and an accumulator that never exceeds the update delay.
    pub open spec fn wf(self) -> bool {
        &&& self.tree.trunk.wf()
        &&& self.sun_direction.wf()
        &&& self.delay <= UPDATE_DELAY
    }

    /// The initial model for a window of the given size: the trunk is
    /// planted one unit above the bottom centre, coloured with a random hue
    /// from the green band at full saturation and half lightness, and the
    /// sun's target sits at the window height.
    pub fn init(width: i64, height: i64) -> (r: Model)
        requires
            0 < width <= COORD_LIMIT,
            0 < height <= COORD_LIMIT,
        ensures
            r.wf(),
            r.width == width,
            r.height == height,
            r.mouse_position is None,
            r.delay == 0,
            r.sun_direction.target_height == height,
            r.tree.trunk.base.x == 0,
            r.tree.trunk.base.y == UNIT - height / 2,
            100_000 <= r.tree.trunk.color.hue_millideg <= 140_000,
            r.tree.trunk.color.sat_permille == 1000,
            r.tree.trunk.color.light_permille == 500,
            r.tree.trunk.children@.len() == 0,
    {
        let hue: i64 = rand_in_range(100_000, 140_001);
        let color: Hsl = Hsl { hue_millideg: hue, sat_permille: 1000, light_permille: 500 };
        let half: i64 = ((height as u64) / 2) as i64;
        let base: Vec2i = Vec2i { x: 0, y: UNIT - half };
        Model {
            height,
            width,
            mouse_position: None,
            delay: 0,
            tree: Tree::new(base, color),
            sun_direction: SunDirection { target_height: height },
        }
    }

    /// One per-frame step of the growth gate: wall-clock time accumulates,
    /// and once more than [`UPDATE_DELAY`] milliseconds have gathered, the
    /// trunk takes one growth pulse sized by the elapsed application time
    /// and the accumulator restarts.
    pub fn update(&mut self, since_prev_ms: u64, since_start_ms: i64)
        requires
            old(self).wf(),
            since_prev_ms <= 1_000_000_000,
            0 <= since_start_ms <= RESOURCES_CAP,
        ensures
            final(self).wf(),
            final(self).width == old(self).width,
            final(self).height == old(self).height,
            final(self).mouse_position == old(self).mouse_position,
            final(self).sun_direction == old(self).sun_direction,
            final(self).tree.trunk.base == old(self).tree.trunk.base,
            final(self).tree.trunk.color == old(self).tree.trunk.color,
            old(self).delay + since_prev_ms <= UPDATE_DELAY ==> final(self).delay == old(
                self,
            ).delay + since_prev_ms && final(self).tree == old(self).tree,
            old(self).delay + since_prev_ms > UPDATE_DELAY ==> final(self).delay == 0
                && advance_preserves(old(self).tree.trunk, final(self).tree.trunk)
                && all_resources_nonneg(final(self).tree.trunk)
                && pool_sum(final(self).tree.trunk) <= pool_sum(old(self).tree.trunk)
                + since_start_ms,
            old(self).delay + since_prev_ms > UPDATE_DELAY && old(
                self,
            ).tree.trunk.children@.len() == 0 && old(self).tree.trunk.resources + since_start_ms
                <= GROWTH_MIN_RESOURCES_LEVEL ==> final(self).tree.trunk.resources == old(
                self,
            ).tree.trunk.resources + since_start_ms,
    {
        let d: u64 = self.delay + since_prev_ms;
        if d > UPDATE_DELAY {
            let mut t: Branch = Branch {
                base: Vec2i { x: 0, y: 0 },
                tip: Vec2i { x: 0, y: 0 },
                growth_direction: Vec2i { x: 0, y: UNIT },
                children: Vec::new(),
                color: Hsl { hue_millideg: 0, sat_permille: 0, light_permille: 0 },
                resources: 0,
                stopped: false,
            };
            proof {
                let gd = Vec2i { x: 0, y: 1000 };
                assert(gd.y * gd.y == 1_000_000) by (nonlinear_arith)
                    requires
                        gd.y == 1000,
                ;
                assert(gd.x * gd.x == 0) by (nonlinear_arith)
                    requires
                        gd.x == 0,
                ;
            }
            core::mem::swap(&mut t, &mut self.tree.trunk);
            let grown: Branch = t.advance(since_start_ms, &self.sun_direction, CONTINUATION_FUEL);
            self.tree.trunk = grown;
            self.delay = 0;
        } else {
            self.delay = d;
        }
    }

    /// Applies one input event: pointer moves are tracked, and a press asks
    /// the caller to report the last known pointer position.
    pub fn event(&mut self, ev: crate::events::InputEvent) -> (report: Option<Option<Vec2i>>)
        ensures
            final(self).tree == old(self).tree,
            final(self).delay == old(self).delay,
            final(self).width == old(self).width,
            final(self).height == old(self).height,
            final(self).sun_direction == old(self).sun_direction,
            ev matches crate::events::InputEvent::MouseMoved(p) ==> final(self).mouse_position
                == Some(p) && report is None,
            ev is MousePressed ==> final(self).mouse_position == old(self).mouse_position
                && report == Some(old(self).mouse_position),
            ev is MouseReleased ==> final(self).mouse_position == old(self).mouse_position
                && report is None,
    {
        match ev {
            crate::events::InputEvent::MouseMoved(p) => {
                self.mouse_position = Some(p);
                None
            },
            crate::events::InputEvent::MousePressed => Some(self.mouse_position),
            crate::events::InputEvent::MouseReleased => None,
        }
    }
}

} // verus!
