//! Tests of the sketch models: grids, the swarm update, light trails, the
//! growing tree, the flower garden, the triangle mesh and the template.

use art_sketches::color::Hsl;
use art_sketches::events::InputEvent;
use art_sketches::flowers;
use art_sketches::geom::{distance, isqrt, normalize, Vec2i};
use art_sketches::grid::grid_points;
use art_sketches::mesh;
use art_sketches::pointgrid;
use art_sketches::rng::{coin, rand_below, rand_in_range};
use art_sketches::swarm::{
    correct_to_range, par_update_swarm, swarm_step, update_swarm, SwarmPoint,
};
use art_sketches::template;
use art_sketches::trail::{self, TrailPoint};
use art_sketches::tree::{
    child_color, spawn_child_branch, Branch, SunDirection, Tree, BRANCH_COST_MAX,
    CONTINUATION_FUEL,
};

fn v(x: i64, y: i64) -> Vec2i {
    Vec2i { x, y }
}

fn green() -> Hsl {
    Hsl { hue_millideg: 120_000, sat_permille: 1000, light_permille: 500 }
}

/// Walks a branch hierarchy checking that every resource pool is
/// non-negative and every stored direction is in the unit-length band.
fn check_branch(b: &Branch) {
    assert!(b.resources >= 0);
    let n2 = b.growth_direction.x * b.growth_direction.x
        + b.growth_direction.y * b.growth_direction.y;
    assert!((990_000..=1_010_000).contains(&n2));
    for c in &b.children {
        check_branch(c);
    }
}

#[test]
fn test_vector_ops() {
    let a = Vec2i::new(3, 4);
    let b = Vec2i::zero();
    assert_eq!(a.add(Vec2i { x: 1, y: -1 }), v(4, 3));
    assert_eq!(a.sub(Vec2i { x: 1, y: -1 }), v(2, 5));
    assert_eq!(b, v(0, 0));
    assert_eq!(a.rotate90(), v(-4, 3));
    assert_eq!(a.rotate270(), v(4, -3));
    assert_eq!(a.scale_frac(500, 1000), v(1, 2));
    let c = Hsl::new(10_000, 500, 250);
    assert_eq!(c.hue_millideg, 10_000);
}

#[test]
fn test_isqrt_and_distance() {
    assert_eq!(isqrt(0), 0);
    assert_eq!(isqrt(15), 3);
    assert_eq!(isqrt(16), 4);
    assert_eq!(distance(v(0, 0), v(3000, 4000)), 5000);
}

#[test]
fn test_normalize_exact() {
    assert_eq!(normalize(v(3000, 4000)), v(600, 800));
    assert_eq!(normalize(v(0, -7)), v(0, -1000));
    assert_eq!(normalize(v(0, 0)), v(0, 0));
    // An input already of unit length comes back unchanged.
    assert_eq!(normalize(v(600, 800)), v(600, 800));
    assert_eq!(normalize(v(-1000, 0)), v(-1000, 0));
}

#[test]
fn test_grid_is_ten_by_ten_for_a_three_hundred_unit_window() {
    // A 300-by-300-unit window with thirty-unit spacing gives ten steps
    // each way: exactly one hundred points before jitter.
    let m = pointgrid::init_model(300_000, 300_000);
    assert_eq!(m.points.len(), 100);
}

#[test]
fn test_grid_points_near_lattice() {
    let pts = grid_points(300_000, 300_000, 30_000, 600);
    assert_eq!(pts.len(), 100);
    // First point of the first row: lattice at (-w/2 + 4, -h/2 - 4).
    let p = &pts[0];
    assert!((p.pos.x - (-150_000 + 4000)).abs() <= 3000);
    assert!((p.pos.y - (-150_000 - 4000)).abs() <= 3000);
    for p in &pts {
        assert!((0..360_000).contains(&p.color.hue_millideg));
        assert!((300..1000).contains(&p.color.sat_permille));
        assert!((600..1000).contains(&p.color.light_permille));
    }
}

#[test]
fn test_correct_to_range_wraps_low_side() {
    // Below the minimum: the correction lands the value at max + (min - v).
    let c = correct_to_range(-60, -50, 50);
    assert_eq!(c, 120);
    assert_eq!(-60 + c, 60);
}

#[test]
fn test_correct_to_range_corrects_high_side_once() {
    let c = correct_to_range(60, -50, 50);
    assert_eq!(c, -100);
    assert_eq!(60 + c, -40);
    // A large overshoot is corrected only once and may stay out of range.
    let c2 = correct_to_range(500, -50, 50);
    assert_eq!(500 + c2, 400);
}

#[test]
fn test_correct_to_range_inside_is_zero() {
    assert_eq!(correct_to_range(10, -50, 50), 0);
}

#[test]
fn test_swarm_step_eases_followers() {
    let p = SwarmPoint { head: v(0, 0), mid: v(0, 0), tail: v(0, 0), color: green() };
    let r = swarm_step(p, v(2000, 0), 100_000, 100_000);
    assert_eq!(r.head, v(2000, 0));
    assert_eq!(r.mid, v(1000, 0));
    assert_eq!(r.tail, v(500, 0));
    assert_eq!(r.color, green());
}

#[test]
fn test_swarm_parallel_matches_sequential() {
    // The data-parallel update gives exactly the sequential outcome,
    // however the work is partitioned.
    let mut a: Vec<SwarmPoint> = Vec::new();
    let mut disps: Vec<Vec2i> = Vec::new();
    for k in 0..200i64 {
        a.push(SwarmPoint {
            head: v(100 * k, -50 * k),
            mid: v(90 * k, -40 * k),
            tail: v(80 * k, -30 * k),
            color: green(),
        });
        disps.push(v((k % 7) * 300 - 900, (k % 5) * 400 - 800));
    }
    let mut b = a.clone();
    update_swarm(&mut a, &disps, 400_000, 300_000);
    par_update_swarm(&mut b, &disps, 400_000, 300_000);
    assert_eq!(a, b);
}

#[test]
fn test_swarm_init_collapses_trails() {
    let m = art_sketches::swarm::init_model(320_000, 320_000);
    assert_eq!(m.w, 300_000);
    assert_eq!(m.h, 300_000);
    assert_eq!(m.points.len(), 400);
    for p in &m.points {
        assert_eq!(p.head, p.mid);
        assert_eq!(p.head, p.tail);
    }
}

#[test]
fn test_trail_new_normalizes_direction() {
    let p = TrailPoint::new(v(0, 0), green(), v(3000, 4000), None);
    assert_eq!(p.direction, v(600, 800));
    assert_eq!(p.speed, 1000);
    assert_eq!(p.coords, p.coords_prev);
}

#[test]
fn test_trail_advance_moves_by_speed() {
    let mut p = TrailPoint::new(v(1000, 1000), green(), v(0, 1000), Some(2000));
    trail::advance_point(&mut p);
    assert_eq!(p.coords_prev, v(1000, 1000));
    assert_eq!(p.coords, v(1000, 3000));
}

#[test]
fn test_trail_bounce_flips_x_at_left_edge() {
    // A ray past the left edge has its direction's horizontal component
    // flipped and the vertical one kept.
    let mut p = TrailPoint::new(v(-50_000, 0), green(), v(-600, 800), Some(1000));
    let dir = p.direction;
    trail::bounce_point(&mut p, 100_000, 100_000);
    assert_eq!(p.direction, v(-dir.x, dir.y));
}

#[test]
fn test_trail_bounce_flips_y_at_top_edge() {
    let mut p = TrailPoint::new(v(0, 50_000), green(), v(600, 800), Some(1000));
    let dir = p.direction;
    trail::bounce_point(&mut p, 100_000, 100_000);
    assert_eq!(p.direction, v(dir.x, -dir.y));
}

#[test]
fn test_trail_bounce_keeps_direction_inside() {
    let mut p = TrailPoint::new(v(0, 0), green(), v(600, 800), Some(1000));
    let dir = p.direction;
    trail::bounce_point(&mut p, 100_000, 100_000);
    assert_eq!(p.direction, dir);
}

#[test]
fn test_trail_spawn_ray_ranges() {
    let mut m = trail::Model::init(100_000, 100_000);
    for _ in 0..20 {
        let n = trail::ray_count();
        assert!((3..=9).contains(&n));
        let f = trail::spawn_factor_permille();
        assert!((600..1400).contains(&f));
        trail::spawn_ray(&mut m, v(5000, 5000), v(0, 1000));
    }
    assert_eq!(m.points.len(), 20);
    for p in &m.points {
        assert_eq!(p.coords, v(5000, 5000));
        assert!((1000..4000).contains(&p.speed));
        assert!((700..1000).contains(&p.color.sat_permille));
        assert!((500..800).contains(&p.color.light_permille));
    }
}

#[test]
fn test_trail_steer_keeps_unit_band() {
    let mut p = TrailPoint::new(v(0, 0), green(), v(1000, 0), Some(1000));
    // Rotate by thirty degrees: cosine 866, sine 500, in thousandths.
    trail::steer_point(&mut p, 866, 500);
    let n2 = p.direction.x * p.direction.x + p.direction.y * p.direction.y;
    assert!((990_000..=1_010_000).contains(&n2));
    assert_eq!(trail::steer_angle_millideg(-1000), -54_000);
}

#[test]
fn test_tree_new_plants_trunk() {
    let t = Tree::new(v(0, -100_000), green());
    assert_eq!(t.trunk.base, v(0, -100_000));
    assert_eq!(t.trunk.tip, t.trunk.base);
    // The trunk grows straight up.
    assert_eq!(t.trunk.growth_direction, v(0, 1000));
    assert_eq!(t.trunk.resources, 0);
    assert!(!t.trunk.stopped);
    assert!(t.trunk.children.is_empty());
}

#[test]
fn test_sun_direction_points_at_target() {
    let sun = SunDirection { target_height: 100_000 };
    assert_eq!(sun.direction_from(v(5000, 0)), v(0, 1000));
    assert_eq!(sun.direction_from(v(5000, 200_000)), v(0, -1000));
    assert_eq!(sun.direction_from(v(5000, 100_000)), v(0, 0));
}

/// Total resources held by a branch and everything below it.
fn pool_total(b: &Branch) -> i64 {
    let mut s = b.resources;
    for c in &b.children {
        s += pool_total(c);
    }
    s
}

#[test]
fn test_tree_advance_low_pool_is_deterministic() {
    // A childless branch whose pool plus pulse stays at or below the
    // growth threshold simply absorbs the whole pulse.
    let sun = SunDirection { target_height: 200_000 };
    let b = Branch::new(v(0, -100_000), v(0, 1000), green());
    let b = b.advance(3_000, &sun, CONTINUATION_FUEL);
    assert_eq!(b.resources, 3_000);
    assert_eq!(b.tip, v(0, -100_000));
    assert!(b.children.is_empty());
    assert!(!b.stopped);
    let b = b.advance(2_000, &sun, CONTINUATION_FUEL);
    assert_eq!(b.resources, 5_000);
}

#[test]
fn test_tree_advance_conserves_resources() {
    // One pulse never creates resources: the subtree total grows by at
    // most the pulse.
    let sun = SunDirection { target_height: 200_000 };
    let mut trunk = Branch::new(v(0, -100_000), v(0, 1000), green());
    for _ in 0..40 {
        let before = pool_total(&trunk);
        trunk = trunk.advance(7_000, &sun, CONTINUATION_FUEL);
        assert!(pool_total(&trunk) <= before + 7_000);
        assert_eq!(trunk.growth_direction, v(0, 1000));
    }
}

#[test]
fn test_tree_advance_keeps_resources_nonnegative() {
    // Resource non-negativity: any sequence of growth pulses with
    // non-negative amounts leaves every pool at or above zero, and every
    // direction in the unit band.
    let sun = SunDirection { target_height: 200_000 };
    let mut trunk = Branch::new(v(0, -100_000), v(0, 1000), green());
    for step in 0..60i64 {
        trunk = trunk.advance(2000 + 300 * step, &sun, CONTINUATION_FUEL);
        check_branch(&trunk);
    }
}

#[test]
fn test_tree_branching_threshold_spend() {
    // A branch holding exactly the branching threshold spends between the
    // least and greatest cost and never ends the step negative.
    let sun = SunDirection { target_height: 200_000 };
    let (child, rest) = spawn_child_branch(
        v(0, 0),
        v(0, 1000),
        green(),
        10_000,
        BRANCH_COST_MAX,
        true,
        3,
        20_000,
        &sun,
    );
    assert_eq!(rest, 0);
    assert_eq!(child.resources, 0);
    assert_eq!(child.base, v(0, 0));
    let (_, rest2) = spawn_child_branch(
        v(0, 0),
        v(0, 1000),
        green(),
        10_000,
        6_000,
        false,
        7,
        -20_000,
        &sun,
    );
    assert_eq!(rest2, 4_000);
}

#[test]
fn test_tree_child_color_walks_hue_only() {
    let c = child_color(green(), 54_000);
    assert_eq!(c.hue_millideg, 174_000);
    assert_eq!(c.sat_permille, 1000);
    assert_eq!(c.light_permille, 500);
    let wrapped = child_color(
        Hsl { hue_millideg: 350_000, sat_permille: 800, light_permille: 400 },
        20_000,
    );
    assert_eq!(wrapped.hue_millideg, 10_000);
}

#[test]
fn test_tree_model_update_gate() {
    let mut m = art_sketches::tree::Model::init(200_000, 200_000);
    assert_eq!(m.sun_direction.target_height, 200_000);
    assert!((100_000..=140_000).contains(&m.tree.trunk.color.hue_millideg));
    m.update(1000, 5_000);
    assert_eq!(m.delay, 1000);
    m.update(1000, 6_000);
    // More than 1200 ms accumulated: a growth pulse ran and the
    // accumulator restarted.
    assert_eq!(m.delay, 0);
    check_branch(&m.tree.trunk);
}

#[test]
fn test_tree_segments_walk() {
    let t = Tree::new(v(0, -100_000), green());
    let segs = t.trunk.segments();
    assert_eq!(segs.len(), 1);
    assert_eq!(segs[0], (v(0, -100_000), v(0, -100_000), green()));
}

#[test]
fn test_tree_segments_preorder() {
    // The segments come out trunk first, then each child's subtree in
    // storage order.
    let leaf = |x: i64| Branch {
        base: v(x, 0),
        tip: v(x, 1000),
        growth_direction: v(0, 1000),
        children: Vec::new(),
        color: green(),
        resources: 0,
        stopped: false,
    };
    let middle = Branch { children: vec![leaf(20), leaf(30)], ..leaf(10) };
    let root = Branch { children: vec![middle, leaf(40)], ..leaf(0) };
    let segs = root.segments();
    let bases: Vec<i64> = segs.iter().map(|s| s.0.x).collect();
    assert_eq!(bases, vec![0, 10, 20, 30, 40]);
}

#[test]
fn test_garden_spawns_on_drag_with_gate() {
    let mut m = flowers::Model::init(400_000, 300_000);
    m.event(InputEvent::MousePressed, 50);
    assert!(m.pressed);
    m.event(InputEvent::MouseMoved(v(1000, 2000)), 50);
    let after_first = m.flowers.len();
    assert!(after_first == 1 || after_first == 2);
    match m.flowers[0] {
        flowers::Drawable::Flower(f) => {
            assert_eq!(f.start, v(1000, 2000));
            assert_eq!(f.born_time, 50);
            assert!((31_000..81_000).contains(&f.tip.x));
            assert_eq!(f.tip.y, 2000);
            assert!((10_000..40_000).contains(&f.thickness));
            assert!(f.leaf_count % 2 == 0 && (6..=18).contains(&f.leaf_count));
            assert_eq!(f.color.alpha_permille, 850);
        },
        flowers::Drawable::Circle(_) => panic!("first spawned shape must be a flower"),
    }
    // Within the twelve-frame gate nothing new spawns.
    m.event(InputEvent::MouseMoved(v(1500, 2000)), 55);
    assert_eq!(m.flowers.len(), after_first);
    // Once twelve frames have elapsed, a new flower appears.
    m.event(InputEvent::MouseMoved(v(1500, 2000)), 70);
    assert!(m.flowers.len() > after_first);
    // Released: dragging no longer spawns.
    m.event(InputEvent::MouseReleased, 90);
    let frozen = m.flowers.len();
    m.event(InputEvent::MouseMoved(v(0, 0)), 120);
    assert_eq!(m.flowers.len(), frozen);
}

#[test]
fn test_garden_anim_params() {
    let (scale, rot) = flowers::anim_params(100, 0);
    assert_eq!(scale, 1100);
    assert_eq!(rot, 27_000);
    // The scale keeps growing without bound, one thousandth per frame.
    let (scale2, rot2) = flowers::anim_params(20_000, 0);
    assert_eq!(scale2, 21_000);
    assert_eq!(rot2, (270 * 20_000) % 360_000);
}

#[test]
fn test_garden_lobe_angles() {
    assert_eq!(flowers::lobe_angle_millideg(0, 8, 0), 0);
    assert_eq!(flowers::lobe_angle_millideg(2, 8, 0), 90_000);
    assert_eq!(flowers::lobe_angle_millideg(3, 8, 5_000), 140_000);
}

#[test]
fn test_garden_lobe_path_shape() {
    let f = flowers::Flower {
        start: v(0, 0),
        tip: v(10_000, 0),
        middle: 500,
        thickness: 2_000,
        color: art_sketches::color::Hsla {
            hue_millideg: 0,
            sat_permille: 500,
            light_permille: 500,
            alpha_permille: 850,
        },
        leaf_count: 6,
        born_time: 0,
    };
    let path = f.lobe_path(1000);
    assert_eq!(path.style, art_sketches::bezier::PathStyle::Fill);
    assert_eq!(path.points.len(), 21);
    // The outline starts and ends at the origin, and the fifth sample of
    // the first segment reaches the translated tip.
    assert_eq!(path.points[0].exact_coords().unwrap(), v(0, 0));
    assert_eq!(path.points[5].exact_coords().unwrap(), v(10_000, 0));
    assert_eq!(path.points[20].exact_coords().unwrap(), v(0, 0));
}

#[test]
fn test_garden_duo_inner() {
    let (tip, th) = flowers::duo_inner(v(10_000, -2_000), 1_000);
    assert_eq!(tip, v(8_500, -1_700));
    assert_eq!(th, 750);
}

#[test]
fn test_quadratic_samples_exact() {
    let out = flowers::quad_samples(v(0, 0), v(50_000, 50_000), v(100_000, 0), 10);
    assert_eq!(out.len(), 11);
    // At the middle parameter the Bernstein weights are 25, 50 and 25 of a
    // hundred.
    assert_eq!(out[5], (5_000_000, 2_500_000));
    // The endpoint weight at parameter zero is exactly one on the first
    // control point.
    assert_eq!(out[0], (0, 0));
    assert_eq!(out[10], (100 * 100_000, 0));
}

#[test]
fn test_leaf_points_two_arcs() {
    let out = flowers::leaf_points(v(0, 0), v(10_000, 0), 2_000, 500);
    assert_eq!(out.len(), 42);
    assert_eq!(out[0], (0, 0));
    // The second arc starts at the tip, scaled by four hundred.
    assert_eq!(out[21], (400 * 10_000, 0));
}

#[test]
fn test_mesh_tessellation_counts() {
    let m = mesh::mesh_triangles(1_000_000, 1_000_000);
    // Half-extents are 1.2 times half the window: 600 units, so lattice
    // positions run from -600 to 600 in twenty-unit steps: 61 columns,
    // 61 rows, two triangles per cell.
    assert_eq!(m.len(), 2 * 61 * 61);
    assert_eq!(m[0].a, v(-600_000, -600_000));
    assert_eq!(m[0].b, v(-580_000, -600_000));
    assert_eq!(m[0].c, v(-600_000, -580_000));
    assert_eq!(m[0].color.light_permille, 100);
    assert_eq!(m[1].a, v(-580_000, -580_000));
    assert_eq!(m[1].color.light_permille, 700);
}

#[test]
fn test_mesh_displace_and_mapping() {
    assert_eq!(mesh::noise_displacement(1000), 100);
    assert_eq!(mesh::noise_displacement(-999), -99);
    let mut t = mesh::mesh_triangles(100_000, 100_000)[0];
    let a = t.a;
    mesh::displace(&mut t, v(100, -100), v(0, 0), v(50, 50));
    assert_eq!(t.a, v(a.x + 100, a.y - 100));
}

#[test]
fn test_template_hue_cycles() {
    assert_eq!(template::title_hue_permille(0), 0);
    assert_eq!(template::title_hue_permille(90), 500);
    assert_eq!(template::title_hue_permille(180), 0);
    assert_eq!(template::title_hue_permille(359), 994);
}

#[test]
fn test_template_event_reports_on_press() {
    let mut m = template::Model::init(100_000, 100_000);
    assert_eq!(m.event(InputEvent::MousePressed), Some(None));
    assert_eq!(m.event(InputEvent::MouseMoved(v(7, 9))), None);
    assert_eq!(m.mouse_position, Some(v(7, 9)));
    assert_eq!(m.event(InputEvent::MousePressed), Some(Some(v(7, 9))));
}

#[test]
fn test_random_ranges() {
    for _ in 0..50 {
        assert!(rand_below(7) < 7);
        let r = rand_in_range(-5, 6);
        assert!((-5..6).contains(&r));
        let _ = coin();
    }
    assert_eq!(rand_below(1), 0);
    assert_eq!(rand_in_range(5, 6), 5);
}

#[test]
fn test_swarm_mouse_defaults_to_origin() {
    let mut m = art_sketches::swarm::init_model(100_000, 100_000);
    assert_eq!(m.mouse_or_origin(), v(0, 0));
    m.event(InputEvent::MouseMoved(v(123, 456)));
    assert_eq!(m.mouse_or_origin(), v(123, 456));
    assert_eq!(art_sketches::swarm::trail_alpha_permille(0), 990);
    assert_eq!(art_sketches::swarm::trail_alpha_permille(2), 330);
}
