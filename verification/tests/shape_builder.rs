//! Tests of the curve-building library: binomial machinery, the recorded
//! example curves, and the fluent path builder.

use art_sketches::bezier::{
    bezier_curve, binomial_coefficient, factorial, FinishedPath, PathBuilder, PathStyle, SamplePt,
};
use art_sketches::geom::Vec2i;

fn v(x: i64, y: i64) -> Vec2i {
    Vec2i { x, y }
}

/// Exact whole-step coordinates of every sample, or a panic if one is not
/// on a whole step.
fn exact(points: &[SamplePt]) -> Vec<Vec2i> {
    points.iter().map(|p| p.exact_coords().unwrap()).collect()
}

#[test]
fn test_powi() {
    assert_eq!((0.0_f32).powi(0), 1.0)
}

#[test]
fn test_binomial_coefficient() {
    assert_eq!(binomial_coefficient(5, 0), 1);
    assert_eq!(binomial_coefficient(5, 1), 5);
    assert_eq!(binomial_coefficient(5, 2), 10);
    assert_eq!(binomial_coefficient(5, 3), 10);
    assert_eq!(binomial_coefficient(5, 4), 5);
    assert_eq!(binomial_coefficient(5, 5), 1);
}

#[test]
fn test_factorial() {
    assert_eq!(factorial(0), 1);
    assert_eq!(factorial(1), 1);
    assert_eq!(factorial(5), 120);
    assert_eq!(factorial(10), 3_628_800);
}

#[test]
fn test_bezier_curve() {
    let points = bezier_curve(&vec![v(0, 0), v(0, 10_000)]);
    assert_eq!(
        exact(&points),
        vec![
            v(0, 0),
            v(0, 2_000),
            v(0, 4_000),
            v(0, 6_000),
            v(0, 8_000),
            v(0, 10_000)
        ]
    );
}

#[test]
fn test_bezier_curve1() {
    let points = bezier_curve(&vec![v(0, 0), v(150_000, 100_000)]);
    assert_eq!(
        exact(&points),
        vec![
            v(0, 0),
            v(30_000, 20_000),
            v(60_000, 40_000),
            v(90_000, 60_000),
            v(120_000, 80_000),
            v(150_000, 100_000)
        ]
    );
}

#[test]
fn test_bezier_curve_quadratic() {
    let points = bezier_curve(&vec![v(0, 0), v(50_000, 50_000), v(100_000, 0)]);
    assert_eq!(
        exact(&points),
        vec![
            v(0, 0),
            v(20_000, 20_000),
            v(40_000, 40_000),
            v(60_000, 40_000),
            v(80_000, 20_000),
            v(100_000, 0)
        ]
    );
}

#[test]
fn test_six_samples_regardless_of_degree() {
    // The recorded example curves fix six output points whatever the number
    // of control points.
    for n in 2..8usize {
        let controls: Vec<Vec2i> = (0..n).map(|k| v(k as i64 * 1000, 0)).collect();
        assert_eq!(bezier_curve(&controls).len(), 6);
    }
}

#[test]
fn test_curve_endpoints_exact() {
    let points = bezier_curve(&vec![v(123, 456), v(-17, 33), v(999, -5)]);
    assert_eq!(points[0], SamplePt { x5: 5 * 123, y5: 5 * 456 });
    assert_eq!(points[5], SamplePt { x5: 5 * 999, y5: 5 * -5 });
}

#[test]
fn test_path_builder_chains_segments() {
    let b = PathBuilder::start_shape(v(0, 0));
    let b = b.add_bezier_curve(&vec![v(0, 10_000)]);
    // The last accumulated point becomes the first control point of the
    // next segment.
    let b = b.add_bezier_curve(&vec![v(10_000, 10_000)]);
    let path: FinishedPath = b.as_contour();
    assert_eq!(path.style, PathStyle::Contour);
    assert_eq!(path.points.len(), 11);
    assert_eq!(
        path.points.first().unwrap().exact_coords().unwrap(),
        v(0, 0)
    );
    assert_eq!(
        path.points.last().unwrap().exact_coords().unwrap(),
        v(10_000, 10_000)
    );
    // The sixth sample of the first segment is its final control point.
    assert_eq!(path.points[5].exact_coords().unwrap(), v(0, 10_000));
}

#[test]
fn test_path_builder_fill_style() {
    let path = PathBuilder::start_shape(v(1000, 2000))
        .add_bezier_curve(&vec![v(3000, 4000)])
        .as_fill();
    assert_eq!(path.style, PathStyle::Fill);
    assert_eq!(path.points.len(), 6);
}

#[test]
fn test_sample_not_on_whole_step() {
    // A sample off the whole-coordinate lattice reports no exact position.
    let p = SamplePt { x5: 7, y5: 10 };
    assert!(p.exact_coords().is_none());
    let q = SamplePt { x5: 10, y5: 10 };
    assert_eq!(q.exact_coords(), Some(v(2, 2)));
}
