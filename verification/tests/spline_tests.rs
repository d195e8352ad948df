//! Curve construction, knot vectors, evaluation and nearest-point search.

use spline_sim::curve::{build_curve, evaluate, Curve};
use spline_sim::knots::{find_knot, knot_vector, CurveError};
use spline_sim::nearest::nearest_point;
use spline_sim::num::SCALE;
use spline_sim::spline::de_casteljau;
use spline_sim::spline::COORD_LIMIT;
use spline_sim::vec2::Vec2;

fn w(v: i64) -> i64 {
    // a whole number of world units, in fixed-point
    v * SCALE
}

/// Six control points on the flat horizontal line y = 0 spanning
/// x = -100 ..= 100.
fn flat_curve() -> Curve {
    let mut pts: Vec<Vec2> = Vec::new();
    for i in 0..6i64 {
        pts.push(Vec2 { x: w(-100 + 40 * i), y: 0 });
    }
    build_curve(pts).unwrap()
}

/// Six collinear control points on the line y = x.
fn diagonal_curve() -> Curve {
    let mut pts: Vec<Vec2> = Vec::new();
    for i in 0..6i64 {
        let c = w(-100 + 40 * i);
        pts.push(Vec2 { x: c, y: c });
    }
    build_curve(pts).unwrap()
}

fn dist2(a: Vec2, bx: i64, by: i64) -> i128 {
    let dx = (a.x - bx) as i128;
    let dy = (a.y - by) as i128;
    dx * dx + dy * dy
}

#[test]
fn build_curve_rejects_too_few_points() {
    let pts = vec![Vec2 { x: 0, y: 0 }, Vec2 { x: w(1), y: 0 }, Vec2 { x: w(2), y: 0 }];
    assert_eq!(build_curve(pts).unwrap_err(), CurveError::TooFewControlPoints);
}

#[test]
fn build_curve_rejects_out_of_range_coordinates() {
    let mut pts: Vec<Vec2> = Vec::new();
    for i in 0..4i64 {
        pts.push(Vec2 { x: w(40 * i), y: 0 });
    }
    pts.push(Vec2 { x: COORD_LIMIT + 1, y: 0 });
    assert_eq!(build_curve(pts).unwrap_err(), CurveError::OutOfRange);
}

#[test]
fn knot_vector_is_clamped_uniform() {
    let v = knot_vector(6).unwrap();
    assert_eq!(v, vec![0, 0, 0, 0, 1, 2, 3, 3, 3, 3]);
    assert_eq!(knot_vector(3).unwrap_err(), CurveError::TooFewControlPoints);
    let v4 = knot_vector(4).unwrap();
    assert_eq!(v4, vec![0, 0, 0, 0, 1, 1, 1, 1]);
}

#[test]
fn find_knot_clamps_into_valid_spans() {
    let v = knot_vector(6).unwrap();
    assert_eq!(find_knot(0, &v), 3);
    assert_eq!(find_knot(SCALE / 2, &v), 4);
    assert_eq!(find_knot(SCALE, &v), 5);
}

#[test]
fn evaluate_interpolates_clamped_endpoints() {
    let c = flat_curve();
    let (p0, _, _) = evaluate(&c, 0);
    assert_eq!(p0, Vec2 { x: w(-100), y: 0 });
    let (p1, _, _) = evaluate(&c, SCALE);
    assert_eq!(p1, Vec2 { x: w(100), y: 0 });

    let d = diagonal_curve();
    let (q0, _, _) = evaluate(&d, 0);
    assert_eq!(q0, Vec2 { x: w(-100), y: w(-100) });
    let (q1, _, _) = evaluate(&d, SCALE);
    assert_eq!(q1, Vec2 { x: w(100), y: w(100) });
}

#[test]
fn evaluate_midpoint_of_symmetric_curve() {
    let c = flat_curve();
    let (p, _, _) = evaluate(&c, SCALE / 2);
    // by symmetry the midpoint parameter lands exactly on x = 0
    assert_eq!(p, Vec2 { x: 0, y: 0 });
}

#[test]
fn evaluate_derivatives_at_start() {
    let c = flat_curve();
    let (_, d1, d2) = evaluate(&c, 0);
    // the derivative polygon starts at 3 * (p1 - p0) / (knot[4] - knot[1])
    assert_eq!(d1, Vec2 { x: 3 * w(40), y: 0 });
    // uniformly spaced points have a vanishing second difference
    assert_eq!(d2, Vec2 { x: 0, y: 0 });
}

#[test]
fn evaluate_stays_in_control_point_bounding_box() {
    let c = flat_curve();
    for k in 0..=50i64 {
        let t = k * (SCALE / 50);
        let (p, _, _) = evaluate(&c, t);
        assert!(w(-100) <= p.x && p.x <= w(100), "x out of hull at t={t}: {}", p.x);
        assert_eq!(p.y, 0, "flat curve must stay flat at t={t}");
    }
    let d = diagonal_curve();
    for k in 0..=50i64 {
        let t = k * (SCALE / 50);
        let (p, _, _) = evaluate(&d, t);
        assert!(w(-100) <= p.x && p.x <= w(100));
        assert!(w(-100) <= p.y && p.y <= w(100));
    }
}

#[test]
fn nearest_point_parameter_is_in_range() {
    let c = flat_curve();
    let t = nearest_point(&c, Vec2 { x: w(1000), y: w(1000) });
    assert!(0 <= t && t <= SCALE);
}

#[test]
fn nearest_point_beats_a_thousand_sample_sweep() {
    let c = flat_curve();
    let q = Vec2 { x: 0, y: w(-10) };
    let t = nearest_point(&c, q);
    let (p, _, _) = evaluate(&c, t);
    let found = dist2(p, q.x, q.y);
    let mut best: i128 = i128::MAX;
    for k in 0..=1000i64 {
        let tk = k * (SCALE / 1000);
        let (pk, _, _) = evaluate(&c, tk);
        let d = dist2(pk, q.x, q.y);
        if d < best {
            best = d;
        }
    }
    // no sweep sample may be strictly closer beyond numerical tolerance
    // (the slack is well under one hundredth of a world unit of distance)
    assert!(
        found <= best + 100_000_000_000,
        "solver distance {found} worse than sweep minimum {best}"
    );
}

#[test]
fn nearest_point_on_collinear_curve_is_the_projection() {
    // for a straight-line curve the nearest point must reduce to the
    // point-to-segment projection: (20, 0) projects onto (10, 10)
    let c = diagonal_curve();
    let q = Vec2 { x: w(20), y: 0 };
    let t = nearest_point(&c, q);
    let (p, _, _) = evaluate(&c, t);
    let ex = w(10) as f64;
    let px = p.x as f64;
    let py = p.y as f64;
    let err = ((px - ex).powi(2) + (py - ex).powi(2)).sqrt() / SCALE as f64;
    assert!(err < 0.1, "projection off by {err} world units: ({px}, {py})");
}

#[test]
fn nearest_point_tracks_the_sweep_on_a_wavy_curve() {
    let ys = [0i64, 20, 40, 20, 0, -20];
    let mut pts: Vec<Vec2> = Vec::new();
    for (i, y) in ys.iter().enumerate() {
        pts.push(Vec2 { x: w(-100 + 40 * i as i64), y: w(*y) });
    }
    let c = build_curve(pts).unwrap();
    let q = Vec2 { x: w(-5), y: w(50) };
    let t = nearest_point(&c, q);
    let (p, _, _) = evaluate(&c, t);
    let found = (dist2(p, q.x, q.y) as f64).sqrt() / SCALE as f64;
    let mut best = f64::MAX;
    for k in 0..=1000i64 {
        let tk = k * (SCALE / 1000);
        let (pk, _, _) = evaluate(&c, tk);
        let d = (dist2(pk, q.x, q.y) as f64).sqrt() / SCALE as f64;
        if d < best {
            best = d;
        }
    }
    assert!(
        found <= best + 0.05,
        "solver distance {found} worse than sweep minimum {best}"
    );
}

#[test]
fn de_casteljau_blends_exactly() {
    // two points make a straight segment: the blend is exact
    let seg = vec![Vec2 { x: 0, y: 0 }, Vec2 { x: w(100), y: w(40) }];
    assert_eq!(de_casteljau(seg.clone(), 0), seg[0]);
    assert_eq!(de_casteljau(seg.clone(), SCALE), seg[1]);
    assert_eq!(de_casteljau(seg, SCALE / 4), Vec2 { x: w(25), y: w(10) });
    // a quadratic stays inside its polygon and hits both ends
    let tri = vec![Vec2 { x: 0, y: 0 }, Vec2 { x: w(50), y: w(100) }, Vec2 { x: w(100), y: 0 }];
    assert_eq!(de_casteljau(tri.clone(), 0), tri[0]);
    assert_eq!(de_casteljau(tri.clone(), SCALE), tri[2]);
    let mid = de_casteljau(tri, SCALE / 2);
    assert_eq!(mid, Vec2 { x: w(50), y: w(50) });
}
