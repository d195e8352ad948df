//! The curve type over an ordered control polygon, its constructor, and the
//! combined evaluator returning position and both derivatives. Also proves
//! that a clamped spline interpolates its first and last control points.

use vstd::prelude::*;
use vstd::arithmetic::div_mod::lemma_div_multiples_vanish;
use crate::num::{lemma_blend_bounds, lemma_trunc_div_exact, SCALE};
use crate::vec2::Vec2;
use crate::knots::{knot_at, knot_span_s, knot_vector, CurveError, MAX_POINTS};
use crate::spline::{
    blend2_s, de_boors, de_boors_derivative, de_boors_derivative_s, de_boors_s,
    de_boors_second_derivative, de_boors_second_derivative_s, pt, span_ok, weight_s,
    window_max_x, window_max_y, window_min_x, window_min_y, wf_points, COORD_LIMIT,
};

verus! {

/// An open cubic B-spline boundary: an ordered control polygon of at least
/// four points. The knot vector is derived per query, never stored.
#[derive(Clone, Debug)]
pub struct Curve {
    pub points: Vec<Vec2>,
}

impl Curve {
    /// The control polygon is valid: enough points, all coordinates in
    /// range.
    pub open spec fn wf(&self) -> bool {
        wf_points(self.points@)
    }
}

/// The curve position at parameter `t`, with the span the locator picks.
pub open spec fn curve_eval_s(ps: Seq<Vec2>, t: int) -> (int, int) {
    de_boors_s(ps, ps.len() as int, knot_span_s(ps.len() as int, t), t * (ps.len() - 3))
}

/// The curve's first derivative at parameter `t`.
pub open spec fn curve_deriv_s(ps: Seq<Vec2>, t: int) -> (int, int) {
    de_boors_derivative_s(
        ps,
        ps.len() as int,
        knot_span_s(ps.len() as int, t),
        t * (ps.len() - 3),
    )
}

/// The curve's second derivative at parameter `t`.
pub open spec fn curve_second_s(ps: Seq<Vec2>, t: int) -> (int, int) {
    de_boors_second_derivative_s(
        ps,
        ps.len() as int,
        knot_span_s(ps.len() as int, t),
        t * (ps.len() - 3),
    )
}

/// Builds a curve from an ordered control polygon. Fails with
/// `TooFewControlPoints` exactly when fewer than four points are given,
/// and with `OutOfRange` exactly when the polygon is large or far enough
/// to escape the fixed-point range.
pub fn build_curve(control_points: Vec<Vec2>) -> (r: Result<Curve, CurveError>)
    ensures
        match r {
            Ok(c) => c.points@ == control_points@ && c.wf(),
            Err(CurveError::TooFewControlPoints) => control_points@.len() < 4,
            Err(CurveError::OutOfRange) => control_points@.len() >= 4 && !wf_points(
                control_points@,
            ),
        },
{
    let n: usize = control_points.len();
    if n < 4 {
        return Err(CurveError::TooFewControlPoints);
    }
    if n > MAX_POINTS {
        return Err(CurveError::OutOfRange);
    }
    let mut i: usize = 0;
    while i < n
        invariant
            n == control_points@.len(),
            4 <= n <= MAX_POINTS,
            i <= n,
            forall|k: int| 0 <= k < i ==> #[trigger] control_points@[k].within(
                COORD_LIMIT as int,
            ),
        decreases n - i,
    {
        let p: Vec2 = control_points[i];
        if p.x > COORD_LIMIT || p.x < -COORD_LIMIT || p.y > COORD_LIMIT || p.y < -COORD_LIMIT {
            proof {
                assert(!control_points@[i as int].within(COORD_LIMIT as int));
            }
            return Err(CurveError::OutOfRange);
        }
        i = i + 1;
    }
    Ok(Curve { points: control_points })
}

/// Evaluates position, first derivative and second derivative at a
/// parameter `t` in `[0, SCALE]`, all three over the same knot span. The
/// position stays inside the bounding box of its four-point window (the
/// axis-aligned consequence of the convex hull property), and the curve
/// interpolates its first and last control points at the parameter ends.
pub fn evaluate(curve: &Curve, t: i64) -> (r: (Vec2, Vec2, Vec2))
    requires
        curve.wf(),
        0 <= t <= SCALE,
    ensures
        ({
            let ps = curve.points@;
            let n = ps.len() as int;
            let b = knot_span_s(n, t as int) - 3;
            &&& pt(r.0) == curve_eval_s(ps, t as int)
            &&& pt(r.1) == curve_deriv_s(ps, t as int)
            &&& pt(r.2) == curve_second_s(ps, t as int)
            &&& window_min_x(ps, b) <= r.0.x <= window_max_x(ps, b)
            &&& window_min_y(ps, b) <= r.0.y <= window_max_y(ps, b)
            &&& r.0.within(COORD_LIMIT as int)
            &&& t == 0 ==> pt(r.0) == pt(ps[0])
            &&& t == SCALE ==> pt(r.0) == pt(ps[n - 1])
        }),
{
    let n: usize = curve.points.len();
    let knots: Vec<i64> = match knot_vector(n) {
        Ok(v) => v,
        Err(_) => {
            proof {
                assert(false);
            }
            Vec::new()
        },
    };
    let l: usize = crate::knots::find_knot(t, &knots);
    let pos: Vec2 = de_boors(&curve.points, t, &knots, l);
    let der: Vec2 = de_boors_derivative(&curve.points, t, &knots, l);
    let sec: Vec2 = de_boors_second_derivative(&curve.points, t, &knots, l);
    proof {
        lemma_clamped_endpoints(curve.points@);
    }
    (pos, der, sec)
}

/// Endpoint interpolation of a clamped spline: at parameter `0` the curve
/// is exactly the first control point, at parameter `SCALE` exactly the
/// last one.
pub proof fn lemma_clamped_endpoints(ps: Seq<Vec2>)
    requires
        wf_points(ps),
    ensures
        curve_eval_s(ps, 0) == pt(ps[0]),
        curve_eval_s(ps, SCALE as int) == pt(ps[ps.len() - 1]),
{
    let n = ps.len() as int;
    let s = SCALE as int;
    // Parameter 0: the span is 3, every weight is 0, every blend keeps its
    // left argument.
    assert(knot_span_s(n, 0) == 3);
    let w01 = weight_s(n, 0, 1, 4);
    let w02 = weight_s(n, 0, 2, 5);
    let w03 = weight_s(n, 0, 3, 6);
    let w04 = weight_s(n, 0, 2, 4);
    let w05 = weight_s(n, 0, 3, 5);
    let w06 = weight_s(n, 0, 3, 4);
    assert(w01 == 0 && w02 == 0 && w03 == 0 && w04 == 0 && w05 == 0 && w06 == 0);
    lemma_blend_bounds(ps[0].x as int, ps[1].x as int, 0);
    lemma_blend_bounds(ps[0].y as int, ps[1].y as int, 0);
    lemma_blend_bounds(ps[1].x as int, ps[2].x as int, 0);
    lemma_blend_bounds(ps[1].y as int, ps[2].y as int, 0);
    lemma_blend_bounds(ps[2].x as int, ps[3].x as int, 0);
    lemma_blend_bounds(ps[2].y as int, ps[3].y as int, 0);
    assert(de_boors_s(ps, n, 3, 0) == pt(ps[0]));
    assert(0 * (n - 3) == 0) by (nonlinear_arith);
    // Parameter SCALE: the span is n - 1, every weight is SCALE, every
    // blend keeps its right argument.
    let ts = s * (n - 3);
    lemma_div_multiples_vanish(n - 3, s);
    assert(ts / s == n - 3);
    assert(knot_span_s(n, s) == n - 1);
    let b = n - 4;
    assert forall|lo: int, hi: int|
        b + 1 <= lo <= b + 3 && n <= hi <= n + 3 implies #[trigger] weight_s(n, ts, lo, hi)
        == s by {
        let den = knot_at(n, hi) - knot_at(n, lo);
        assert(knot_at(n, hi) == n - 3);
        assert(knot_at(n, lo) == if lo <= 3 {
            0int
        } else {
            lo - 3
        });
        assert(ts - knot_at(n, lo) * s == s * den) by (nonlinear_arith)
            requires
                ts == s * (n - 3),
                den == (n - 3) - knot_at(n, lo),
        ;
        lemma_trunc_div_exact(s, den);
    }
    let q0 = blend2_s(pt(ps[b]), pt(ps[b + 1]), s);
    lemma_blend_bounds(ps[b].x as int, ps[b + 1].x as int, s);
    lemma_blend_bounds(ps[b].y as int, ps[b + 1].y as int, s);
    lemma_blend_bounds(ps[b + 1].x as int, ps[b + 2].x as int, s);
    lemma_blend_bounds(ps[b + 1].y as int, ps[b + 2].y as int, s);
    lemma_blend_bounds(ps[b + 2].x as int, ps[b + 3].x as int, s);
    lemma_blend_bounds(ps[b + 2].y as int, ps[b + 3].y as int, s);
    assert(de_boors_s(ps, n, n - 1, ts) == pt(ps[n - 1]));
}

} // verus!
