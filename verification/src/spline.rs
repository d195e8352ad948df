//! De Boor evaluation of a clamped uniform cubic B-spline: position, first
//! derivative and second derivative at a parameter, given a knot span. The
//! degree is fixed at three, so each blend pyramid is written out in full
//! over a four-point window.

use vstd::prelude::*;
use crate::num::{
    blend_s, div_trunc_i64, lemma_blend_bounds, lemma_trunc_div_bound, max_s, min_s,
    trunc_div, SCALE,
};
use crate::num::{div_trunc_i128, mul_wide};
use crate::vec2::Vec2;
use crate::knots::{
    knot_at, lemma_knot_monotone, lemma_span_nondegenerate, wf_knots, MAX_POINTS,
};

verus! {

/// Largest coordinate magnitude (fixed-point units) a control point may
/// have.
pub const COORD_LIMIT: i64 = 1_000_000_000_000;

/// Bound on a first-derivative control point: `3 * 2 * COORD_LIMIT`.
pub const DERIV_LIMIT: i64 = 6_000_000_000_000;

/// Bound on a second-derivative control point: `2 * 2 * DERIV_LIMIT`.
pub const CURV_LIMIT: i64 = 24_000_000_000_000;

/// A valid control polygon: enough points for a cubic, and every coordinate
/// within `COORD_LIMIT`.
pub open spec fn wf_points(ps: Seq<Vec2>) -> bool {
    &&& 4 <= ps.len() <= MAX_POINTS
    &&& forall|i: int| 0 <= i < ps.len() ==> #[trigger] ps[i].within(COORD_LIMIT as int)
}

/// A point as a pair of unbounded integers.
pub open spec fn pt(p: Vec2) -> (int, int) {
    (p.x as int, p.y as int)
}

/// The de Boor weight for scaled parameter `ts` between the knots at
/// indices `lo` and `hi`.
pub open spec fn weight_s(n: int, ts: int, lo: int, hi: int) -> int {
    trunc_div(ts - knot_at(n, lo) * SCALE, knot_at(n, hi) - knot_at(n, lo))
}

/// One blend of the recurrence applied to both coordinates.
pub open spec fn blend2_s(a: (int, int), b: (int, int), w: int) -> (int, int) {
    (blend_s(a.0, b.0, w), blend_s(a.1, b.1, w))
}

/// The position the degree-3 de Boor pyramid yields over the window
/// `[l - 3, l]` at scaled parameter `ts`.
pub open spec fn de_boors_s(ps: Seq<Vec2>, n: int, l: int, ts: int) -> (int, int) {
    let b = l - 3;
    let q0 = blend2_s(pt(ps[b]), pt(ps[b + 1]), weight_s(n, ts, b + 1, b + 4));
    let q1 = blend2_s(pt(ps[b + 1]), pt(ps[b + 2]), weight_s(n, ts, b + 2, b + 5));
    let q2 = blend2_s(pt(ps[b + 2]), pt(ps[b + 3]), weight_s(n, ts, b + 3, b + 6));
    let w0 = blend2_s(q0, q1, weight_s(n, ts, b + 2, b + 4));
    let w1 = blend2_s(q1, q2, weight_s(n, ts, b + 3, b + 5));
    blend2_s(w0, w1, weight_s(n, ts, b + 3, b + 4))
}

/// The `i`-th control point of the first-derivative polygon over the
/// window: the forward difference scaled by `3 / dt`.
pub open spec fn deriv_pt_s(ps: Seq<Vec2>, n: int, b: int, i: int) -> (int, int) {
    let dt = knot_at(n, b + i + 4) - knot_at(n, b + i + 1);
    (
        trunc_div(3 * (ps[b + i + 1].x - ps[b + i].x), dt),
        trunc_div(3 * (ps[b + i + 1].y - ps[b + i].y), dt),
    )
}

/// The first derivative: a degree-2 de Boor pyramid over the derivative
/// polygon.
pub open spec fn de_boors_derivative_s(ps: Seq<Vec2>, n: int, l: int, ts: int) -> (int, int) {
    let b = l - 3;
    let d0 = deriv_pt_s(ps, n, b, 0);
    let d1 = deriv_pt_s(ps, n, b, 1);
    let d2 = deriv_pt_s(ps, n, b, 2);
    let q0 = blend2_s(d0, d1, weight_s(n, ts, b + 2, b + 4));
    let q1 = blend2_s(d1, d2, weight_s(n, ts, b + 3, b + 5));
    blend2_s(q0, q1, weight_s(n, ts, b + 3, b + 4))
}

/// The `i`-th control point of the second-derivative polygon: the second
/// difference scaled by `2 / dt1`, built from two first differences that
/// share the scale `3 / dt0`.
pub open spec fn second_pt_s(ps: Seq<Vec2>, n: int, b: int, i: int) -> (int, int) {
    let dt0 = knot_at(n, b + i + 4) - knot_at(n, b + i + 1);
    let dt1 = knot_at(n, b + i + 4) - knot_at(n, b + i + 2);
    let cpx = trunc_div(3 * (ps[b + i + 1].x - ps[b + i].x), dt0);
    let cpy = trunc_div(3 * (ps[b + i + 1].y - ps[b + i].y), dt0);
    let cnx = trunc_div(3 * (ps[b + i + 2].x - ps[b + i + 1].x), dt0);
    let cny = trunc_div(3 * (ps[b + i + 2].y - ps[b + i + 1].y), dt0);
    (trunc_div(2 * (cnx - cpx), dt1), trunc_div(2 * (cny - cpy), dt1))
}

/// The second derivative: one blend over the two second-difference points.
pub open spec fn de_boors_second_derivative_s(ps: Seq<Vec2>, n: int, l: int, ts: int) -> (
    int,
    int,
) {
    let b = l - 3;
    let c0 = second_pt_s(ps, n, b, 0);
    let c1 = second_pt_s(ps, n, b, 1);
    blend2_s(c0, c1, weight_s(n, ts, b + 3, b + 4))
}

/// Smallest `x` coordinate in the four-point window starting at `b`.
pub open spec fn window_min_x(ps: Seq<Vec2>, b: int) -> int {
    min_s(
        min_s(ps[b].x as int, ps[b + 1].x as int),
        min_s(ps[b + 2].x as int, ps[b + 3].x as int),
    )
}

/// Largest `x` coordinate in the four-point window starting at `b`.
pub open spec fn window_max_x(ps: Seq<Vec2>, b: int) -> int {
    max_s(
        max_s(ps[b].x as int, ps[b + 1].x as int),
        max_s(ps[b + 2].x as int, ps[b + 3].x as int),
    )
}

/// Smallest `y` coordinate in the four-point window starting at `b`.
pub open spec fn window_min_y(ps: Seq<Vec2>, b: int) -> int {
    min_s(
        min_s(ps[b].y as int, ps[b + 1].y as int),
        min_s(ps[b + 2].y as int, ps[b + 3].y as int),
    )
}

/// Largest `y` coordinate in the four-point window starting at `b`.
pub open spec fn window_max_y(ps: Seq<Vec2>, b: int) -> int {
    max_s(
        max_s(ps[b].y as int, ps[b + 1].y as int),
        max_s(ps[b + 2].y as int, ps[b + 3].y as int),
    )
}

/// The span conditions under which the evaluators run: a valid window and
/// the scaled parameter inside the span.
pub open spec fn span_ok(n: int, l: int, t: int) -> bool {
    &&& 3 <= l <= n - 1
    &&& 0 <= t <= SCALE
    &&& knot_at(n, l) * SCALE <= t * (n - 3)
    &&& t * (n - 3) <= knot_at(n, l + 1) * SCALE
}

/// The de Boor weight between knots `klo` and `khi`, for a scaled
/// parameter lying between them; always lands in `[0, SCALE]`.
fn span_weight(ts: i64, klo: i64, khi: i64) -> (w: i64)
    requires
        0 <= klo < khi <= MAX_POINTS,
        klo * SCALE <= ts <= khi * SCALE,
    ensures
        w == trunc_div(ts - klo * SCALE, khi - klo),
        0 <= w <= SCALE,
{
    let num: i64 = ts - klo * SCALE;
    let den: i64 = khi - klo;
    proof {
        assert((khi - klo) * SCALE == khi * SCALE - klo * SCALE) by (nonlinear_arith);
        lemma_trunc_div_bound(num as int, den as int, SCALE as int);
    }
    div_trunc_i64(num, den)
}

/// One blend of the de Boor recurrence on both coordinates; the result
/// stays between its two endpoints, coordinate by coordinate.
pub(crate) fn blend_pt(a: Vec2, b: Vec2, w: i64) -> (r: Vec2)
    requires
        a.within(crate::vec2::VAL_LIMIT as int),
        b.within(crate::vec2::VAL_LIMIT as int),
        0 <= w <= SCALE,
    ensures
        pt(r) == blend2_s(pt(a), pt(b), w as int),
        min_s(a.x as int, b.x as int) <= r.x <= max_s(a.x as int, b.x as int),
        min_s(a.y as int, b.y as int) <= r.y <= max_s(a.y as int, b.y as int),
{
    proof {
        lemma_blend_bounds(a.x as int, b.x as int, w as int);
        lemma_blend_bounds(a.y as int, b.y as int, w as int);
    }
    let dx: i64 = b.x - a.x;
    let dy: i64 = b.y - a.y;
    let qx: i128 = div_trunc_i128(mul_wide(w, dx), SCALE as i128);
    let qy: i128 = div_trunc_i128(mul_wide(w, dy), SCALE as i128);
    Vec2 { x: a.x + qx as i64, y: a.y + qy as i64 }
}

/// One control point of the first-derivative polygon: the forward
/// difference of two control points scaled by `3 / dt`.
fn deriv_pt(p0: Vec2, p1: Vec2, dt: i64) -> (r: Vec2)
    requires
        p0.within(COORD_LIMIT as int),
        p1.within(COORD_LIMIT as int),
        1 <= dt <= 3,
    ensures
        r.x == trunc_div(3 * (p1.x - p0.x), dt as int),
        r.y == trunc_div(3 * (p1.y - p0.y), dt as int),
        r.within(DERIV_LIMIT as int),
{
    let nx: i64 = 3 * (p1.x - p0.x);
    let ny: i64 = 3 * (p1.y - p0.y);
    proof {
        assert(DERIV_LIMIT as int <= DERIV_LIMIT as int * dt) by (nonlinear_arith)
            requires
                1 <= dt,
        ;
        lemma_trunc_div_bound(nx as int, dt as int, DERIV_LIMIT as int);
        lemma_trunc_div_bound(ny as int, dt as int, DERIV_LIMIT as int);
    }
    Vec2 { x: div_trunc_i64(nx, dt), y: div_trunc_i64(ny, dt) }
}

/// Evaluates the curve position by the degree-3 de Boor recurrence over
/// the window `[l - 3, l]`. The result's coordinates never leave the
/// window's bounding box — the axis-aligned face of the B-spline convex
/// hull property.
#[verifier::rlimit(100)]
pub fn de_boors(control_points: &Vec<Vec2>, t: i64, knots: &Vec<i64>, l: usize) -> (r: Vec2)
    requires
        wf_points(control_points@),
        wf_knots(knots@),
        knots@.len() == control_points@.len() + 4,
        span_ok(control_points@.len() as int, l as int, t as int),
    ensures
        ({
            let ps = control_points@;
            let n = ps.len() as int;
            let b = l - 3;
            &&& pt(r) == de_boors_s(ps, n, l as int, t * (n - 3))
            &&& window_min_x(ps, b) <= r.x <= window_max_x(ps, b)
            &&& window_min_y(ps, b) <= r.y <= window_max_y(ps, b)
            &&& r.within(COORD_LIMIT as int)
        }),
{
    let ghost ps = control_points@;
    let ghost n_ = ps.len() as int;
    let n: usize = control_points.len();
    let m: i64 = (n - 3) as i64;
    proof {
        assert(0 <= (t as int) * (m as int) <= 100000000000) by (nonlinear_arith)
            requires
                0 <= t <= 1000000,
                0 <= m <= 100000,
        ;
    }
    let ts: i64 = t * m;
    let b: usize = l - 3;
    let e0: Vec2 = control_points[b];
    let e1: Vec2 = control_points[b + 1];
    let e2: Vec2 = control_points[b + 2];
    let e3: Vec2 = control_points[b + 3];
    proof {
        lemma_knot_monotone(n_, b + 1, l as int);
        lemma_knot_monotone(n_, b + 2, l as int);
        lemma_knot_monotone(n_, b + 3, l as int);
        lemma_knot_monotone(n_, l as int + 1, b + 4);
        lemma_knot_monotone(n_, l as int + 1, b + 5);
        lemma_knot_monotone(n_, l as int + 1, b + 6);
        lemma_knot_monotone(n_, 0, b + 1);
        lemma_knot_monotone(n_, b + 6, n_ + 3);
        lemma_span_nondegenerate(n_, l as int);
        assert(ps[b as int].within(COORD_LIMIT as int));
        assert(ps[b as int + 1].within(COORD_LIMIT as int));
        assert(ps[b as int + 2].within(COORD_LIMIT as int));
        assert(ps[b as int + 3].within(COORD_LIMIT as int));
    }
    let w_q0: i64 = span_weight(ts, knots[b + 1], knots[b + 4]);
    let w_q1: i64 = span_weight(ts, knots[b + 2], knots[b + 5]);
    let w_q2: i64 = span_weight(ts, knots[b + 3], knots[b + 6]);
    let w_w0: i64 = span_weight(ts, knots[b + 2], knots[b + 4]);
    let w_w1: i64 = span_weight(ts, knots[b + 3], knots[b + 5]);
    let w_top: i64 = span_weight(ts, knots[b + 3], knots[b + 4]);
    let q0: Vec2 = blend_pt(e0, e1, w_q0);
    let q1: Vec2 = blend_pt(e1, e2, w_q1);
    let q2: Vec2 = blend_pt(e2, e3, w_q2);
    let w0: Vec2 = blend_pt(q0, q1, w_w0);
    let w1: Vec2 = blend_pt(q1, q2, w_w1);
    blend_pt(w0, w1, w_top)
}

/// Evaluates the first derivative: the derivative polygon of scaled
/// forward differences, then a degree-2 de Boor blend.
#[verifier::rlimit(100)]
pub fn de_boors_derivative(control_points: &Vec<Vec2>, t: i64, knots: &Vec<i64>, l: usize) -> (r:
    Vec2)
    requires
        wf_points(control_points@),
        wf_knots(knots@),
        knots@.len() == control_points@.len() + 4,
        span_ok(control_points@.len() as int, l as int, t as int),
    ensures
        ({
            let ps = control_points@;
            let n = ps.len() as int;
            &&& pt(r) == de_boors_derivative_s(ps, n, l as int, t * (n - 3))
            &&& r.within(DERIV_LIMIT as int)
        }),
{
    let ghost ps = control_points@;
    let ghost n_ = ps.len() as int;
    let n: usize = control_points.len();
    let m: i64 = (n - 3) as i64;
    proof {
        assert(0 <= (t as int) * (m as int) <= 100000000000) by (nonlinear_arith)
            requires
                0 <= t <= 1000000,
                0 <= m <= 100000,
        ;
    }
    let ts: i64 = t * m;
    let b: usize = l - 3;
    proof {
        lemma_knot_monotone(n_, b + 1, l as int);
        lemma_knot_monotone(n_, b + 2, l as int);
        lemma_knot_monotone(n_, b + 3, l as int);
        lemma_knot_monotone(n_, l as int + 1, b + 4);
        lemma_knot_monotone(n_, l as int + 1, b + 5);
        lemma_knot_monotone(n_, l as int + 1, b + 6);
        lemma_knot_monotone(n_, 0, b + 1);
        lemma_knot_monotone(n_, b + 6, n_ + 3);
        lemma_span_nondegenerate(n_, l as int);
        assert(ps[b as int].within(COORD_LIMIT as int));
        assert(ps[b as int + 1].within(COORD_LIMIT as int));
        assert(ps[b as int + 2].within(COORD_LIMIT as int));
        assert(ps[b as int + 3].within(COORD_LIMIT as int));
    }
    let d0: Vec2 = deriv_pt(
        control_points[b],
        control_points[b + 1],
        knots[b + 4] - knots[b + 1],
    );
    let d1: Vec2 = deriv_pt(
        control_points[b + 1],
        control_points[b + 2],
        knots[b + 5] - knots[b + 2],
    );
    let d2: Vec2 = deriv_pt(
        control_points[b + 2],
        control_points[b + 3],
        knots[b + 6] - knots[b + 3],
    );
    let w_q0: i64 = span_weight(ts, knots[b + 2], knots[b + 4]);
    let w_q1: i64 = span_weight(ts, knots[b + 3], knots[b + 5]);
    let w_top: i64 = span_weight(ts, knots[b + 3], knots[b + 4]);
    let q0: Vec2 = blend_pt(d0, d1, w_q0);
    let q1: Vec2 = blend_pt(d1, d2, w_q1);
    blend_pt(q0, q1, w_top)
}

/// Evaluates the second derivative: second differences of the window
/// scaled down twice, then one blend.
#[verifier::rlimit(100)]
pub fn de_boors_second_derivative(
    control_points: &Vec<Vec2>,
    t: i64,
    knots: &Vec<i64>,
    l: usize,
) -> (r: Vec2)
    requires
        wf_points(control_points@),
        wf_knots(knots@),
        knots@.len() == control_points@.len() + 4,
        span_ok(control_points@.len() as int, l as int, t as int),
    ensures
        ({
            let ps = control_points@;
            let n = ps.len() as int;
            &&& pt(r) == de_boors_second_derivative_s(ps, n, l as int, t * (n - 3))
            &&& r.within(CURV_LIMIT as int)
        }),
{
    let ghost ps = control_points@;
    let ghost n_ = ps.len() as int;
    let n: usize = control_points.len();
    let m: i64 = (n - 3) as i64;
    proof {
        assert(0 <= (t as int) * (m as int) <= 100000000000) by (nonlinear_arith)
            requires
                0 <= t <= 1000000,
                0 <= m <= 100000,
        ;
    }
    let ts: i64 = t * m;
    let b: usize = l - 3;
    proof {
        lemma_knot_monotone(n_, b + 1, l as int);
        lemma_knot_monotone(n_, b + 2, l as int);
        lemma_knot_monotone(n_, b + 3, l as int);
        lemma_knot_monotone(n_, l as int + 1, b + 4);
        lemma_knot_monotone(n_, l as int + 1, b + 5);
        lemma_knot_monotone(n_, l as int + 1, b + 6);
        lemma_knot_monotone(n_, 0, b + 1);
        lemma_knot_monotone(n_, b + 6, n_ + 3);
        lemma_span_nondegenerate(n_, l as int);
        assert(ps[b as int].within(COORD_LIMIT as int));
        assert(ps[b as int + 1].within(COORD_LIMIT as int));
        assert(ps[b as int + 2].within(COORD_LIMIT as int));
        assert(ps[b as int + 3].within(COORD_LIMIT as int));
    }
    let c0: Vec2 = second_pt(
        control_points[b],
        control_points[b + 1],
        control_points[b + 2],
        knots[b + 4] - knots[b + 1],
        knots[b + 4] - knots[b + 2],
    );
    let c1: Vec2 = second_pt(
        control_points[b + 1],
        control_points[b + 2],
        control_points[b + 3],
        knots[b + 5] - knots[b + 2],
        knots[b + 5] - knots[b + 3],
    );
    let w_top: i64 = span_weight(ts, knots[b + 3], knots[b + 4]);
    blend_pt(c0, c1, w_top)
}

/// One control point of the second-derivative polygon.
fn second_pt(p0: Vec2, p1: Vec2, p2: Vec2, dt0: i64, dt1: i64) -> (r: Vec2)
    requires
        p0.within(COORD_LIMIT as int),
        p1.within(COORD_LIMIT as int),
        p2.within(COORD_LIMIT as int),
        1 <= dt0 <= 3,
        1 <= dt1 <= 3,
    ensures
        ({
            let cpx = trunc_div(3 * (p1.x - p0.x), dt0 as int);
            let cpy = trunc_div(3 * (p1.y - p0.y), dt0 as int);
            let cnx = trunc_div(3 * (p2.x - p1.x), dt0 as int);
            let cny = trunc_div(3 * (p2.y - p1.y), dt0 as int);
            &&& r.x == trunc_div(2 * (cnx - cpx), dt1 as int)
            &&& r.y == trunc_div(2 * (cny - cpy), dt1 as int)
            &&& r.within(CURV_LIMIT as int)
        }),
{
    let cp: Vec2 = deriv_pt(p0, p1, dt0);
    let cn: Vec2 = deriv_pt(p1, p2, dt0);
    let nx: i64 = 2 * (cn.x - cp.x);
    let ny: i64 = 2 * (cn.y - cp.y);
    proof {
        assert(CURV_LIMIT as int <= CURV_LIMIT as int * dt1) by (nonlinear_arith)
            requires
                1 <= dt1,
        ;
        lemma_trunc_div_bound(nx as int, dt1 as int, CURV_LIMIT as int);
        lemma_trunc_div_bound(ny as int, dt1 as int, CURV_LIMIT as int);
    }
    Vec2 { x: div_trunc_i64(nx, dt1), y: div_trunc_i64(ny, dt1) }
}


/// A polygon as a sequence of unbounded integer pairs.
pub open spec fn pts_pairs(ps: Seq<Vec2>) -> Seq<(int, int)> {
    Seq::new(ps.len(), |i: int| pt(ps[i]))
}

/// One de Casteljau round: every adjacent pair blended at weight `t`.
pub open spec fn cast_round(qs: Seq<(int, int)>, t: int) -> Seq<(int, int)> {
    Seq::new((qs.len() - 1) as nat, |i: int| blend2_s(qs[i], qs[i + 1], t))
}

/// `r` de Casteljau rounds applied in order.
pub open spec fn cast_iter(qs: Seq<(int, int)>, t: int, r: int) -> Seq<(int, int)>
    decreases r,
{
    if r <= 0 {
        qs
    } else {
        cast_iter(cast_round(qs, t), t, r - 1)
    }
}

/// The point the de Casteljau recursion evaluates to.
pub open spec fn casteljau_s(qs: Seq<(int, int)>, t: int) -> (int, int)
    decreases qs.len(),
{
    if qs.len() <= 1 {
        qs[0]
    } else {
        casteljau_s(cast_round(qs, t), t)
    }
}

/// Each round shortens the polygon by one, so the recursion meets the
/// iterated rounds at the single point that is left.
pub proof fn lemma_casteljau_iter(qs: Seq<(int, int)>, t: int)
    requires
        qs.len() >= 1,
    ensures
        cast_iter(qs, t, qs.len() - 1).len() == 1,
        casteljau_s(qs, t) == cast_iter(qs, t, qs.len() - 1)[0],
    decreases qs.len(),
{
    if qs.len() > 1 {
        lemma_casteljau_iter(cast_round(qs, t), t);
    }
}

/// Evaluates the Bezier curve of the whole control polygon by de
/// Casteljau's repeated blending — the evaluator the spline replaced,
/// kept as its simple counterpart. The result never leaves the polygon's
/// bounding box.
pub fn de_casteljau(control_points: Vec<Vec2>, t: i64) -> (r: Vec2)
    requires
        1 <= control_points@.len() <= MAX_POINTS,
        forall|i: int|
            0 <= i < control_points@.len() ==> (#[trigger] control_points@[i]).within(
                COORD_LIMIT as int,
            ),
        0 <= t <= SCALE,
    ensures
        pt(r) == casteljau_s(pts_pairs(control_points@), t as int),
        r.within(COORD_LIMIT as int),
{
    let ghost qs0 = pts_pairs(control_points@);
    let mut cp: Vec<Vec2> = control_points;
    let n: usize = cp.len();
    let mut r: usize = 1;
    while r < n
        invariant
            n == cp@.len(),
            1 <= n <= MAX_POINTS,
            qs0.len() == n,
            1 <= r <= n,
            0 <= t <= SCALE,
            cast_iter(qs0, t as int, r - 1).len() == n - (r - 1),
            forall|i: int|
                0 <= i < n - (r - 1) ==> pt(cp@[i]) == #[trigger] cast_iter(qs0, t as int, r - 1)[i],
            forall|i: int| 0 <= i < n ==> (#[trigger] cp@[i]).within(COORD_LIMIT as int),
        decreases n - r,
    {
        let ghost g = cast_iter(qs0, t as int, r - 1);
        let ghost g2 = cast_round(g, t as int);
        let m: usize = n - r;
        let mut i: usize = 0;
        while i < m
            invariant
                n == cp@.len(),
                1 <= r < n,
                m == n - r,
                0 <= t <= SCALE,
                i <= m,
                g.len() == m + 1,
                g2 == cast_round(g, t as int),
                forall|k: int| 0 <= k < i ==> pt(cp@[k]) == #[trigger] g2[k],
                forall|k: int| i <= k < m + 1 ==> pt(cp@[k]) == #[trigger] g[k],
                forall|k: int| 0 <= k < n ==> (#[trigger] cp@[k]).within(COORD_LIMIT as int),
            decreases m - i,
        {
            let b: Vec2 = blend_pt(cp[i], cp[i + 1], t);
            cp[i] = b;
            i = i + 1;
        }
        proof {
            lemma_cast_iter_snoc(qs0, t as int, r as int);
        }
        r = r + 1;
    }
    proof {
        lemma_casteljau_iter(qs0, t as int);
    }
    cp[0]
}

/// Iterating `r` rounds is iterating `r - 1` rounds and then one more.
pub proof fn lemma_cast_iter_snoc(qs: Seq<(int, int)>, t: int, r: int)
    requires
        1 <= r,
    ensures
        cast_iter(qs, t, r) == cast_round(cast_iter(qs, t, r - 1), t),
    decreases r,
{
    if r == 1 {
        assert(cast_iter(qs, t, 1) == cast_iter(cast_round(qs, t), t, 0));
        assert(cast_iter(cast_round(qs, t), t, 0) == cast_round(qs, t));
        assert(cast_iter(qs, t, 0) == qs);
    } else {
        lemma_cast_iter_snoc(cast_round(qs, t), t, r - 1);
        assert(cast_iter(qs, t, r) == cast_iter(cast_round(qs, t), t, r - 1));
        assert(cast_iter(qs, t, r - 1) == cast_iter(cast_round(qs, t), t, r - 2));
    }
}


} // verus!
