//! Nearest-point projection onto the curve: a coarse scan over the control
//! points, a 41-sample grid refinement around the coarse seed, then
//! Newton-Raphson on the squared distance with a random restart when it
//! converges far from the query. Whatever Newton does, the returned
//! parameter is never worse than the best grid sample.

use vstd::prelude::*;
use crate::num::{
    clamp_i128, clamp_i64, clamp_s, div_trunc_i128, div_trunc_i64, lemma_trunc_div_bound,
    lemma_trunc_div_small, mul_small, trunc_div, SCALE,
};
use crate::vec2::{dist2_s, lemma_dot_bound, Vec2};
use crate::knots::{find_knot, is_knot_vec, knot_at, knot_vector, wf_knots};
use crate::curve::{curve_eval_s, Curve};
use crate::spline::{
    de_boors, de_boors_derivative, de_boors_second_derivative, wf_points, COORD_LIMIT,
    CURV_LIMIT, DERIV_LIMIT,
};
use crate::topology::POS_LIMIT;

verus! {

/// Squared distance from a ghost curve point to the query.
pub open spec fn dist2p_s(a: (int, int), q: Vec2) -> int {
    (a.0 - q.x) * (a.0 - q.x) + (a.1 - q.y) * (a.1 - q.y)
}

/// The index of the control point nearest to `q` among the first `k`,
/// earliest index winning ties.
pub open spec fn coarse_min_idx(ps: Seq<Vec2>, q: Vec2, k: int) -> int
    decreases k,
{
    if k <= 1 {
        0
    } else {
        let p = coarse_min_idx(ps, q, k - 1);
        if dist2_s(ps[k - 1], q) < dist2_s(ps[p], q) {
            k - 1
        } else {
            p
        }
    }
}

/// The parameter seeded from the nearest control point: its knot mapped
/// back into `[0, SCALE]`.
pub open spec fn coarse_t_s(ps: Seq<Vec2>, q: Vec2) -> int {
    let n = ps.len() as int;
    trunc_div(knot_at(n, coarse_min_idx(ps, q, n) + 3) * SCALE, n - 3)
}

/// The grid spacing around the coarse seed: a tenth of one
/// control-point-spacing worth of parameter.
pub open spec fn grid_step_s(n: int) -> int {
    trunc_div(trunc_div(SCALE as int, n), 10)
}

/// The `j`-th grid sample, `j` running over `-20 ..= 20`, clamped into the
/// parameter range.
pub open spec fn grid_t_s(ps: Seq<Vec2>, q: Vec2, j: int) -> int {
    clamp_s(coarse_t_s(ps, q) + j * grid_step_s(ps.len() as int), 0, SCALE as int)
}

/// The coarse argmin index is a valid control-point index.
pub proof fn lemma_coarse_min_idx_range(ps: Seq<Vec2>, q: Vec2, k: int)
    requires
        1 <= k,
    ensures
        0 <= coarse_min_idx(ps, q, k) < k,
    decreases k,
{
    if k > 1 {
        lemma_coarse_min_idx_range(ps, q, k - 1);
    }
}

/// What the solver guarantees of a returned parameter: it lies in range,
/// and no grid sample around the coarse seed is strictly closer to the
/// query than the curve point at `t`.
pub open spec fn nearest_ok(ps: Seq<Vec2>, q: Vec2, t: int) -> bool {
    &&& 0 <= t <= SCALE
    &&& forall|j: int|
        -20 <= j <= 20 ==> dist2p_s(curve_eval_s(ps, t), q) <= dist2p_s(
            curve_eval_s(ps, #[trigger] grid_t_s(ps, q, j)),
            q,
        )
}

/// Squared distance at the restart threshold: a distance of one hundred
/// world units.
pub const RESTART_DIST2: i128 = 10_000_000_000_000_000;

/// Relies on `rand::thread_rng` and `rand::Rng::gen_range`: a sample from
/// a nonempty inclusive range lies within that range. Nothing more is
/// assumed of the value.
#[verifier::external_body]
fn random_unit_param() -> (r: i64)
    ensures
        0 <= r <= SCALE,
{
    rand::Rng::gen_range(&mut rand::thread_rng(), 0..=SCALE)
}

/// Finds a parameter whose curve point is at least as close to `point` as
/// every one of the 41 grid samples around the coarse seed. Newton
/// iterations may improve on that; a final comparison falls back to the
/// best grid sample, so the guarantee holds whatever the random restarts
/// did.
pub fn get_nearest_spline_point(point: Vec2, positions: &Vec<Vec2>) -> (t: i64)
    requires
        wf_points(positions@),
        point.within(POS_LIMIT as int),
    ensures
        nearest_ok(positions@, point, t as int),
{
    let ghost ps = positions@;
    let n: usize = positions.len();
    let m: i64 = (n - 3) as i64;
    let knots: Vec<i64> = match knot_vector(n) {
        Ok(v) => v,
        Err(_) => {
            proof {
                assert(false);
            }
            Vec::new()
        },
    };
    // Coarse scan: the control point nearest to the query.
    proof {
        assert(ps[0].within(COORD_LIMIT as int));
    }
    let mut min_idx: usize = 0;
    let mut min_dist: i128 = positions[0].dist2(point);
    let mut i: usize = 1;
    while i < n
        invariant
            wf_points(ps),
            ps == positions@,
            point.within(POS_LIMIT as int),
            n == ps.len(),
            1 <= i <= n,
            min_idx < i,
            min_idx as int == coarse_min_idx(ps, point, i as int),
            min_dist == dist2_s(ps[min_idx as int], point),
        decreases n - i,
    {
        proof {
            assert(ps[i as int].within(COORD_LIMIT as int));
            assert(ps[min_idx as int].within(COORD_LIMIT as int));
        }
        let d: i128 = positions[i].dist2(point);
        if d < min_dist {
            min_dist = d;
            min_idx = i;
        }
        i = i + 1;
    }
    proof {
        lemma_coarse_min_idx_range(ps, point, n as int);
        lemma_trunc_div_bound(
            knot_at(n as int, min_idx as int + 3) * SCALE,
            m as int,
            SCALE as int,
        );
        assert((m as int) * SCALE == SCALE as int * (m as int)) by (nonlinear_arith);
    }
    let con_t: i64 = div_trunc_i64(knots[min_idx + 3] * SCALE, m);
    // Grid refinement: 41 samples around the coarse seed.
    let step: i64 = div_trunc_i64(div_trunc_i64(SCALE, n as i64), 10);
    proof {
        lemma_trunc_div_small(SCALE as int, n as int);
        lemma_trunc_div_small(trunc_div(SCALE as int, n as int), 10);
    }
    let t0: i64 = clamp_i64(con_t - 20 * step, 0, SCALE);
    proof {
        assert((-20) * grid_step_s(n as int) == -(20 * grid_step_s(n as int)))
            by (nonlinear_arith);
    }
    let l0: usize = find_knot(t0, &knots);
    let f0: Vec2 = de_boors(positions, t0, &knots, l0);
    let mut best_t: i64 = t0;
    let mut best_d: i128 = f0.dist2(point);
    let mut j2: usize = 1;
    while j2 < 41
        invariant
            wf_points(ps),
            ps == positions@,
            point.within(POS_LIMIT as int),
            n == ps.len(),
            wf_knots(knots@),
            is_knot_vec(knots@, n as int),
            knots@.len() == n + 4,
            m == n - 3,
            1 <= j2 <= 41,
            0 <= best_t <= SCALE,
            con_t as int == coarse_t_s(ps, point),
            step as int == grid_step_s(n as int),
            0 <= step <= SCALE,
            0 <= con_t <= SCALE,
            best_d == dist2p_s(curve_eval_s(ps, best_t as int), point),
            forall|j: int|
                -20 <= j < j2 - 20 ==> best_d <= dist2p_s(
                    curve_eval_s(ps, #[trigger] grid_t_s(ps, point, j)),
                    point,
                ),
        decreases 41 - j2,
    {
        proof {
            assert(-21000000 <= (j2 as int - 20) * (step as int) <= 21000000)
                by (nonlinear_arith)
                requires
                    -20 <= j2 as int - 20 <= 21,
                    0 <= step <= 1000000,
            ;
        }
        let off: i64 = (j2 as i64 - 20) * step;
        let tj: i64 = clamp_i64(con_t + off, 0, SCALE);
        let lj: usize = find_knot(tj, &knots);
        let fj: Vec2 = de_boors(positions, tj, &knots, lj);
        let dj: i128 = fj.dist2(point);
        if dj < best_d {
            best_d = dj;
            best_t = tj;
        }
        j2 = j2 + 1;
    }
    // Newton-Raphson on the squared distance, ten iterations, with a
    // random restart when it converges too far away.
    let mut t: i64 = best_t;
    let mut iter: usize = 0;
    while iter < 10
        invariant
            wf_points(ps),
            ps == positions@,
            point.within(POS_LIMIT as int),
            n == ps.len(),
            wf_knots(knots@),
            is_knot_vec(knots@, n as int),
            knots@.len() == n + 4,
            m == n - 3,
            0 <= t <= SCALE,
        decreases 10 - iter,
    {
        let l: usize = find_knot(t, &knots);
        let f: Vec2 = de_boors(positions, t, &knots, l);
        let g: Vec2 = de_boors_derivative(positions, t, &knots, l);
        let h: Vec2 = de_boors_second_derivative(positions, t, &knots, l);
        let diff: Vec2 = f.minus(point);
        proof {
            lemma_dot_bound(diff, g, 101000000000000int, DERIV_LIMIT as int);
            lemma_dot_bound(g, g, DERIV_LIMIT as int, DERIV_LIMIT as int);
            lemma_dot_bound(diff, h, 101000000000000int, CURV_LIMIT as int);
        }
        let df_raw: i128 = 2 * diff.dot_wide(g);
        let ddf_raw: i128 = 2 * (g.dot_wide(g) + diff.dot_wide(h));
        if ddf_raw == 0 {
            // degenerate curvature: one raw unit is already far below any
            // meaningful second derivative, so only an exact zero stops us
            break;
        }
        let step_n: i128 = div_trunc_i128(mul_small(df_raw, SCALE as i128), ddf_raw);
        proof {
            lemma_trunc_div_small(df_raw as int * SCALE as int, ddf_raw as int);
            lemma_trunc_div_small(step_n as int, m as int);
        }
        let tn: i128 = (t as i128) - div_trunc_i128(step_n, m as i128);
        t = clamp_i128(tn, 0, SCALE);
        if step_n == 0 {
            // converged: the step fell below one raw parameter unit
            if f.dist2(point) > RESTART_DIST2 {
                t = random_unit_param();
            } else {
                break;
            }
        }
        iter = iter + 1;
    }
    // Fallback: never worse than the best grid sample.
    let l: usize = find_knot(t, &knots);
    let f: Vec2 = de_boors(positions, t, &knots, l);
    if f.dist2(point) > best_d {
        t = best_t;
    }
    t
}

/// Nearest-point projection of `query` onto the curve, as a parameter in
/// `[0, SCALE]`.
pub fn nearest_point(curve: &Curve, query: Vec2) -> (t: i64)
    requires
        curve.wf(),
        query.within(POS_LIMIT as int),
    ensures
        nearest_ok(curve.points@, query, t as int),
{
    get_nearest_spline_point(query, &curve.points)
}

} // verus!
