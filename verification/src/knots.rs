//! Clamped uniform knot vectors for cubic B-splines: the builder, and the
//! span locator that maps a parameter in `[0, SCALE]` to a knot span with a
//! full window of four control points.

use vstd::prelude::*;
use vstd::arithmetic::div_mod::{lemma_fundamental_div_mod, lemma_mod_bound};
use crate::num::{div_trunc_i64, SCALE};

verus! {

/// Most control points a curve may have; keeps every knot product inside
/// `i64`.
pub const MAX_POINTS: usize = 100_000;

/// The clamped uniform knot value at index `i` for `n` control points and
/// degree 3: four zeros, the integers `1 .. n - 4`, then four copies of
/// `n - 3`.
pub open spec fn knot_at(n: int, i: int) -> int {
    if i <= 3 {
        0
    } else if i <= n - 1 {
        i - 3
    } else {
        n - 3
    }
}

/// `s` is the clamped uniform knot vector for `n` control points.
pub open spec fn is_knot_vec(s: Seq<i64>, n: int) -> bool {
    &&& 4 <= n <= MAX_POINTS
    &&& s.len() == n + 4
    &&& forall|i: int| 0 <= i < s.len() ==> s[i] == knot_at(n, i)
}

/// `s` is a well-formed knot vector for the count its length encodes.
pub open spec fn wf_knots(s: Seq<i64>) -> bool {
    s.len() >= 8 && is_knot_vec(s, s.len() - 4)
}

/// Reasons a curve cannot be built.
#[derive(Clone, Copy, PartialEq, Eq, Structural, Debug)]
pub enum CurveError {
    /// Fewer control points than a cubic spline needs.
    TooFewControlPoints,
    /// A coordinate beyond `COORD_LIMIT`, or more points than `MAX_POINTS`.
    OutOfRange,
}

/// Builds the clamped uniform knot vector for `n` control points: `n + 4`
/// knots, failing exactly when `n` is below the four points a cubic needs.
pub fn knot_vector(n: usize) -> (r: Result<Vec<i64>, CurveError>)
    requires
        n <= MAX_POINTS,
    ensures
        match r {
            Ok(v) => n >= 4 && is_knot_vec(v@, n as int),
            Err(e) => n < 4 && e == CurveError::TooFewControlPoints,
        },
{
    if n < 4 {
        return Err(CurveError::TooFewControlPoints);
    }
    let mut v: Vec<i64> = Vec::new();
    let mut i: usize = 0;
    while i < 4
        invariant
            i <= 4,
            v@.len() == i,
            forall|k: int| 0 <= k < i ==> v@[k] == 0,
        decreases 4 - i,
    {
        v.push(0);
        i = i + 1;
    }
    let mut j: usize = 1;
    while j < n - 3
        invariant
            4 <= n <= MAX_POINTS,
            1 <= j <= n - 3,
            v@.len() == j + 3,
            forall|k: int| 0 <= k < v@.len() ==> v@[k] == knot_at(n as int, k),
        decreases n - 3 - j,
    {
        v.push(j as i64);
        j = j + 1;
    }
    let mut c: usize = 0;
    while c < 4
        invariant
            4 <= n <= MAX_POINTS,
            c <= 4,
            v@.len() == n + c,
            forall|k: int| 0 <= k < v@.len() ==> v@[k] == knot_at(n as int, k),
        decreases 4 - c,
    {
        v.push((n - 3) as i64);
        c = c + 1;
    }
    Ok(v)
}

/// Knot values never decrease with the index, grow by at most one per index
/// step, and are strictly apart across a valid span.
pub proof fn lemma_knot_monotone(n: int, i: int, j: int)
    requires
        4 <= n,
        i <= j,
    ensures
        knot_at(n, i) <= knot_at(n, j),
        knot_at(n, j) - knot_at(n, i) <= j - i,
{
}

/// Within the clamped range, each span `[l, l + 1]` is nondegenerate.
pub proof fn lemma_span_nondegenerate(n: int, l: int)
    requires
        4 <= n,
        3 <= l <= n - 1,
    ensures
        knot_at(n, l) + 1 == knot_at(n, l + 1),
{
}

/// The span index the locator returns for parameter `t`: the rightmost knot
/// index whose knot is below the scaled parameter, clamped into
/// `[3, n - 1]`.
pub open spec fn knot_span_s(n: int, t: int) -> int {
    let v = (t * (n - 3)) / (SCALE as int);
    if v <= 0 {
        3
    } else if v >= n - 3 {
        n - 1
    } else {
        v + 3
    }
}

/// Locates the knot span for a parameter `t` in `[0, SCALE]`. The returned
/// index `l` keeps the scaled parameter inside `[knot[l], knot[l + 1]]`, so
/// the evaluator always has a valid window and every blend weight stays in
/// `[0, SCALE]`.
pub fn find_knot(t: i64, knots: &Vec<i64>) -> (l: usize)
    requires
        wf_knots(knots@),
        0 <= t <= SCALE,
    ensures
        ({
            let n = knots@.len() - 4;
            &&& l == knot_span_s(n as int, t as int)
            &&& 3 <= l <= n - 1
            &&& knot_at(n as int, l as int) * SCALE <= t * (n - 3)
            &&& t * (n - 3) <= knot_at(n as int, l as int + 1) * SCALE
        }),
{
    let n: usize = knots.len() - 4;
    let m: i64 = (n - 3) as i64;
    proof {
        assert(0 <= (t as int) * (m as int) <= 100000000000) by (nonlinear_arith)
            requires
                0 <= t <= 1000000,
                0 <= m <= 100000,
        ;
    }
    let ts: i64 = t * m;
    let v: i64 = div_trunc_i64(ts, SCALE);
    proof {
        lemma_fundamental_div_mod(ts as int, SCALE as int);
        lemma_mod_bound(ts as int, SCALE as int);
    }
    if v <= 0 {
        3
    } else if v >= m {
        proof {
            assert((t as int) * (m as int) <= (SCALE as int) * (m as int))
                by (nonlinear_arith)
                requires
                    0 <= t <= SCALE,
                    0 <= m,
            ;
        }
        n - 1
    } else {
        (v as usize) + 3
    }
}

} // verus!
