//! Inside/outside classification against an open curve: an even-odd ray
//! crossing count over the control polygon, two endpoint sector codes, and
//! a parity correction against the memory kept from an earlier frame. The
//! curve is open, so raw parity alone would flip whenever a free end sweeps
//! across the query's ray; the stored sectors detect such sweeps.

use vstd::prelude::*;
use crate::num::mul_wide;
use crate::vec2::Vec2;
use crate::spline::wf_points;

verus! {

/// Largest coordinate magnitude (fixed-point units) a moving object may
/// reach while the resolver still accepts it.
pub const POS_LIMIT: i64 = 100_000_000_000_000;

/// The per-(object, curve) memory persisted across frames: the last
/// crossing count and the two endpoint sector codes.
#[derive(Clone, Copy, PartialEq, Eq, Structural, Debug)]
pub struct SplineColliderInfo {
    pub intersections: i32,
    pub start_sector: i32,
    pub end_sector: i32,
}

/// A memory record as this module produces it: a nonnegative count and
/// two 2-bit sector codes.
pub open spec fn info_wf(m: SplineColliderInfo) -> bool {
    &&& 0 <= m.intersections
    &&& 0 <= m.start_sector <= 3
    &&& 0 <= m.end_sector <= 3
}

/// A horizontal ray from `q` rightward crosses the segment `p1 p2`,
/// under the half-open rule the tracker uses: the interpolation fraction
/// lies in `(0, 1]` and the segment's height at `q.x` is strictly above
/// `q.y`. Stated division-free over the segment ordered by `x`.
pub open spec fn crosses_s(p1: Vec2, p2: Vec2, q: Vec2) -> bool {
    let b = if p1.x > p2.x {
        p1
    } else {
        p2
    };
    let s = if p1.x > p2.x {
        p2
    } else {
        p1
    };
    &&& s.x < q.x <= b.x
    &&& s.y * (b.x - q.x) + b.y * (q.x - s.x) > q.y * (b.x - s.x)
}

/// Crossings of the ray from `q` over the first `k` segments of the
/// polygon.
pub open spec fn crossing_count_s(ps: Seq<Vec2>, q: Vec2, k: int) -> int
    decreases k,
{
    if k <= 0 {
        0
    } else {
        crossing_count_s(ps, q, k - 1) + if crosses_s(ps[k - 1], ps[k], q) {
            1int
        } else {
            0int
        }
    }
}

/// The 2-bit sector code of `q` against an anchor point: bit 0 says the
/// anchor is left of `q`, bit 1 says it is below.
pub open spec fn sector_s(p: Vec2, q: Vec2) -> int {
    (if p.x < q.x {
        1int
    } else {
        0int
    }) + 2 * (if p.y < q.y {
        1int
    } else {
        0int
    })
}

/// A sector toggled between the codes 0 and 1: the anchor moved across
/// the vertical through `q` while staying above it.
pub open spec fn toggled_s(old_sec: int, new_sec: int) -> bool {
    (old_sec == 0 && new_sec == 1) || (old_sec == 1 && new_sec == 0)
}

/// The corrected inside/outside verdict given a previous memory record:
/// stored parity versus new parity shifted by one for each endpoint whose
/// sector toggled.
pub open spec fn classify_some_s(ps: Seq<Vec2>, q: Vec2, m: SplineColliderInfo) -> bool {
    let inters_new = crossing_count_s(ps, q, ps.len() - 1);
    let modifier = (if toggled_s(m.start_sector as int, sector_s(ps[0], q)) {
        1int
    } else {
        0int
    }) + (if toggled_s(m.end_sector as int, sector_s(ps[ps.len() - 1], q)) {
        1int
    } else {
        0int
    });
    (m.intersections as int) % 2 != (modifier + inters_new) % 2
}

/// Whether the ray from `point` crosses the segment `p1 p2`.
pub fn goes_through_line(p1: Vec2, p2: Vec2, point: Vec2) -> (r: bool)
    requires
        p1.within(POS_LIMIT as int),
        p2.within(POS_LIMIT as int),
        point.within(POS_LIMIT as int),
    ensures
        r == crosses_s(p1, p2, point),
{
    let bigger: Vec2 = if p1.x > p2.x {
        p1
    } else {
        p2
    };
    let smaller: Vec2 = if p1.x > p2.x {
        p2
    } else {
        p1
    };
    if smaller.x == bigger.x {
        return false;
    }
    if !(smaller.x < point.x && point.x <= bigger.x) {
        return false;
    }
    let ma: i128 = mul_wide(smaller.y, bigger.x - point.x);
    let mb: i128 = mul_wide(bigger.y, point.x - smaller.x);
    proof {
        assert(-100000000000000000000000000000 <= (smaller.y as int) * ((bigger.x - point.x) as int)
            <= 100000000000000000000000000000) by (nonlinear_arith)
            requires
                -100000000000000 <= smaller.y <= 100000000000000,
                -200000000000000 <= bigger.x - point.x <= 200000000000000,
        ;
        assert(-100000000000000000000000000000 <= (bigger.y as int) * ((point.x - smaller.x) as int)
            <= 100000000000000000000000000000) by (nonlinear_arith)
            requires
                -100000000000000 <= bigger.y <= 100000000000000,
                -200000000000000 <= point.x - smaller.x <= 200000000000000,
        ;
    }
    let lhs: i128 = ma + mb;
    let rhs: i128 = mul_wide(point.y, bigger.x - smaller.x);
    lhs > rhs
}

/// Counts ray crossings over the whole polygon, classifies the two
/// endpoint sectors, and corrects the parity against the previous
/// frame's memory. With no memory it only establishes a baseline and
/// reports outside. The result is a function of the arguments alone, so
/// repeated calls with unchanged inputs and memory agree.
pub fn point_inside(
    point: Vec2,
    positions: &Vec<Vec2>,
    spline_info: Option<&SplineColliderInfo>,
) -> (r: (bool, SplineColliderInfo))
    requires
        wf_points(positions@),
        point.within(POS_LIMIT as int),
        spline_info matches Some(m) ==> info_wf(*m),
    ensures
        ({
            let ps = positions@;
            &&& r.1.intersections as int == crossing_count_s(ps, point, ps.len() - 1)
            &&& r.1.start_sector as int == sector_s(ps[0], point)
            &&& r.1.end_sector as int == sector_s(ps[ps.len() - 1], point)
            &&& info_wf(r.1)
            &&& spline_info is None ==> r.0 == false
            &&& spline_info matches Some(m) ==> r.0 == classify_some_s(ps, point, *m)
        }),
{
    let ghost ps = positions@;
    let n: usize = positions.len();
    let mut count: i32 = 0;
    let mut j: usize = 1;
    while j < n
        invariant
            wf_points(ps),
            ps == positions@,
            point.within(POS_LIMIT as int),
            1 <= j <= n,
            n == ps.len(),
            0 <= count <= j - 1,
            count as int == crossing_count_s(ps, point, j - 1),
        decreases n - j,
    {
        proof {
            assert(ps[j - 1].within(crate::spline::COORD_LIMIT as int));
            assert(ps[j as int].within(crate::spline::COORD_LIMIT as int));
        }
        if goes_through_line(positions[j - 1], positions[j], point) {
            count = count + 1;
        }
        j = j + 1;
    }
    proof {
        assert(ps[0].within(crate::spline::COORD_LIMIT as int));
        assert(ps[n - 1].within(crate::spline::COORD_LIMIT as int));
    }
    let start_x: bool = positions[0].x < point.x;
    let start_y: bool = positions[0].y < point.y;
    let end_x: bool = positions[n - 1].x < point.x;
    let end_y: bool = positions[n - 1].y < point.y;
    let splinco = SplineColliderInfo {
        intersections: count,
        start_sector: (if start_x {
            1i32
        } else {
            0i32
        }) + (if start_y {
            2i32
        } else {
            0i32
        }),
        end_sector: (if end_x {
            1i32
        } else {
            0i32
        }) + (if end_y {
            2i32
        } else {
            0i32
        }),
    };
    match spline_info {
        Some(spl) => {
            let mut parity_modifier: i32 = 0;
            if (spl.start_sector == 0 && splinco.start_sector == 1) || (spl.start_sector == 1
                && splinco.start_sector == 0) {
                parity_modifier = parity_modifier + 1;
            }
            if (spl.end_sector == 0 && splinco.end_sector == 1) || (spl.end_sector == 1
                && splinco.end_sector == 0) {
                parity_modifier = parity_modifier + 1;
            }
            let inters_old: i32 = spl.intersections;
            let inters_new: i32 = splinco.intersections;
            let odd_old: bool = (inters_old as u32) % 2 == 1;
            let odd_new: bool = ((parity_modifier + inters_new) as u32) % 2 == 1;
            (odd_old != odd_new, splinco)
        },
        None => (false, splinco),
    }
}

/// Stability of the classifier: any two results that meet the tracker's
/// contract for the same query, polygon and memory are the same result.
/// Repeated calls with unchanged inputs and memory therefore agree.
pub proof fn lemma_classify_side_stable(
    ps: Seq<Vec2>,
    q: Vec2,
    m: SplineColliderInfo,
    a: (bool, SplineColliderInfo),
    b: (bool, SplineColliderInfo),
)
    requires
        a.0 == classify_some_s(ps, q, m),
        a.1.intersections as int == crossing_count_s(ps, q, ps.len() - 1),
        a.1.start_sector as int == sector_s(ps[0], q),
        a.1.end_sector as int == sector_s(ps[ps.len() - 1], q),
        b.0 == classify_some_s(ps, q, m),
        b.1.intersections as int == crossing_count_s(ps, q, ps.len() - 1),
        b.1.start_sector as int == sector_s(ps[0], q),
        b.1.end_sector as int == sector_s(ps[ps.len() - 1], q),
    ensures
        a == b,
{
}

/// Stability across frames with unmoved geometry: classifying against the
/// memory that the very same geometry produced reports outside — the
/// sectors cannot have toggled and the parities agree, so nothing flips.
pub proof fn lemma_classify_rebaseline(ps: Seq<Vec2>, q: Vec2, m: SplineColliderInfo)
    requires
        ps.len() >= 2,
        m.intersections as int == crossing_count_s(ps, q, ps.len() - 1),
        m.start_sector as int == sector_s(ps[0], q),
        m.end_sector as int == sector_s(ps[ps.len() - 1], q),
        info_wf(m),
    ensures
        classify_some_s(ps, q, m) == false,
{
}


/// The side of the curve the query lies on, with the updated memory
/// record: the public face of the tracker over a built curve.
pub fn classify_side(
    curve: &crate::curve::Curve,
    query: Vec2,
    memory: Option<&SplineColliderInfo>,
) -> (r: (bool, SplineColliderInfo))
    requires
        curve.wf(),
        query.within(POS_LIMIT as int),
        memory matches Some(m) ==> info_wf(*m),
    ensures
        ({
            let ps = curve.points@;
            &&& r.1.intersections as int == crossing_count_s(ps, query, ps.len() - 1)
            &&& r.1.start_sector as int == sector_s(ps[0], query)
            &&& r.1.end_sector as int == sector_s(ps[ps.len() - 1], query)
            &&& info_wf(r.1)
            &&& memory is None ==> r.0 == false
            &&& memory matches Some(m) ==> r.0 == classify_some_s(ps, query, *m)
        }),
{
    point_inside(query, &curve.points, memory)
}


} // verus!
