//! Fixed-point 2D vectors: componentwise arithmetic, squared distances, dot
//! products and normalization to a fixed-point unit vector.

use vstd::prelude::*;
use crate::num::{
    abs_s, div_trunc_i128, isqrt_u128, mul_wide, trunc_div, SCALE,
};
use crate::num::lemma_trunc_div_bound;

verus! {

/// Largest coordinate magnitude (in fixed-point units) the vector helpers
/// accept; keeps every intermediate product inside `i128`.
pub const VAL_LIMIT: i64 = 1_000_000_000_000_000;

/// A 2D point or direction; each field is a world coordinate times `SCALE`.
#[derive(Clone, Copy, PartialEq, Eq, Structural, Debug)]
pub struct Vec2 {
    pub x: i64,
    pub y: i64,
}

/// Floor of the square root, defined as the unique nonnegative `r` with
/// `r * r <= v < (r + 1) * (r + 1)`.
pub open spec fn isqrt_s(v: int) -> int {
    choose|r: int| 0 <= r && #[trigger] (r * r) <= v && (r + 1) * (r + 1) > v
}

/// Any `r` satisfying the square-root bracketing is `isqrt_s(v)`.
pub proof fn lemma_isqrt_unique(v: int, r: int)
    requires
        0 <= r,
        r * r <= v,
        (r + 1) * (r + 1) > v,
    ensures
        isqrt_s(v) == r,
{
    assert(0 <= r && r * r <= v && (r + 1) * (r + 1) > v);
    let p = isqrt_s(v);
    assert(0 <= p && p * p <= v && (p + 1) * (p + 1) > v);
    assert(p == r) by (nonlinear_arith)
        requires
            0 <= r,
            r * r <= v,
            (r + 1) * (r + 1) > v,
            0 <= p,
            p * p <= v,
            (p + 1) * (p + 1) > v,
    ;
}

/// Squared distance between two points, as unbounded integers.
pub open spec fn dist2_s(a: Vec2, b: Vec2) -> int {
    (a.x - b.x) * (a.x - b.x) + (a.y - b.y) * (a.y - b.y)
}

/// Dot product, as unbounded integers.
pub open spec fn dot_s(a: Vec2, b: Vec2) -> int {
    a.x * b.x + a.y * b.y
}

/// The fixed-point unit vector pointing the way `(dx, dy)` does; straight
/// up when the vector is zero (the one direction it cannot supply).
pub open spec fn unit_pair_s(dx: int, dy: int) -> (int, int) {
    if dx == 0 && dy == 0 {
        (0, SCALE as int)
    } else {
        let l = isqrt_s(dx * dx + dy * dy);
        (trunc_div(dx * SCALE, l), trunc_div(dy * SCALE, l))
    }
}

/// The fixed-point unit vector pointing the way `d` does.
pub open spec fn unit_s(d: Vec2) -> (int, int) {
    unit_pair_s(d.x as int, d.y as int)
}

/// A dot product of two componentwise-bounded vectors is bounded by twice
/// the product of the bounds.
pub proof fn lemma_dot_bound(a: Vec2, b: Vec2, ma: int, mb: int)
    by (nonlinear_arith)
    requires
        a.within(ma),
        b.within(mb),
        0 <= ma,
        0 <= mb,
    ensures
        -(2 * ma * mb) <= dot_s(a, b) <= 2 * ma * mb,
{
}

impl Vec2 {
    /// Both coordinates within `[-m, m]`.
    pub open spec fn within(self, m: int) -> bool {
        -m <= self.x <= m && -m <= self.y <= m
    }

    pub fn new(x: i64, y: i64) -> (r: Vec2)
        ensures
            r.x == x,
            r.y == y,
    {
        Vec2 { x, y }
    }

    /// Componentwise sum.
    pub fn plus(self, o: Vec2) -> (r: Vec2)
        requires
            self.within(VAL_LIMIT as int),
            o.within(VAL_LIMIT as int),
        ensures
            r.x == self.x + o.x,
            r.y == self.y + o.y,
    {
        Vec2 { x: self.x + o.x, y: self.y + o.y }
    }

    /// Componentwise difference.
    pub fn minus(self, o: Vec2) -> (r: Vec2)
        requires
            self.within(VAL_LIMIT as int),
            o.within(VAL_LIMIT as int),
        ensures
            r.x == self.x - o.x,
            r.y == self.y - o.y,
    {
        Vec2 { x: self.x - o.x, y: self.y - o.y }
    }

    /// The opposite vector.
    pub fn negated(self) -> (r: Vec2)
        requires
            self.within(VAL_LIMIT as int),
        ensures
            r.x == -self.x,
            r.y == -self.y,
    {
        Vec2 { x: -self.x, y: -self.y }
    }

    /// Squared distance to `o`; exact, no truncation.
    pub fn dist2(self, o: Vec2) -> (r: i128)
        requires
            self.within(VAL_LIMIT as int),
            o.within(VAL_LIMIT as int),
        ensures
            r == dist2_s(self, o),
            0 <= r,
    {
        let dx: i64 = self.x - o.x;
        let dy: i64 = self.y - o.y;
        let qx: i128 = mul_wide(dx, dx);
        let qy: i128 = mul_wide(dy, dy);
        proof {
            assert(0 <= (dx as int) * (dx as int) <= 0x10000000000000000000000000000000)
                by (nonlinear_arith)
                requires
                    -2000000000000000 <= dx <= 2000000000000000,
            ;
            assert(0 <= (dy as int) * (dy as int) <= 0x10000000000000000000000000000000)
                by (nonlinear_arith)
                requires
                    -2000000000000000 <= dy <= 2000000000000000,
            ;
        }
        qx + qy
    }

    /// Dot product; exact, no truncation.
    pub fn dot_wide(self, o: Vec2) -> (r: i128)
        requires
            self.within(VAL_LIMIT as int),
            o.within(VAL_LIMIT as int),
        ensures
            r == dot_s(self, o),
    {
        let qx: i128 = mul_wide(self.x, o.x);
        let qy: i128 = mul_wide(self.y, o.y);
        proof {
            assert(-0x10000000000000000000000000000000 <= (self.x as int) * (o.x as int)
                <= 0x10000000000000000000000000000000) by (nonlinear_arith)
                requires
                    -1000000000000000 <= self.x <= 1000000000000000,
                    -1000000000000000 <= o.x <= 1000000000000000,
            ;
            assert(-0x10000000000000000000000000000000 <= (self.y as int) * (o.y as int)
                <= 0x10000000000000000000000000000000) by (nonlinear_arith)
                requires
                    -1000000000000000 <= self.y <= 1000000000000000,
                    -1000000000000000 <= o.y <= 1000000000000000,
            ;
        }
        qx + qy
    }

    /// The fixed-point unit vector with this vector's direction.
    pub fn unit(self) -> (r: Vec2)
        requires
            self.within(VAL_LIMIT as int),
        ensures
            (r.x as int, r.y as int) == unit_s(self),
            r.within(SCALE as int),
    {
        if self.x == 0 && self.y == 0 {
            Vec2 { x: 0, y: SCALE }
        } else {
            let n2: i128 = self.dot_wide(self);
            proof {
                assert(dot_s(self, self) == dist2_s(self, Vec2 { x: 0, y: 0 }));
                assert(0 < dot_s(self, self)
                    <= 2000000000000000000000000000000) by (nonlinear_arith)
                    requires
                        -1000000000000000 <= self.x <= 1000000000000000,
                        -1000000000000000 <= self.y <= 1000000000000000,
                        !(self.x == 0 && self.y == 0),
                ;
            }
            let l128: u64 = isqrt_u128(n2 as u128);
            proof {
                lemma_isqrt_unique(n2 as int, l128 as int);
            }
            proof {
                let lu = l128 as int;
                assert(1 <= lu && lu <= 2000000000000000) by (nonlinear_arith)
                    requires
                        0 <= lu,
                        lu * lu <= n2,
                        (lu + 1) * (lu + 1) > n2,
                        1 <= n2 <= 2000000000000000000000000000000,
                ;
            }
            let l: i64 = l128 as i64;
            proof {
                let li = l as int;
                assert(abs_s(self.x as int) <= li && abs_s(self.y as int) <= li)
                    by (nonlinear_arith)
                    requires
                        0 <= li,
                        (li + 1) * (li + 1) > n2,
                        n2 == (self.x as int) * (self.x as int)
                            + (self.y as int) * (self.y as int),
                ;
                assert(-(li * (SCALE as int)) <= (self.x as int) * (SCALE as int)
                    <= li * (SCALE as int)) by (nonlinear_arith)
                    requires
                        abs_s(self.x as int) <= li,
                        0 <= li,
                ;
                assert(-(li * (SCALE as int)) <= (self.y as int) * (SCALE as int)
                    <= li * (SCALE as int)) by (nonlinear_arith)
                    requires
                        abs_s(self.y as int) <= li,
                        0 <= li,
                ;
                lemma_trunc_div_bound(self.x as int * SCALE as int, li, SCALE as int);
                lemma_trunc_div_bound(self.y as int * SCALE as int, li, SCALE as int);
            }
            let ux128: i128 = div_trunc_i128(mul_wide(self.x, SCALE), l as i128);
            let uy128: i128 = div_trunc_i128(mul_wide(self.y, SCALE), l as i128);
            Vec2 { x: ux128 as i64, y: uy128 as i64 }
        }
    }
}

} // verus!
