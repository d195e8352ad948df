//! Fixed-point scalar arithmetic: scale constant, truncating division and its
//! laws, wide multiplication, linear blending and an integer square root.

use vstd::prelude::*;
use vstd::arithmetic::div_mod::{
    lemma_div_is_ordered, lemma_div_multiples_vanish, lemma_div_nonincreasing,
    lemma_div_pos_is_pos,
};

verus! {

/// Fixed-point units per world unit: a coordinate of one world unit is stored
/// as `SCALE`.
pub const SCALE: i64 = 1_000_000;

/// Division rounding toward zero, as Rust's `/` behaves on machine integers
/// (ghost `/` alone is Euclidean).
pub open spec fn trunc_div(a: int, b: int) -> int {
    if a == 0 {
        0
    } else if a > 0 && b > 0 {
        a / b
    } else if a < 0 && b < 0 {
        (a * -1) / (b * -1)
    } else if a < 0 {
        ((a * -1) / b) * -1
    } else {
        (a / (b * -1)) * -1
    }
}

/// The quotient of a truncating division never exceeds the dividend in
/// magnitude, and takes the sign of `a / b`.
pub proof fn lemma_trunc_div_small(a: int, b: int)
    requires
        b != 0,
    ensures
        -abs_s(a) <= trunc_div(a, b) <= abs_s(a),
        a >= 0 && b > 0 ==> 0 <= trunc_div(a, b),
        a <= 0 && b > 0 ==> trunc_div(a, b) <= 0,
{
    let m = abs_s(a);
    if a == 0 {
    } else if a > 0 && b > 0 {
        lemma_div_pos_is_pos(a, b);
        lemma_div_nonincreasing(a, b);
    } else if a < 0 && b < 0 {
        lemma_div_pos_is_pos(a * -1, b * -1);
        lemma_div_nonincreasing(a * -1, b * -1);
    } else if a < 0 {
        lemma_div_pos_is_pos(a * -1, b);
        lemma_div_nonincreasing(a * -1, b);
    } else {
        lemma_div_pos_is_pos(a, b * -1);
        lemma_div_nonincreasing(a, b * -1);
    }
}

/// Dividing an exact multiple `k * b` by `b > 0` gives back `k`.
pub proof fn lemma_trunc_div_exact(k: int, b: int)
    requires
        b > 0,
    ensures
        trunc_div(k * b, b) == k,
{
    if k == 0 {
        assert(k * b == 0) by (nonlinear_arith)
            requires
                k == 0,
        ;
    } else if k > 0 {
        lemma_div_multiples_vanish(k, b);
        assert(k * b > 0 && k * b == b * k) by (nonlinear_arith)
            requires
                k > 0 && b > 0,
        ;
    } else {
        lemma_div_multiples_vanish(k * -1, b);
        assert(k * b < 0 && (k * b) * -1 == b * (k * -1)) by (nonlinear_arith)
            requires
                k < 0 && b > 0,
        ;
    }
}

/// Truncating division by a positive divisor is monotone on nonnegative
/// dividends.
pub proof fn lemma_trunc_div_ordered(a: int, c: int, b: int)
    requires
        0 <= a <= c,
        b > 0,
    ensures
        trunc_div(a, b) <= trunc_div(c, b),
{
    if a == 0 {
        if c > 0 {
            lemma_div_pos_is_pos(c, b);
        }
    } else {
        lemma_div_is_ordered(a, c, b);
    }
}

/// If `|a| <= m * b` then `|trunc_div(a, b)| <= m`.
pub proof fn lemma_trunc_div_bound(a: int, b: int, m: int)
    requires
        b > 0,
        0 <= m,
        -(m * b) <= a <= m * b,
    ensures
        -m <= trunc_div(a, b) <= m,
{
    lemma_trunc_div_exact(m, b);
    if a >= 0 {
        lemma_trunc_div_ordered(a, m * b, b);
        lemma_trunc_div_small(a, b);
    } else {
        lemma_trunc_div_ordered(a * -1, m * b, b);
        lemma_trunc_div_small(a, b);
        assert(trunc_div(a * -1, b) == trunc_div(a, b) * -1);
    }
}

/// Magnitude, in specifications.
pub open spec fn abs_s(a: int) -> int {
    if a >= 0 {
        a
    } else {
        -a
    }
}

/// Clamping, in specifications.
pub open spec fn clamp_s(v: int, lo: int, hi: int) -> int {
    if v < lo {
        lo
    } else if v > hi {
        hi
    } else {
        v
    }
}

/// Linear interpolation step of the de Boor recurrence, with truncation:
/// `a + (alpha * (b - a)) / SCALE`, `alpha` being a fixed-point weight.
pub open spec fn blend_s(a: int, b: int, alpha: int) -> int {
    a + trunc_div(alpha * (b - a), SCALE as int)
}

/// With a weight in `[0, SCALE]` the blend stays between its endpoints, and
/// the extreme weights reproduce them exactly.
pub proof fn lemma_blend_bounds(a: int, b: int, alpha: int)
    requires
        0 <= alpha <= SCALE,
    ensures
        min_s(a, b) <= blend_s(a, b, alpha) <= max_s(a, b),
        blend_s(a, b, 0) == a,
        blend_s(a, b, SCALE as int) == b,
{
    let s = SCALE as int;
    let d = b - a;
    if d >= 0 {
        assert(0 <= alpha * d <= d * s) by (nonlinear_arith)
            requires
                0 <= alpha <= s,
                0 <= d,
        ;
        lemma_trunc_div_bound(alpha * d, s, d);
    } else {
        assert(d * s <= alpha * d <= 0) by (nonlinear_arith)
            requires
                0 <= alpha <= s,
                d < 0,
        ;
        lemma_trunc_div_bound(alpha * d, s, -d);
    }
    lemma_trunc_div_exact(d, s);
    assert(d * s == s * d) by (nonlinear_arith);
}

/// Minimum, in specifications.
pub open spec fn min_s(a: int, b: int) -> int {
    if a <= b {
        a
    } else {
        b
    }
}

/// Maximum, in specifications.
pub open spec fn max_s(a: int, b: int) -> int {
    if a >= b {
        a
    } else {
        b
    }
}

/// Truncating division on `i128`, proved against `trunc_div`.
pub fn div_trunc_i128(a: i128, b: i128) -> (r: i128)
    requires
        b != 0,
        a != i128::MIN,
    ensures
        r == trunc_div(a as int, b as int),
{
    proof {
        lemma_trunc_div_small(a as int, b as int);
    }
    match a.checked_div(b) {
        Some(q) => q,
        None => {
            proof {
                assert(false);
            }
            0
        },
    }
}

/// Truncating division on `i64` by a positive divisor.
pub fn div_trunc_i64(a: i64, b: i64) -> (r: i64)
    requires
        b > 0,
    ensures
        r == trunc_div(a as int, b as int),
{
    proof {
        lemma_trunc_div_small(a as int, b as int);
    }
    match a.checked_div(b) {
        Some(q) => q,
        None => {
            proof {
                assert(false);
            }
            0
        },
    }
}

/// Widening product of two `i64` values; never overflows `i128`.
pub fn mul_wide(a: i64, b: i64) -> (r: i128)
    ensures
        r == a as int * b as int,
{
    proof {
        assert(i128::MIN <= (a as int) * (b as int) <= i128::MAX) by (nonlinear_arith)
            requires
                i64::MIN <= a <= i64::MAX,
                i64::MIN <= b <= i64::MAX,
        ;
    }
    (a as i128) * (b as i128)
}

/// Product of a bounded `i128` with a small factor; stays within `i128`.
pub fn mul_small(a: i128, b: i128) -> (r: i128)
    requires
        -1000000000000000000000000000000 <= a <= 1000000000000000000000000000000,
        -10000000 <= b <= 10000000,
    ensures
        r == a as int * b as int,
{
    proof {
        assert(i128::MIN <= (a as int) * (b as int) <= i128::MAX) by (nonlinear_arith)
            requires
                -1000000000000000000000000000000 <= a <= 1000000000000000000000000000000,
                -10000000 <= b <= 10000000,
        ;
    }
    a * b
}

/// Clamp an `i128` into an `i64` interval.
pub fn clamp_i128(v: i128, lo: i64, hi: i64) -> (r: i64)
    requires
        lo <= hi,
    ensures
        r == clamp_s(v as int, lo as int, hi as int),
{
    if v < lo as i128 {
        lo
    } else if v > hi as i128 {
        hi
    } else {
        v as i64
    }
}

/// Clamp an `i64` into an interval.
pub fn clamp_i64(v: i64, lo: i64, hi: i64) -> (r: i64)
    requires
        lo <= hi,
    ensures
        r == clamp_s(v as int, lo as int, hi as int),
{
    if v < lo {
        lo
    } else if v > hi {
        hi
    } else {
        v
    }
}

/// Integer square root: the greatest `r` with `r * r <= v`.
pub fn isqrt_u128(v: u128) -> (r: u64)
    requires
        v < 0x40000000000000000000000000000000,
    ensures
        r as int * r as int <= v as int,
        (r as int + 1) * (r as int + 1) > v as int,
{
    let mut lo: u128 = 0;
    let mut hi: u128 = 0x8000000000000000;
    proof {
        assert((0x8000000000000000 as int) * (0x8000000000000000 as int)
            == 0x40000000000000000000000000000000) by (nonlinear_arith);
    }
    while hi - lo > 1
        invariant
            lo < hi <= 0x8000000000000000,
            lo as int * lo as int <= v as int,
            hi as int * hi as int > v as int,
        decreases hi - lo,
    {
        let mid: u128 = lo + (hi - lo) / 2;
        proof {
            assert(mid as int * mid as int <= 0x40000000000000000000000000000000) by (nonlinear_arith)
                requires
                    0 <= mid <= 0x8000000000000000,
            ;
        }
        if mid * mid <= v {
            lo = mid;
        } else {
            hi = mid;
        }
    }
    proof {
        assert(hi == lo + 1);
    }
    lo as u64
}

} // verus!
