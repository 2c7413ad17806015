//! Saturating fixed-point arithmetic for the simulation.
//!
//! Every scalar quantity of the simulation (a coordinate, a velocity
//! component, a mass, a control value) is an `i64` holding a real number
//! scaled by [`FP`] (so `1500` stands for `1.5`).  All operations saturate
//! at [`LIM`], so every step of the simulation is total: no overflow can
//! occur, and a runaway value is pinned to the limit instead.

use vstd::prelude::*;

verus! {

/// Fixed-point scale: one whole unit.
pub const FP: i64 = 1000;

/// Saturation bound for every fixed-point quantity.
pub const LIM: i64 = 1_000_000_000_000;

/// Clamps a mathematical integer into the representable band `[-LIM, LIM]`.
pub open spec fn clip(x: int) -> int {
    if x > LIM as int {
        LIM as int
    } else if x < -(LIM as int) {
        -(LIM as int)
    } else {
        x
    }
}

/// Truncating division (rounds toward zero), for a positive divisor.
pub open spec fn tdiv(a: int, b: int) -> int
    recommends
        b > 0,
{
    if a >= 0 {
        a / b
    } else {
        -((-a) / b)
    }
}

/// Absolute value of a mathematical integer.
pub open spec fn absi(a: int) -> int {
    if a < 0 {
        -a
    } else {
        a
    }
}

/// A fixed-point 2D vector.
#[derive(Clone, Copy, PartialEq, Eq, Structural, Debug)]
pub struct Vec2 {
    pub x: i64,
    pub y: i64,
}

/// A vector is representable when both components lie in the band.
pub open spec fn wf_vec(v: Vec2) -> bool {
    &&& -(LIM as int) <= v.x <= LIM as int
    &&& -(LIM as int) <= v.y <= LIM as int
}

/// An axis-aligned bounding rectangle in fixed-point coordinates.
#[derive(Clone, Copy, PartialEq, Eq, Structural, Debug)]
pub struct Rect {
    pub left: i64,
    pub right: i64,
    pub bottom: i64,
    pub top: i64,
}

/// A rectangle is well formed when its sides are ordered and representable.
pub open spec fn wf_rect(r: Rect) -> bool {
    &&& -(LIM as int) <= r.left <= r.right <= LIM as int
    &&& -(LIM as int) <= r.bottom <= r.top <= LIM as int
}

/// A point lies inside a rectangle, edges included.
pub open spec fn in_rect(p: Vec2, r: Rect) -> bool {
    &&& r.left <= p.x <= r.right
    &&& r.bottom <= p.y <= r.top
}

/// Saturating addition of two in-band values.
pub fn add_clip(a: i64, b: i64) -> (r: i64)
    requires
        -LIM <= a <= LIM,
        -LIM <= b <= LIM,
    ensures
        r == clip(a + b),
{
    let s: i64 = a + b;
    if s > LIM {
        LIM
    } else if s < -LIM {
        -LIM
    } else {
        s
    }
}

/// Saturating subtraction of two in-band values.
pub fn sub_clip(a: i64, b: i64) -> (r: i64)
    requires
        -LIM <= a <= LIM,
        -LIM <= b <= LIM,
    ensures
        r == clip(a - b),
{
    let s: i64 = a - b;
    if s > LIM {
        LIM
    } else if s < -LIM {
        -LIM
    } else {
        s
    }
}

/// Saturating `a * b / d`, rounding toward zero, for a positive divisor.
///
/// This is the one workhorse behind fixed-point products (`d == FP`),
/// quotients and scaled ratios.
pub fn muldiv(a: i64, b: i64, d: i64) -> (r: i64)
    requires
        -LIM <= a <= LIM,
        -LIM <= b <= LIM,
        0 < d <= 4 * LIM,
    ensures
        r == clip(tdiv(a * b, d as int)),
{
    let neg: bool = (a < 0) != (b < 0);
    let ua: u128 = (if a < 0 { -a } else { a }) as u128;
    let ub: u128 = (if b < 0 { -b } else { b }) as u128;
    let ud: u128 = d as u128;
    proof {
        assert(ua * ub <= 1_000_000_000_000_000_000_000_000) by (nonlinear_arith)
            requires
                ua <= 1_000_000_000_000,
                ub <= 1_000_000_000_000,
        ;
    }
    let q: u128 = (ua * ub) / ud;
    proof {
        assert(ua * ub == absi(a * b)) by (nonlinear_arith)
            requires
                ua == absi(a as int),
                ub == absi(b as int),
        ;
        assert((a < 0) != (b < 0) ==> a * b <= 0) by (nonlinear_arith);
        assert(!((a < 0) != (b < 0)) ==> a * b >= 0) by (nonlinear_arith);
    }
    let qc: i64 = if q > (LIM as u128) {
        LIM
    } else {
        q as i64
    };
    if neg {
        -qc
    } else {
        qc
    }
}

/// Fixed-point multiplication: `a * b` where both are scaled by [`FP`].
pub fn fpmul(a: i64, b: i64) -> (r: i64)
    requires
        -LIM <= a <= LIM,
        -LIM <= b <= LIM,
    ensures
        r == clip(tdiv(a * b, FP as int)),
{
    muldiv(a, b, FP)
}

/// Floor of the square root of a mathematical integer, as the unique
/// nonnegative `r` with `r * r <= n < (r + 1) * (r + 1)`.
pub open spec fn sqrt_floor(n: int) -> int
    recommends
        n >= 0,
{
    choose|r: int| 0 <= r && #[trigger] (r * r) <= n < (r + 1) * (r + 1)
}

/// The square-root window has a witness for every nonnegative integer, so
/// [`sqrt_floor`] satisfies it.
pub proof fn lemma_sqrt_floor_props(n: int)
    requires
        n >= 0,
    ensures
        0 <= sqrt_floor(n),
        sqrt_floor(n) * sqrt_floor(n) <= n,
        n < (sqrt_floor(n) + 1) * (sqrt_floor(n) + 1),
    decreases n,
{
    if n == 0 {
        assert(exists|q: int| 0 <= q && #[trigger] (q * q) <= n < (q + 1) * (q + 1)) by {
            assert(0 <= 0int && (0int * 0int) <= n < (0int + 1) * (0int + 1));
        }
    } else {
        lemma_sqrt_floor_props(n - 1);
        let r = sqrt_floor(n - 1);
        if n < (r + 1) * (r + 1) {
            assert(exists|q: int| 0 <= q && #[trigger] (q * q) <= n < (q + 1) * (q + 1)) by {
                assert((r * r) <= n < (r + 1) * (r + 1));
            }
        } else {
            assert(n == (r + 1) * (r + 1));
            assert((r + 1) * (r + 1) < ((r + 1) + 1) * ((r + 1) + 1)) by (nonlinear_arith)
                requires
                    r >= 0,
            ;
            assert(exists|q: int| 0 <= q && #[trigger] (q * q) <= n < (q + 1) * (q + 1)) by {
                assert(((r + 1) * (r + 1)) <= n < ((r + 1) + 1) * ((r + 1) + 1));
            }
        }
    }
}

/// Any two integers that both satisfy the square-root window are equal.
proof fn lemma_sqrt_unique(n: int, r1: int, r2: int)
    requires
        0 <= r1,
        r1 * r1 <= n < (r1 + 1) * (r1 + 1),
        0 <= r2,
        r2 * r2 <= n < (r2 + 1) * (r2 + 1),
    ensures
        r1 == r2,
{
    assert(r1 < r2 ==> (r1 + 1) * (r1 + 1) <= r2 * r2) by (nonlinear_arith)
        requires
            0 <= r1,
            0 <= r2,
    ;
    assert(r2 < r1 ==> (r2 + 1) * (r2 + 1) <= r1 * r1) by (nonlinear_arith)
        requires
            0 <= r1,
            0 <= r2,
    ;
}

/// Integer square root by bisection.
pub fn isqrt(n: u128) -> (r: u64)
    requires
        n <= 4_000_000_000_000_000_000_000_000,
    ensures
        r * r <= n < (r + 1) * (r + 1),
        r == sqrt_floor(n as int),
        r <= 2_000_000_000_000,
{
    let mut lo: u64 = 0;
    let mut hi: u64 = 2_000_000_000_001;
    proof {
        assert((2_000_000_000_001 as int) * (2_000_000_000_001 as int) > n);
    }
    while lo + 1 < hi
        invariant
            lo < hi <= 2_000_000_000_001,
            lo * lo <= n,
            n < hi * hi,
        decreases hi - lo,
    {
        let mid: u64 = lo + (hi - lo) / 2;
        proof {
            assert(mid < hi);
            assert((mid as int) * (mid as int) < (2_000_000_000_002 as int) * (
            2_000_000_000_002 as int)) by (nonlinear_arith)
                requires
                    0 <= mid < 2_000_000_000_002,
            ;
        }
        let sq: u128 = (mid as u128) * (mid as u128);
        if sq <= n {
            lo = mid;
        } else {
            hi = mid;
        }
    }
    proof {
        assert(hi == lo + 1);
        lemma_sqrt_unique(n as int, lo as int, sqrt_floor(n as int));
    }
    lo
}

} // verus!
