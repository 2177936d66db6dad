//! Scalar fixed-point arithmetic.
//!
//! A fixed-point number stores the integer `c` and denotes the real value
//! `c / SCALE`. This module provides the truncating division used by all
//! geometric formulas, the integer square root, and the range limits that
//! the rest of the kernel imposes on coordinates so that every intermediate
//! product provably fits in the machine integers that compute it.

use vstd::prelude::*;

verus! {

use vstd::arithmetic::div_mod::lemma_div_pos_is_pos;
use vstd::arithmetic::div_mod::lemma_div_nonincreasing;
use vstd::arithmetic::div_mod::lemma_div_multiples_vanish;
use vstd::arithmetic::div_mod::lemma_multiply_divide_le;

/// Fixed-point scale: the stored integer `c` denotes the real number `c / SCALE`.
pub const SCALE: i64 = 256;

/// Largest magnitude accepted for a position or sphere-center coordinate.
pub const COORD_MAX: i64 = 0x10_0000;

/// Largest magnitude accepted for a plane edge-vector coordinate.
pub const SPAN_MAX: i64 = 0x4000;

/// Largest ray parameter a reported intersection may carry; a formula that
/// produces a larger `t` is treated as a numeric anomaly (no intersection).
pub const T_MAX: i64 = 0x1000_0000;

/// Largest magnitude of a hit-point coordinate: a point at parameter at most
/// `T_MAX` along a unit direction from a coordinate at most `COORD_MAX`.
pub const HIT_MAX: i64 = T_MAX + COORD_MAX;

/// Largest light intensity, in fixed-point units.
pub const INTENSITY_MAX: i64 = 0x10_0000;

/// Largest accepted image width or height, in pixels.
pub const RES_MAX: u32 = 16384;

/// Largest accepted field-of-view scale (the tangent of half the field of
/// view), in fixed-point units.
pub const FOV_MAX: i64 = 4096;

/// Absolute value of a mathematical integer.
pub open spec fn iabs(a: int) -> int {
    if a < 0 {
        -a
    } else {
        a
    }
}

/// Division truncating toward zero, as the machine division instruction
/// computes it; `/` on `int` is Euclidean division, which differs on
/// negative operands.
pub open spec fn tdiv(a: int, b: int) -> int
    recommends
        b != 0,
{
    if a == 0 {
        0
    } else if a > 0 && b > 0 {
        a / b
    } else if a < 0 && b < 0 {
        (a * -1) / (b * -1)
    } else if a < 0 {
        ((a * -1) / b) * -1
    } else {
        (a / (b * -1)) * -1
    }
}

/// A product of values bounded in magnitude is bounded by the product of the
/// bounds.
pub proof fn lemma_mul_bound(a: int, b: int, ca: int, cb: int)
    by (nonlinear_arith)
    requires
        -ca <= a <= ca,
        -cb <= b <= cb,
    ensures
        -(ca * cb) <= a * b <= ca * cb,
{
}

/// Truncating division never grows the magnitude of the dividend, and takes
/// the sign of the exact quotient.
pub proof fn lemma_tdiv_bounds(a: int, b: int)
    requires
        b != 0,
    ensures
        iabs(tdiv(a, b)) <= iabs(a),
        a >= 0 && b > 0 ==> 0 <= tdiv(a, b),
        a <= 0 && b > 0 ==> tdiv(a, b) <= 0,
{
    if a == 0 {
    } else if a > 0 && b > 0 {
        lemma_div_pos_is_pos(a, b);
        lemma_div_nonincreasing(a, b);
    } else if a < 0 && b < 0 {
        lemma_div_pos_is_pos(a * -1, b * -1);
        lemma_div_nonincreasing(a * -1, b * -1);
    } else if a < 0 {
        lemma_div_pos_is_pos(a * -1, b);
        lemma_div_nonincreasing(a * -1, b);
    } else {
        lemma_div_pos_is_pos(a, b * -1);
        lemma_div_nonincreasing(a, b * -1);
    }
}

/// If the dividend is at most `k` times the (positive) divisor in magnitude,
/// the truncated quotient is at most `k` in magnitude.
pub proof fn lemma_tdiv_quotient_bound(a: int, b: int, k: int)
    requires
        b > 0,
        0 <= k,
        iabs(a) <= k * b,
    ensures
        -k <= tdiv(a, b) <= k,
{
    vstd::arithmetic::mul::lemma_mul_is_commutative(k, b);
    if a == 0 {
    } else if a > 0 {
        lemma_div_pos_is_pos(a, b);
        lemma_multiply_divide_le(a, b, k);
    } else {
        lemma_div_pos_is_pos(a * -1, b);
        lemma_multiply_divide_le(a * -1, b, k);
    }
}

/// Dividing an exact multiple recovers the factor.
pub proof fn lemma_tdiv_exact(x: int, d: int)
    requires
        d > 0,
    ensures
        tdiv(x * d, d) == x,
{
    if x == 0 {
        assert(0 * d == 0) by (nonlinear_arith);
    } else if x > 0 {
        assert(x * d > 0 && x * d == d * x) by (nonlinear_arith)
            requires
                x > 0,
                d > 0,
        ;
        lemma_div_multiples_vanish(x, d);
    } else {
        assert(x * d < 0 && (x * d) * -1 == d * (x * -1)) by (nonlinear_arith)
            requires
                x < 0,
                d > 0,
        ;
        lemma_div_multiples_vanish(x * -1, d);
    }
}

/// Truncating division of `i64` values, proved against [`tdiv`].
pub fn div_i64(a: i64, b: i64) -> (q: i64)
    requires
        b != 0,
        a != i64::MIN,
    ensures
        q == tdiv(a as int, b as int),
{
    proof {
        lemma_tdiv_bounds(a as int, b as int);
    }
    let q = a.checked_div(b);
    q.unwrap()
}

/// Truncating division of `i32` values, proved against [`tdiv`].
pub fn div_i32(a: i32, b: i32) -> (q: i32)
    requires
        b != 0,
        a != i32::MIN,
    ensures
        q == tdiv(a as int, b as int),
{
    proof {
        lemma_tdiv_bounds(a as int, b as int);
    }
    let q = a.checked_div(b);
    q.unwrap()
}

/// Truncating division of `i128` values, proved against [`tdiv`].
pub fn div_i128(a: i128, b: i128) -> (q: i128)
    requires
        b != 0,
        a != i128::MIN,
    ensures
        q == tdiv(a as int, b as int),
{
    proof {
        lemma_tdiv_bounds(a as int, b as int);
    }
    let q = a.checked_div(b);
    q.unwrap()
}

/// The integer square root: the largest integer whose square does not
/// exceed `n`.
pub open spec fn isqrt_spec(n: nat) -> nat
    decreases n,
{
    if n == 0 {
        0
    } else {
        let r = isqrt_spec((n - 1) as nat);
        if (r + 1) * (r + 1) <= n {
            r + 1
        } else {
            r
        }
    }
}

/// The integer square root is characterized by its two square bounds.
pub proof fn lemma_isqrt_spec_bounds(n: nat)
    ensures
        isqrt_spec(n) * isqrt_spec(n) <= n,
        n < (isqrt_spec(n) + 1) * (isqrt_spec(n) + 1),
    decreases n,
{
    if n == 0 {
        assert(isqrt_spec(0) == 0);
        assert((isqrt_spec(n) + 1) * (isqrt_spec(n) + 1) == 1) by (nonlinear_arith)
            requires
                isqrt_spec(n) == 0,
        ;
    } else {
        lemma_isqrt_spec_bounds((n - 1) as nat);
        let r = isqrt_spec((n - 1) as nat);
        assert(r * r <= n - 1);
        assert(n - 1 < (r + 1) * (r + 1));
        if (r + 1) * (r + 1) <= n {
            assert(isqrt_spec(n) == r + 1);
            assert(n < ((r + 1) + 1) * ((r + 1) + 1)) by (nonlinear_arith)
                requires
                    n <= (r + 1) * (r + 1),
                    r >= 0,
            ;
            assert(isqrt_spec(n) * isqrt_spec(n) <= n);
            assert(n < (isqrt_spec(n) + 1) * (isqrt_spec(n) + 1));
        } else {
            assert(isqrt_spec(n) == r);
            assert(isqrt_spec(n) * isqrt_spec(n) <= n);
            assert(n < (isqrt_spec(n) + 1) * (isqrt_spec(n) + 1));
        }
    }
}

/// Any value satisfying the two square bounds is the integer square root.
pub proof fn lemma_isqrt_unique(n: nat, r: nat)
    requires
        r * r <= n,
        n < (r + 1) * (r + 1),
    ensures
        isqrt_spec(n) == r,
{
    lemma_isqrt_spec_bounds(n);
    let s = isqrt_spec(n);
    if s < r {
        assert((s + 1) * (s + 1) <= r * r) by (nonlinear_arith)
            requires
                s + 1 <= r,
                s >= 0,
        ;
    }
    if r < s {
        assert((r + 1) * (r + 1) <= s * s) by (nonlinear_arith)
            requires
                r + 1 <= s,
                r >= 0,
        ;
    }
}

/// Integer square root by bisection.
pub fn isqrt(n: u64) -> (r: u64)
    requires
        n < 0x4000_0000_0000_0000,
    ensures
        r == isqrt_spec(n as nat),
        r * r <= n < (r + 1) * (r + 1),
{
    let mut lo: u64 = 0;
    let mut hi: u64 = 0x8000_0000;
    proof {
        assert((0x8000_0000 as int) * (0x8000_0000 as int) == 0x4000_0000_0000_0000int);
    }
    while lo + 1 < hi
        invariant
            lo < hi <= 0x8000_0000,
            (lo as int) * (lo as int) <= n as int,
            (n as int) < (hi as int) * (hi as int),
        decreases hi - lo,
    {
        let mid: u64 = lo + (hi - lo) / 2;
        proof {
            lemma_mul_bound(mid as int, mid as int, 0x8000_0000, 0x8000_0000);
        }
        if mid * mid <= n {
            lo = mid;
        } else {
            hi = mid;
        }
    }
    proof {
        lemma_isqrt_unique(n as nat, lo as nat);
    }
    lo
}

} // verus!
