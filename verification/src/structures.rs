//! A minimalist three-component integer math vector.
//!
//! [`IVec3`] is the kernel's only vector type. Its components are plain
//! `i32` values; the ray-tracing modules interpret them as fixed-point
//! numbers scaled by [`crate::fixed::SCALE`]. Every operation states its
//! exact result over the mathematical counterpart [`Vec3i`], and the
//! preconditions are exactly what the machine integer range forces.

use vstd::prelude::*;

verus! {

use crate::fixed::SCALE;
use crate::fixed::div_i32;
use crate::fixed::iabs;
use crate::fixed::isqrt;
use crate::fixed::isqrt_spec;
use crate::fixed::lemma_isqrt_unique;
use crate::fixed::lemma_mul_bound;
use crate::fixed::lemma_tdiv_exact;
use crate::fixed::lemma_tdiv_quotient_bound;
use vstd::arithmetic::div_mod::lemma_div_non_zero;
use vstd::arithmetic::div_mod::lemma_div_multiples_vanish;
use crate::fixed::tdiv;
use crate::error::ConfigurationError;

/// The mathematical (unbounded) counterpart of [`IVec3`], used in
/// specifications.
pub ghost struct Vec3i {
    pub x: int,
    pub y: int,
    pub z: int,
}

/// The zero vector.
pub open spec fn vzero() -> Vec3i {
    Vec3i { x: 0, y: 0, z: 0 }
}

/// Every component is at most `c` in magnitude.
pub open spec fn bounded(v: Vec3i, c: int) -> bool {
    iabs(v.x) <= c && iabs(v.y) <= c && iabs(v.z) <= c
}

/// Component-wise sum.
pub open spec fn vadd(a: Vec3i, b: Vec3i) -> Vec3i {
    Vec3i { x: a.x + b.x, y: a.y + b.y, z: a.z + b.z }
}

/// Component-wise difference.
pub open spec fn vsub(a: Vec3i, b: Vec3i) -> Vec3i {
    Vec3i { x: a.x - b.x, y: a.y - b.y, z: a.z - b.z }
}

/// Component-wise product.
pub open spec fn vmul(a: Vec3i, b: Vec3i) -> Vec3i {
    Vec3i { x: a.x * b.x, y: a.y * b.y, z: a.z * b.z }
}

/// Every component scaled by `s`.
pub open spec fn vscale(a: Vec3i, s: int) -> Vec3i {
    Vec3i { x: a.x * s, y: a.y * s, z: a.z * s }
}

/// Component-wise truncating quotient.
pub open spec fn vdiv(a: Vec3i, b: Vec3i) -> Vec3i {
    Vec3i { x: tdiv(a.x, b.x), y: tdiv(a.y, b.y), z: tdiv(a.z, b.z) }
}

/// Every component divided (truncating) by `s`.
pub open spec fn vdiv_scale(a: Vec3i, s: int) -> Vec3i {
    Vec3i { x: tdiv(a.x, s), y: tdiv(a.y, s), z: tdiv(a.z, s) }
}

/// Component-wise negation.
pub open spec fn vneg(a: Vec3i) -> Vec3i {
    Vec3i { x: -a.x, y: -a.y, z: -a.z }
}

/// Component-wise absolute value.
pub open spec fn vabs(a: Vec3i) -> Vec3i {
    Vec3i { x: iabs(a.x), y: iabs(a.y), z: iabs(a.z) }
}

/// The dot product.
pub open spec fn dot_spec(a: Vec3i, b: Vec3i) -> int {
    a.x * b.x + a.y * b.y + a.z * b.z
}

/// The cross product, right-handed.
pub open spec fn cross_spec(a: Vec3i, b: Vec3i) -> Vec3i {
    Vec3i {
        x: a.y * b.z - b.y * a.z,
        y: a.z * b.x - b.z * a.x,
        z: a.x * b.y - b.x * a.y,
    }
}

/// The Euclidean length, rounded down to an integer.
pub open spec fn norm_spec(v: Vec3i) -> int
    recommends
        dot_spec(v, v) >= 0,
{
    isqrt_spec(dot_spec(v, v) as nat) as int
}

/// The integer square root of one component; a non-positive component maps
/// to zero.
pub open spec fn isqrt_elem(c: int) -> int {
    if c <= 0 {
        0
    } else {
        isqrt_spec(c as nat) as int
    }
}

/// `v` rescaled so that its length is one in fixed-point units: each
/// component becomes `c * SCALE / norm(v)`, truncated.
pub open spec fn normalize_spec(v: Vec3i) -> Vec3i {
    let l = norm_spec(v);
    Vec3i {
        x: tdiv(v.x * SCALE as int, l),
        y: tdiv(v.y * SCALE as int, l),
        z: tdiv(v.z * SCALE as int, l),
    }
}

/// A dot product of a vector with itself is a sum of squares, hence
/// non-negative.
pub proof fn lemma_dot_self_nonneg(v: Vec3i)
    by (nonlinear_arith)
    ensures
        dot_spec(v, v) >= 0,
{
}

/// A dot product of bounded vectors is bounded by three times the product
/// of the bounds.
pub proof fn lemma_dot_bound(a: Vec3i, b: Vec3i, ca: int, cb: int)
    requires
        bounded(a, ca),
        bounded(b, cb),
        0 <= ca,
        0 <= cb,
    ensures
        iabs(dot_spec(a, b)) <= 3 * ca * cb,
{
    lemma_mul_bound(a.x, b.x, ca, cb);
    lemma_mul_bound(a.y, b.y, ca, cb);
    lemma_mul_bound(a.z, b.z, ca, cb);
    assert(3 * ca * cb == 3 * (ca * cb)) by (nonlinear_arith);
}

/// A cross product of bounded vectors is bounded by twice the product of
/// the bounds.
pub proof fn lemma_cross_bound(a: Vec3i, b: Vec3i, ca: int, cb: int)
    requires
        bounded(a, ca),
        bounded(b, cb),
        0 <= ca,
        0 <= cb,
    ensures
        bounded(cross_spec(a, b), 2 * ca * cb),
        iabs(a.y * b.z) <= ca * cb,
        iabs(a.z * b.x) <= ca * cb,
        iabs(a.x * b.y) <= ca * cb,
        iabs(b.y * a.z) <= ca * cb,
        iabs(b.z * a.x) <= ca * cb,
        iabs(b.x * a.y) <= ca * cb,
{
    lemma_mul_bound(a.y, b.z, ca, cb);
    lemma_mul_bound(a.z, b.x, ca, cb);
    lemma_mul_bound(a.x, b.y, ca, cb);
    assert(b.y * a.z == a.z * b.y && b.z * a.x == a.x * b.z && b.x * a.y == a.y * b.x)
        by (nonlinear_arith);
    lemma_mul_bound(a.z, b.y, ca, cb);
    lemma_mul_bound(a.x, b.z, ca, cb);
    lemma_mul_bound(a.y, b.x, ca, cb);
    assert(2 * ca * cb == 2 * (ca * cb)) by (nonlinear_arith);
}

/// The dot product is commutative.
pub proof fn lemma_dot_commutative(a: Vec3i, b: Vec3i)
    by (nonlinear_arith)
    ensures
        dot_spec(a, b) == dot_spec(b, a),
{
}

/// The cross product is anti-commutative: swapping the operands negates
/// the result.
pub proof fn lemma_cross_antisymmetric(a: Vec3i, b: Vec3i)
    by (nonlinear_arith)
    ensures
        cross_spec(a, b) == vneg(cross_spec(b, a)),
{
}

/// The integer square root does not decrease when its argument grows.
pub proof fn lemma_isqrt_monotonic(m: nat, n: nat)
    requires
        m <= n,
    ensures
        isqrt_spec(m) <= isqrt_spec(n),
    decreases n - m,
{
    if m < n {
        lemma_isqrt_monotonic(m, (n - 1) as nat);
    }
}

/// The length of a vector is at least the magnitude of each component.
pub proof fn lemma_norm_ge_components(v: Vec3i)
    ensures
        iabs(v.x) <= norm_spec(v),
        iabs(v.y) <= norm_spec(v),
        iabs(v.z) <= norm_spec(v),
        norm_spec(v) >= 0,
{
    lemma_dot_self_nonneg(v);
    let d = dot_spec(v, v) as nat;
    assert(v.x * v.x <= d && v.y * v.y <= d && v.z * v.z <= d) by (nonlinear_arith)
        requires
            d == dot_spec(v, v),
    ;
    lemma_component_le_norm(v.x, d);
    lemma_component_le_norm(v.y, d);
    lemma_component_le_norm(v.z, d);
}

/// Helper: a component whose square is at most `d` has magnitude at most
/// the integer square root of `d`.
proof fn lemma_component_le_norm(c: int, d: nat)
    requires
        c * c <= d,
    ensures
        iabs(c) <= isqrt_spec(d),
{
    let a = iabs(c);
    assert(a * a == c * c && a * a < (a + 1) * (a + 1)) by (nonlinear_arith)
        requires
            a >= 0 && (a == c || a == -c),
    ;
    lemma_isqrt_unique((a * a) as nat, a as nat);
    lemma_isqrt_monotonic((a * a) as nat, d);
}

/// Normalizing a bounded non-zero vector yields components of magnitude at
/// most `SCALE`.
pub proof fn lemma_normalize_bounded(v: Vec3i)
    requires
        v != vzero(),
    ensures
        bounded(normalize_spec(v), SCALE as int),
        norm_spec(v) > 0,
{
    lemma_dot_self_nonneg(v);
    lemma_norm_ge_components(v);
    let l = norm_spec(v);
    assert(iabs(v.x) >= 1 || iabs(v.y) >= 1 || iabs(v.z) >= 1);
    assert(l >= 1);
    lemma_normalize_component(v.x, l);
    lemma_normalize_component(v.y, l);
    lemma_normalize_component(v.z, l);
}

/// Helper: one normalized component is at most `SCALE` in magnitude.
proof fn lemma_normalize_component(c: int, l: int)
    requires
        l > 0,
        iabs(c) <= l,
    ensures
        iabs(tdiv(c * SCALE as int, l)) <= SCALE as int,
{
    assert(iabs(c * SCALE as int) <= SCALE as int * l) by (nonlinear_arith)
        requires
            iabs(c) <= l,
            l > 0,
    ;
    lemma_tdiv_quotient_bound(c * SCALE as int, l, SCALE as int);
}

/// Normalizing fixes a vector whose length is already exactly one in
/// fixed-point units.
pub proof fn lemma_normalize_unit_identity(v: Vec3i)
    requires
        dot_spec(v, v) == SCALE as int * SCALE as int,
    ensures
        normalize_spec(v) == v,
{
    assert(SCALE as int * SCALE as int == 0x1_0000int);
    assert((SCALE as nat) * (SCALE as nat) == 0x1_0000nat && (SCALE as nat + 1) * (SCALE as nat
        + 1) == 0x1_0201nat) by (nonlinear_arith)
        requires
            SCALE as int == 256,
    ;
    lemma_isqrt_unique(0x1_0000nat, SCALE as nat);
    assert(norm_spec(v) == SCALE as int);
    lemma_tdiv_exact(v.x, SCALE as int);
    lemma_tdiv_exact(v.y, SCALE as int);
    lemma_tdiv_exact(v.z, SCALE as int);
    assert(normalize_spec(v) == v);
}

/// Normalizing a non-zero vector never yields the zero vector: the largest
/// component keeps magnitude at least one.
pub proof fn lemma_normalize_nonzero(v: Vec3i)
    requires
        v != vzero(),
    ensures
        normalize_spec(v) != vzero(),
{
    lemma_dot_self_nonneg(v);
    lemma_norm_ge_components(v);
    let m = if iabs(v.x) >= iabs(v.y) && iabs(v.x) >= iabs(v.z) {
        iabs(v.x)
    } else if iabs(v.y) >= iabs(v.z) {
        iabs(v.y)
    } else {
        iabs(v.z)
    };
    assert(m >= 1);
    assert(dot_spec(v, v) <= 4 * (m * m) && 4 * (m * m) == (2 * m) * (2 * m) && (2 * m) * (2 * m)
        < (2 * m + 1) * (2 * m + 1)) by (nonlinear_arith)
        requires
            m >= 1,
            iabs(v.x) <= m,
            iabs(v.y) <= m,
            iabs(v.z) <= m,
    ;
    lemma_isqrt_monotonic(dot_spec(v, v) as nat, (4 * (m * m)) as nat);
    lemma_isqrt_unique((4 * (m * m)) as nat, (2 * m) as nat);
    let l = norm_spec(v);
    assert(1 <= l <= 2 * m);
    lemma_normalize_max_component(v.x, l, m);
    lemma_normalize_max_component(v.y, l, m);
    lemma_normalize_max_component(v.z, l, m);
}

/// Helper: the normalized value of a component of the largest magnitude is
/// itself non-zero.
proof fn lemma_normalize_max_component(c: int, l: int, m: int)
    requires
        1 <= l <= 2 * m,
        1 <= m,
    ensures
        iabs(c) == m ==> tdiv(c * SCALE as int, l) != 0,
{
    if iabs(c) == m {
        assert(m * SCALE as int >= 2 * m) by (nonlinear_arith)
            requires
                m >= 1,
        ;
        if c > 0 {
            assert(c * SCALE as int == m * SCALE as int);
            lemma_div_non_zero(c * SCALE as int, l);
        } else {
            assert((c * SCALE as int) * -1 == m * SCALE as int) by (nonlinear_arith)
                requires
                    c < 0,
                    m == -c,
            ;
            lemma_div_non_zero(m * SCALE as int, l);
        }
    }
}

/// Helper: dividing a value that `l` divides exactly recovers it on
/// multiplying back.
proof fn lemma_tdiv_mul_exact(a: int, l: int)
    requires
        l > 0,
        a % l == 0,
    ensures
        tdiv(a, l) * l == a,
{
    vstd::arithmetic::div_mod::lemma_fundamental_div_mod(a, l);
    if a == 0 {
        assert(0int * l == 0) by (nonlinear_arith);
    } else if a > 0 {
        assert(a == l * (a / l) ==> (a / l) * l == a) by (nonlinear_arith);
    } else {
        let q = a / l;
        assert(a == l * q);
        assert(a * -1 == l * (q * -1)) by (nonlinear_arith)
            requires
                a == l * q,
        ;
        lemma_div_multiples_vanish(q * -1, l);
        assert(tdiv(a, l) == q);
        assert(q * l == a) by (nonlinear_arith)
            requires
                a == l * q,
        ;
    }
}

/// Normalization is exactly unit-length whenever its arithmetic is exact:
/// if the squared length of `v` is a perfect square `l * l` and `l` divides
/// each component scaled by `SCALE`, then the normalized vector's squared
/// length is exactly one in fixed-point units. (For other vectors the
/// truncated divisions leave the length within a small tolerance of one.)
pub proof fn lemma_normalize_exact_unit(v: Vec3i, l: int)
    requires
        l > 0,
        dot_spec(v, v) == l * l,
        (v.x * SCALE as int) % l == 0,
        (v.y * SCALE as int) % l == 0,
        (v.z * SCALE as int) % l == 0,
    ensures
        dot_spec(normalize_spec(v), normalize_spec(v)) == SCALE as int * SCALE as int,
{
    assert(l * l < (l + 1) * (l + 1)) by (nonlinear_arith)
        requires
            l >= 0,
    ;
    lemma_isqrt_unique((l * l) as nat, l as nat);
    assert(norm_spec(v) == l);
    lemma_tdiv_mul_exact(v.x * SCALE as int, l);
    lemma_tdiv_mul_exact(v.y * SCALE as int, l);
    lemma_tdiv_mul_exact(v.z * SCALE as int, l);
    let q = normalize_spec(v);
    assert((q.x * l) * (q.x * l) == (q.x * q.x) * (l * l)) by (nonlinear_arith);
    assert((q.y * l) * (q.y * l) == (q.y * q.y) * (l * l)) by (nonlinear_arith);
    assert((q.z * l) * (q.z * l) == (q.z * q.z) * (l * l)) by (nonlinear_arith);
    assert((v.x * SCALE as int) * (v.x * SCALE as int) == (v.x * v.x) * (SCALE as int
        * SCALE as int)) by (nonlinear_arith);
    assert((v.y * SCALE as int) * (v.y * SCALE as int) == (v.y * v.y) * (SCALE as int
        * SCALE as int)) by (nonlinear_arith);
    assert((v.z * SCALE as int) * (v.z * SCALE as int) == (v.z * v.z) * (SCALE as int
        * SCALE as int)) by (nonlinear_arith);
    assert((q.x * q.x + q.y * q.y + q.z * q.z) * (l * l) == (q.x * q.x) * (l * l) + (q.y * q.y) * (
    l * l) + (q.z * q.z) * (l * l)) by (nonlinear_arith);
    assert((v.x * v.x + v.y * v.y + v.z * v.z) * (SCALE as int * SCALE as int) == (v.x * v.x) * (
    SCALE as int * SCALE as int) + (v.y * v.y) * (SCALE as int * SCALE as int) + (v.z * v.z) * (
    SCALE as int * SCALE as int)) by (nonlinear_arith);
    assert((l * l) * (SCALE as int * SCALE as int) == (SCALE as int * SCALE as int) * (l * l))
        by (nonlinear_arith);
    assert(dot_spec(q, q) * (l * l) == (SCALE as int * SCALE as int) * (l * l));
    assert(dot_spec(q, q) == SCALE as int * SCALE as int) by (nonlinear_arith)
        requires
            dot_spec(q, q) * (l * l) == (SCALE as int * SCALE as int) * (l * l),
            l > 0,
    ;
}

/// A three-component integer math vector.
#[derive(Clone, Copy, Debug, PartialEq, Eq, Structural)]
pub struct IVec3 {
    pub x: i32,
    pub y: i32,
    pub z: i32,
}

impl View for IVec3 {
    type V = Vec3i;

    open spec fn view(&self) -> Vec3i {
        Vec3i { x: self.x as int, y: self.y as int, z: self.z as int }
    }
}

impl IVec3 {
    /// Builds a vector from its three components.
    pub fn new(x: i32, y: i32, z: i32) -> (r: Self)
        ensures
            r@ == (Vec3i { x: x as int, y: y as int, z: z as int }),
    {
        Self { x, y, z }
    }

    /// Returns the components as an array.
    pub fn to_array(&self) -> (r: [i32; 3])
        ensures
            r@ == seq![self.x, self.y, self.z],
    {
        let r = [self.x, self.y, self.z];
        proof {
            assert(r@ =~= seq![self.x, self.y, self.z]);
        }
        r
    }

    /// Builds a vector from an array of three components.
    pub fn from_array(array: [i32; 3]) -> (r: Self)
        ensures
            r.x == array@[0] && r.y == array@[1] && r.z == array@[2],
    {
        IVec3 { x: array[0], y: array[1], z: array[2] }
    }

    /// Returns a new vector where each element is equal to the passed value.
    pub fn splat(value: i32) -> (r: Self)
        ensures
            r.x == value && r.y == value && r.z == value,
    {
        IVec3 { x: value, y: value, z: value }
    }

    /// Builds a vector from the first three elements of a slice.
    pub fn from_slice(slice: &[i32]) -> (r: Self)
        requires
            slice@.len() >= 3,
        ensures
            r.x == slice@[0] && r.y == slice@[1] && r.z == slice@[2],
    {
        IVec3 { x: slice[0], y: slice[1], z: slice[2] }
    }

    /// True when every component of self is at most `c` in magnitude.
    pub fn in_range(&self, c: i64) -> (b: bool)
        requires
            0 <= c,
        ensures
            b == bounded(self@, c as int),
    {
        let x = self.x as i64;
        let y = self.y as i64;
        let z = self.z as i64;
        -c <= x && x <= c && -c <= y && y <= c && -c <= z && z <= c
    }

    /// Returns an int containing the dot product of self and the passed
    /// vector.
    pub fn dot(&self, rhs: &Self) -> (r: i32)
        requires
            i32::MIN <= self@.x * rhs@.x <= i32::MAX,
            i32::MIN <= self@.y * rhs@.y <= i32::MAX,
            i32::MIN <= self@.z * rhs@.z <= i32::MAX,
            i32::MIN <= self@.x * rhs@.x + self@.y * rhs@.y <= i32::MAX,
            i32::MIN <= dot_spec(self@, rhs@) <= i32::MAX,
        ensures
            r == dot_spec(self@, rhs@),
    {
        (self.x * rhs.x) + (self.y * rhs.y) + (self.z * rhs.z)
    }

    /// Returns the dot product of self and the passed vector, computed
    /// without overflow in a wide integer.
    pub fn dot_wide(&self, rhs: &Self) -> (r: i64)
        requires
            bounded(self@, 0x4000_0000),
            bounded(rhs@, 0x4000_0000),
        ensures
            r == dot_spec(self@, rhs@),
    {
        proof {
            lemma_mul_bound(self@.x, rhs@.x, 0x4000_0000, 0x4000_0000);
            lemma_mul_bound(self@.y, rhs@.y, 0x4000_0000, 0x4000_0000);
            lemma_mul_bound(self@.z, rhs@.z, 0x4000_0000, 0x4000_0000);
        }
        (self.x as i64) * (rhs.x as i64) + (self.y as i64) * (rhs.y as i64) + (self.z as i64)
            * (rhs.z as i64)
    }

    /// Returns a new vector that is the cross product of self and the
    /// passed vector.
    pub fn cross(&self, rhs: Self) -> (r: Self)
        requires
            iabs(self@.y * rhs@.z) <= 0x2000_0000,
            iabs(self@.z * rhs@.x) <= 0x2000_0000,
            iabs(self@.x * rhs@.y) <= 0x2000_0000,
            iabs(rhs@.y * self@.z) <= 0x2000_0000,
            iabs(rhs@.z * self@.x) <= 0x2000_0000,
            iabs(rhs@.x * self@.y) <= 0x2000_0000,
        ensures
            r@ == cross_spec(self@, rhs@),
    {
        proof {
            lemma_mul_bound(self@.y, rhs@.z, 0x8000_0000, 0x8000_0000);
        }
        Self {
            x: ((self.y as i64) * (rhs.z as i64) - (rhs.y as i64) * (self.z as i64)) as i32,
            y: ((self.z as i64) * (rhs.x as i64) - (rhs.z as i64) * (self.x as i64)) as i32,
            z: ((self.x as i64) * (rhs.y as i64) - (rhs.x as i64) * (self.y as i64)) as i32,
        }
    }

    /// Returns a new vector containing the absolute value of self.
    pub fn abs(&self) -> (r: Self)
        requires
            self@.x != i32::MIN as int,
            self@.y != i32::MIN as int,
            self@.z != i32::MIN as int,
        ensures
            r@ == vabs(self@),
    {
        Self {
            x: if self.x < 0 { -self.x } else { self.x },
            y: if self.y < 0 { -self.y } else { self.y },
            z: if self.z < 0 { -self.z } else { self.z },
        }
    }

    /// The squared Euclidean length.
    pub fn length_squared(&self) -> (r: i32)
        requires
            i32::MIN <= self@.x * self@.x <= i32::MAX,
            i32::MIN <= self@.y * self@.y <= i32::MAX,
            i32::MIN <= self@.z * self@.z <= i32::MAX,
            i32::MIN <= self@.x * self@.x + self@.y * self@.y <= i32::MAX,
            i32::MIN <= dot_spec(self@, self@) <= i32::MAX,
        ensures
            r == dot_spec(self@, self@),
    {
        self.dot(self)
    }

    /// The squared Euclidean distance between self and the passed vector.
    pub fn distance_squared(&self, rhs: &Self) -> (r: i32)
        requires
            i32::MIN <= self@.x - rhs@.x <= i32::MAX,
            i32::MIN <= self@.y - rhs@.y <= i32::MAX,
            i32::MIN <= self@.z - rhs@.z <= i32::MAX,
            ({
                let d = vsub(self@, rhs@);
                i32::MIN <= d.x * d.x <= i32::MAX && i32::MIN <= d.y * d.y <= i32::MAX
                    && i32::MIN <= d.z * d.z <= i32::MAX && i32::MIN <= d.x * d.x + d.y * d.y
                    <= i32::MAX && i32::MIN <= dot_spec(d, d) <= i32::MAX
            }),
        ensures
            r == dot_spec(vsub(self@, rhs@), vsub(self@, rhs@)),
    {
        self.sub(*rhs).length_squared()
    }

    /// The Euclidean length, rounded down to an integer.
    pub fn length(&self) -> (r: i32)
        requires
            bounded(self@, 0x4000_0000),
        ensures
            r == norm_spec(self@),
    {
        proof {
            lemma_dot_self_nonneg(self@);
            lemma_dot_bound(self@, self@, 0x4000_0000, 0x4000_0000);
        }
        let d = self.dot_wide(self);
        let r = isqrt(d as u64);
        proof {
            assert(r < 0x8000_0000u64) by (nonlinear_arith)
                requires
                    (r as int) * (r as int) <= 0x3000_0000_0000_0000int,
            ;
        }
        r as i32
    }

    /// Returns a new vector containing the integer square root of each
    /// component of self; a non-positive component maps to zero.
    pub fn sqrt(&self) -> (r: Self)
        ensures
            r@.x == isqrt_elem(self@.x),
            r@.y == isqrt_elem(self@.y),
            r@.z == isqrt_elem(self@.z),
    {
        Self { x: sqrt_component(self.x), y: sqrt_component(self.y), z: sqrt_component(self.z) }
    }

    /// Rescales self to unit length in fixed-point units; fails on the zero
    /// vector, which has no direction.
    pub fn normalize(&self) -> (r: Result<IVec3, ConfigurationError>)
        requires
            bounded(self@, 0x4000_0000),
        ensures
            r is Err <==> self@ == vzero(),
            r is Err ==> r == Err::<IVec3, ConfigurationError>(ConfigurationError::DegenerateVector),
            r is Ok ==> (r->Ok_0)@ == normalize_spec(self@) && bounded((r->Ok_0)@, SCALE as int),
    {
        if self.x == 0 && self.y == 0 && self.z == 0 {
            return Err(ConfigurationError::DegenerateVector);
        }
        proof {
            assert(self@ != vzero());
            lemma_normalize_bounded(self@);
            lemma_norm_ge_components(self@);
        }
        let l = big_length(self);
        let nx = scale_component(self.x, l);
        let ny = scale_component(self.y, l);
        let nz = scale_component(self.z, l);
        Ok(IVec3 { x: nx, y: ny, z: nz })
    }

    /// Component-wise sum.
    pub fn add(self, rhs: Self) -> (r: Self)
        requires
            i32::MIN <= self@.x + rhs@.x <= i32::MAX,
            i32::MIN <= self@.y + rhs@.y <= i32::MAX,
            i32::MIN <= self@.z + rhs@.z <= i32::MAX,
        ensures
            r@ == vadd(self@, rhs@),
    {
        Self { x: self.x + rhs.x, y: self.y + rhs.y, z: self.z + rhs.z }
    }

    /// Adds the scalar to every component.
    pub fn add_scalar(self, rhs: i32) -> (r: Self)
        requires
            i32::MIN <= self@.x + rhs <= i32::MAX,
            i32::MIN <= self@.y + rhs <= i32::MAX,
            i32::MIN <= self@.z + rhs <= i32::MAX,
        ensures
            r@ == vadd(self@, Vec3i { x: rhs as int, y: rhs as int, z: rhs as int }),
    {
        Self { x: self.x + rhs, y: self.y + rhs, z: self.z + rhs }
    }

    /// Component-wise sum in place.
    pub fn add_assign(&mut self, rhs: Self)
        requires
            i32::MIN <= old(self)@.x + rhs@.x <= i32::MAX,
            i32::MIN <= old(self)@.y + rhs@.y <= i32::MAX,
            i32::MIN <= old(self)@.z + rhs@.z <= i32::MAX,
        ensures
            final(self)@ == vadd(old(self)@, rhs@),
    {
        self.x = self.x + rhs.x;
        self.y = self.y + rhs.y;
        self.z = self.z + rhs.z;
    }

    /// Component-wise difference.
    pub fn sub(self, rhs: Self) -> (r: Self)
        requires
            i32::MIN <= self@.x - rhs@.x <= i32::MAX,
            i32::MIN <= self@.y - rhs@.y <= i32::MAX,
            i32::MIN <= self@.z - rhs@.z <= i32::MAX,
        ensures
            r@ == vsub(self@, rhs@),
    {
        Self { x: self.x - rhs.x, y: self.y - rhs.y, z: self.z - rhs.z }
    }

    /// Subtracts the scalar from every component.
    pub fn sub_scalar(self, rhs: i32) -> (r: Self)
        requires
            i32::MIN <= self@.x - rhs <= i32::MAX,
            i32::MIN <= self@.y - rhs <= i32::MAX,
            i32::MIN <= self@.z - rhs <= i32::MAX,
        ensures
            r@ == vsub(self@, Vec3i { x: rhs as int, y: rhs as int, z: rhs as int }),
    {
        Self { x: self.x - rhs, y: self.y - rhs, z: self.z - rhs }
    }

    /// Component-wise difference in place.
    pub fn sub_assign(&mut self, rhs: Self)
        requires
            i32::MIN <= old(self)@.x - rhs@.x <= i32::MAX,
            i32::MIN <= old(self)@.y - rhs@.y <= i32::MAX,
            i32::MIN <= old(self)@.z - rhs@.z <= i32::MAX,
        ensures
            final(self)@ == vsub(old(self)@, rhs@),
    {
        self.x = self.x - rhs.x;
        self.y = self.y - rhs.y;
        self.z = self.z - rhs.z;
    }

    /// Component-wise product.
    pub fn mul(self, rhs: Self) -> (r: Self)
        requires
            i32::MIN <= self@.x * rhs@.x <= i32::MAX,
            i32::MIN <= self@.y * rhs@.y <= i32::MAX,
            i32::MIN <= self@.z * rhs@.z <= i32::MAX,
        ensures
            r@ == vmul(self@, rhs@),
    {
        Self { x: self.x * rhs.x, y: self.y * rhs.y, z: self.z * rhs.z }
    }

    /// Scales every component by the scalar.
    pub fn mul_scalar(self, rhs: i32) -> (r: Self)
        requires
            i32::MIN <= self@.x * rhs <= i32::MAX,
            i32::MIN <= self@.y * rhs <= i32::MAX,
            i32::MIN <= self@.z * rhs <= i32::MAX,
        ensures
            r@ == vscale(self@, rhs as int),
    {
        Self { x: self.x * rhs, y: self.y * rhs, z: self.z * rhs }
    }

    /// Component-wise product in place.
    pub fn mul_assign(&mut self, rhs: Self)
        requires
            i32::MIN <= old(self)@.x * rhs@.x <= i32::MAX,
            i32::MIN <= old(self)@.y * rhs@.y <= i32::MAX,
            i32::MIN <= old(self)@.z * rhs@.z <= i32::MAX,
        ensures
            final(self)@ == vmul(old(self)@, rhs@),
    {
        self.x = self.x * rhs.x;
        self.y = self.y * rhs.y;
        self.z = self.z * rhs.z;
    }

    /// Component-wise truncating quotient.
    pub fn div(self, rhs: Self) -> (r: Self)
        requires
            rhs@.x != 0 && rhs@.y != 0 && rhs@.z != 0,
            self@.x != i32::MIN as int,
            self@.y != i32::MIN as int,
            self@.z != i32::MIN as int,
        ensures
            r@ == vdiv(self@, rhs@),
    {
        Self {
            x: div_i32(self.x, rhs.x),
            y: div_i32(self.y, rhs.y),
            z: div_i32(self.z, rhs.z),
        }
    }

    /// Divides (truncating) every component by the scalar.
    pub fn div_scalar(self, rhs: i32) -> (r: Self)
        requires
            rhs != 0,
            self@.x != i32::MIN as int,
            self@.y != i32::MIN as int,
            self@.z != i32::MIN as int,
        ensures
            r@ == vdiv_scale(self@, rhs as int),
    {
        Self {
            x: div_i32(self.x, rhs),
            y: div_i32(self.y, rhs),
            z: div_i32(self.z, rhs),
        }
    }

    /// Component-wise truncating quotient in place.
    pub fn div_assign(&mut self, rhs: Self)
        requires
            rhs@.x != 0 && rhs@.y != 0 && rhs@.z != 0,
            old(self)@.x != i32::MIN as int,
            old(self)@.y != i32::MIN as int,
            old(self)@.z != i32::MIN as int,
        ensures
            final(self)@ == vdiv(old(self)@, rhs@),
    {
        self.x = div_i32(self.x, rhs.x);
        self.y = div_i32(self.y, rhs.y);
        self.z = div_i32(self.z, rhs.z);
    }
}

/// The integer square root of one component.
fn sqrt_component(c: i32) -> (r: i32)
    ensures
        r == isqrt_elem(c as int),
{
    if c <= 0 {
        0
    } else {
        let r = isqrt(c as u64);
        proof {
            assert(r < 0x1_0000u64) by (nonlinear_arith)
                requires
                    (r as int) * (r as int) <= 0x8000_0000int,
            ;
        }
        r as i32
    }
}

/// The Euclidean length of a bounded vector, as a wide integer.
fn big_length(v: &IVec3) -> (r: i64)
    requires
        bounded(v@, 0x4000_0000),
    ensures
        r == norm_spec(v@),
        0 <= r < 0x8000_0000,
{
    proof {
        lemma_dot_self_nonneg(v@);
        lemma_dot_bound(v@, v@, 0x4000_0000, 0x4000_0000);
    }
    let d = v.dot_wide(v);
    let r = isqrt(d as u64);
    proof {
        assert(r < 0x8000_0000u64) by (nonlinear_arith)
            requires
                (r as int) * (r as int) <= 0x3000_0000_0000_0000int,
        ;
    }
    r as i64
}

/// One component of a normalized vector: `c * SCALE / l`, truncated.
fn scale_component(c: i32, l: i64) -> (r: i32)
    requires
        0 < l < 0x8000_0000,
        iabs(c as int) <= l,
    ensures
        r == tdiv(c as int * SCALE as int, l as int),
{
    proof {
        lemma_normalize_component(c as int, l as int);
    }
    let q = crate::fixed::div_i64((c as i64) * SCALE, l);
    q as i32
}

} // verus!
