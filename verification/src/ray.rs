//! A ray: an origin and a direction in world space.
//!
//! The direction is meant to be unit length in fixed-point units (callers
//! normalize before running an intersection test); construction does not
//! silently normalize, so a degenerate direction is caught where it is made.

use vstd::prelude::*;

verus! {

use crate::error::ConfigurationError;
use crate::fixed::COORD_MAX;
use crate::fixed::HIT_MAX;
use crate::fixed::SCALE;
use crate::fixed::T_MAX;
use crate::fixed::div_i64;
use crate::fixed::iabs;
use crate::fixed::lemma_mul_bound;
use crate::fixed::lemma_tdiv_quotient_bound;
use crate::fixed::tdiv;
use crate::structures::IVec3;
use crate::structures::Vec3i;
use crate::structures::bounded;
use crate::structures::norm_spec;
use crate::structures::normalize_spec;
use crate::structures::vadd;
use crate::structures::vdiv_scale;
use crate::structures::vscale;
use crate::structures::vzero;

/// The point at parameter `t` along the ray: `origin + direction * t`,
/// where `t` and the coordinates are fixed-point values.
pub open spec fn point_at_spec(origin: Vec3i, direction: Vec3i, t: int) -> Vec3i {
    vadd(origin, vdiv_scale(vscale(direction, t), SCALE as int))
}

/// A ray with a world-space origin and direction.
#[derive(Clone, Copy, Debug, PartialEq, Eq, Structural)]
pub struct Ray {
    pub origin: IVec3,
    pub direction: IVec3,
}

impl Ray {
    /// The coordinate ranges every intersection test relies on: the origin
    /// is a world position and the direction is unit-scaled.
    pub open spec fn wf(&self) -> bool {
        bounded(self.origin@, COORD_MAX as int) && bounded(self.direction@, SCALE as int)
    }

    /// Builds a ray; the direction is taken as given.
    pub fn new(origin: IVec3, direction: IVec3) -> (r: Ray)
        ensures
            r == (Ray { origin, direction }),
    {
        Ray { origin, direction }
    }

    /// The length of the direction vector, in fixed-point units.
    pub fn magnitude(&self) -> (r: i32)
        requires
            bounded(self.direction@, 0x4000_0000),
        ensures
            r == norm_spec(self.direction@),
    {
        self.direction.length()
    }

    /// Rescales the direction to unit length in place; fails on a
    /// zero-length direction, which is degenerate.
    pub fn normalize(&mut self) -> (r: Result<(), ConfigurationError>)
        requires
            bounded(old(self).direction@, 0x4000_0000),
        ensures
            final(self).origin == old(self).origin,
            r is Err <==> old(self).direction@ == vzero(),
            r is Err ==> *final(self) == *old(self) && r == Err::<(), ConfigurationError>(
                ConfigurationError::DegenerateVector,
            ),
            r is Ok ==> final(self).direction@ == normalize_spec(old(self).direction@) && bounded(
                final(self).direction@,
                SCALE as int,
            ),
    {
        match self.direction.normalize() {
            Ok(d) => {
                self.direction = d;
                Ok(())
            },
            Err(e) => Err(e),
        }
    }

    /// One step along the ray: `origin + direction`.
    pub fn squish(&self) -> (r: IVec3)
        requires
            i32::MIN <= self.origin@.x + self.direction@.x <= i32::MAX,
            i32::MIN <= self.origin@.y + self.direction@.y <= i32::MAX,
            i32::MIN <= self.origin@.z + self.direction@.z <= i32::MAX,
        ensures
            r@ == vadd(self.origin@, self.direction@),
    {
        self.origin.add(self.direction)
    }

    /// The point at parameter `t` along the ray. A negative `t` lies behind
    /// the origin; callers interpret it.
    pub fn point_at(&self, t: i64) -> (r: IVec3)
        requires
            self.wf(),
            -T_MAX <= t <= T_MAX,
        ensures
            r@ == point_at_spec(self.origin@, self.direction@, t as int),
            bounded(r@, HIT_MAX as int),
    {
        let x = advance(self.origin.x, self.direction.x, t);
        let y = advance(self.origin.y, self.direction.y, t);
        let z = advance(self.origin.z, self.direction.z, t);
        IVec3 { x, y, z }
    }
}

/// A point along a well-formed ray, at a parameter within range, has
/// bounded coordinates.
pub proof fn lemma_point_at_bounded(origin: Vec3i, direction: Vec3i, t: int)
    requires
        bounded(origin, COORD_MAX as int),
        bounded(direction, SCALE as int),
        -T_MAX <= t <= T_MAX,
    ensures
        bounded(point_at_spec(origin, direction, t), HIT_MAX as int),
{
    lemma_mul_bound(direction.x, t, SCALE as int, T_MAX as int);
    lemma_mul_bound(direction.y, t, SCALE as int, T_MAX as int);
    lemma_mul_bound(direction.z, t, SCALE as int, T_MAX as int);
    assert(SCALE as int * T_MAX as int == T_MAX as int * SCALE as int) by (nonlinear_arith);
    lemma_tdiv_quotient_bound(direction.x * t, SCALE as int, T_MAX as int);
    lemma_tdiv_quotient_bound(direction.y * t, SCALE as int, T_MAX as int);
    lemma_tdiv_quotient_bound(direction.z * t, SCALE as int, T_MAX as int);
}

/// One coordinate of a point along a ray: `o + d * t / SCALE`, truncated.
fn advance(o: i32, d: i32, t: i64) -> (r: i32)
    requires
        iabs(o as int) <= COORD_MAX as int,
        iabs(d as int) <= SCALE as int,
        -T_MAX <= t <= T_MAX,
    ensures
        r == o + tdiv(d as int * t, SCALE as int),
        iabs(r as int) <= HIT_MAX as int,
{
    proof {
        lemma_mul_bound(d as int, t as int, SCALE as int, T_MAX as int);
        lemma_tdiv_quotient_bound(d as int * t, SCALE as int, T_MAX as int);
        assert(SCALE as int * T_MAX as int == T_MAX as int * SCALE as int) by (nonlinear_arith);
    }
    let step = div_i64((d as i64) * t, SCALE);
    o + (step as i32)
}

} // verus!
