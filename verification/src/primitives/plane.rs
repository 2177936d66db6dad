//! Bounded (parallelogram) plane intersection.
//!
//! A finite plane is anchored at `position` and spanned by the edge
//! vectors `u` and `v`. A ray first meets the infinite plane at
//! `t = normal . (position - origin) / (normal . direction)` with
//! `normal = u x v`; a zero denominator means the ray is parallel and
//! there is no intersection. The hit point is then written as
//! `position + w1 * u + w2 * v` by Cramer's rule with
//! `det = (u.u)(v.v) - (u.v)^2`, and the intersection is reported exactly
//! when `0 <= w1 <= 1` and `0 <= w2 <= 1` (in fixed-point units, `SCALE`
//! stands for one).
//!
//! Per-ray degeneracies — a parallel ray, a zero determinant, a parameter
//! outside `[0, T_MAX]` — are resolved as "no intersection", never raised.

use vstd::prelude::*;

verus! {

use crate::error::ConfigurationError;
use crate::fixed::COORD_MAX;
use crate::fixed::SCALE;
use crate::fixed::SPAN_MAX;
use crate::fixed::T_MAX;
use crate::fixed::div_i64;
use crate::fixed::div_i128;
use crate::fixed::iabs;
use crate::fixed::lemma_mul_bound;
use crate::fixed::tdiv;
use crate::primitives::Hit;
use crate::primitives::HitView;
use crate::primitives::hits_wf;
use crate::ray::Ray;
use crate::ray::point_at_spec;
use crate::structures::IVec3;
use crate::structures::Vec3i;
use crate::structures::bounded;
use crate::structures::cross_spec;
use crate::structures::dot_spec;
use crate::structures::lemma_cross_bound;
use crate::structures::lemma_dot_bound;
use crate::structures::vsub;
use crate::structures::vzero;

/// A parallelogram anchored at `position`, spanned by the edge vectors `u`
/// and `v`.
#[derive(Clone, Copy, Debug, PartialEq, Eq, Structural)]
pub struct FinitePlane {
    pub position: IVec3,
    pub u: IVec3,
    pub v: IVec3,
}

/// The intersections of a ray with a bounded plane; see the module doc for
/// the method.
pub open spec fn plane_hits_spec(p: FinitePlane, orig: Vec3i, dir: Vec3i) -> Seq<HitView> {
    let normal = cross_spec(p.u@, p.v@);
    let den = dot_spec(normal, dir);
    if den == 0 {
        Seq::empty()
    } else {
        let num = dot_spec(normal, vsub(p.position@, orig));
        let t = tdiv(num * SCALE as int, den);
        if !(0 <= t <= T_MAX as int) {
            Seq::empty()
        } else {
            let hit = point_at_spec(orig, dir, t);
            let rhs = vsub(hit, p.position@);
            let uu = dot_spec(p.u@, p.u@);
            let vv = dot_spec(p.v@, p.v@);
            let uv = dot_spec(p.u@, p.v@);
            let ur = dot_spec(p.u@, rhs);
            let vr = dot_spec(p.v@, rhs);
            let det = uu * vv - uv * uv;
            if det == 0 {
                Seq::empty()
            } else {
                let w1 = tdiv((vv * ur - uv * vr) * SCALE as int, det);
                let w2 = tdiv((uu * vr - uv * ur) * SCALE as int, det);
                if 0 <= w1 <= SCALE as int && 0 <= w2 <= SCALE as int {
                    seq![HitView { t, point: hit }]
                } else {
                    Seq::empty()
                }
            }
        }
    }
}

impl FinitePlane {
    /// The construction-time invariant: coordinates in the fixed-point
    /// range, edge vectors of bounded extent, and a basis that actually
    /// spans a plane (non-zero cross product).
    pub open spec fn wf(&self) -> bool {
        bounded(self.position@, COORD_MAX as int) && bounded(self.u@, SPAN_MAX as int) && bounded(
            self.v@,
            SPAN_MAX as int,
        ) && cross_spec(self.u@, self.v@) != vzero()
    }

    /// The runtime counterpart of [`FinitePlane::wf`].
    pub fn is_wf(&self) -> (b: bool)
        ensures
            b == self.wf(),
    {
        if !self.position.in_range(COORD_MAX) || !self.u.in_range(SPAN_MAX) || !self.v.in_range(
            SPAN_MAX,
        ) {
            return false;
        }
        proof {
            lemma_cross_bound(self.u@, self.v@, SPAN_MAX as int, SPAN_MAX as int);
        }
        let normal = self.u.cross(self.v);
        !(normal.x == 0 && normal.y == 0 && normal.z == 0)
    }

    /// Builds a bounded plane, rejecting out-of-range coordinates and a
    /// degenerate (parallel or zero) edge basis before any ray is traced.
    pub fn new(position: IVec3, u: IVec3, v: IVec3) -> (r: Result<FinitePlane, ConfigurationError>)
        ensures
            r is Ok <==> bounded(position@, COORD_MAX as int) && bounded(u@, SPAN_MAX as int)
                && bounded(v@, SPAN_MAX as int) && cross_spec(u@, v@) != vzero(),
            r is Ok ==> r->Ok_0 == (FinitePlane { position, u, v }),
            !(bounded(position@, COORD_MAX as int) && bounded(u@, SPAN_MAX as int) && bounded(
                v@,
                SPAN_MAX as int,
            )) ==> r == Err::<FinitePlane, ConfigurationError>(
                ConfigurationError::CoordinateOutOfRange,
            ),
            bounded(position@, COORD_MAX as int) && bounded(u@, SPAN_MAX as int) && bounded(
                v@,
                SPAN_MAX as int,
            ) && cross_spec(u@, v@) == vzero() ==> r == Err::<FinitePlane, ConfigurationError>(
                ConfigurationError::DegeneratePlane,
            ),
    {
        if !position.in_range(COORD_MAX) || !u.in_range(SPAN_MAX) || !v.in_range(SPAN_MAX) {
            return Err(ConfigurationError::CoordinateOutOfRange);
        }
        proof {
            lemma_cross_bound(u@, v@, SPAN_MAX as int, SPAN_MAX as int);
        }
        let normal = u.cross(v);
        if normal.x == 0 && normal.y == 0 && normal.z == 0 {
            return Err(ConfigurationError::DegeneratePlane);
        }
        Ok(FinitePlane { position, u, v })
    }

    /// Computes the intersection between a ray and self: at most one hit,
    /// reported only when it falls inside the parallelogram. The ray
    /// direction is meant to be normalized; `t` is measured in units of
    /// its length.
    pub fn intersect(&self, ray: &Ray) -> (hits: Vec<Hit>)
        requires
            self.wf(),
            ray.wf(),
        ensures
            hits@.map_values(|h: Hit| h@) == plane_hits_spec(*self, ray.origin@, ray.direction@),
            hits_wf(hits@.map_values(|h: Hit| h@), ray.origin@, ray.direction@),
    {
        let ghost spec_hits = plane_hits_spec(*self, ray.origin@, ray.direction@);
        let mut hits: Vec<Hit> = Vec::new();
        proof {
            lemma_cross_bound(self.u@, self.v@, SPAN_MAX as int, SPAN_MAX as int);
        }
        let normal = self.u.cross(self.v);
        proof {
            lemma_dot_bound(normal@, ray.direction@, 0x2000_0000, 256);
        }
        let den = normal.dot_wide(&ray.direction);
        if den == 0 {
            proof {
                assert(hits@.map_values(|h: Hit| h@) =~= spec_hits);
            }
            return hits;
        }
        let diff = self.position.sub(ray.origin);
        proof {
            lemma_dot_bound(normal@, diff@, 0x2000_0000, 0x20_0000);
        }
        let num = normal.dot_wide(&diff);
        let t = div_i64(num * 256, den);
        if !(0 <= t && t <= T_MAX) {
            proof {
                assert(hits@.map_values(|h: Hit| h@) =~= spec_hits);
            }
            return hits;
        }
        let hit = ray.point_at(t);
        let rhs = hit.sub(self.position);
        proof {
            lemma_dot_bound(self.u@, self.u@, SPAN_MAX as int, SPAN_MAX as int);
            lemma_dot_bound(self.v@, self.v@, SPAN_MAX as int, SPAN_MAX as int);
            lemma_dot_bound(self.u@, self.v@, SPAN_MAX as int, SPAN_MAX as int);
            lemma_dot_bound(self.u@, rhs@, SPAN_MAX as int, 0x2100_0000);
            lemma_dot_bound(self.v@, rhs@, SPAN_MAX as int, 0x2100_0000);
        }
        let uu = self.u.dot_wide(&self.u);
        let vv = self.v.dot_wide(&self.v);
        let uv = self.u.dot_wide(&self.v);
        let ur = self.u.dot_wide(&rhs);
        let vr = self.v.dot_wide(&rhs);
        proof {
            lemma_mul_bound(uu as int, vv as int, 0x3000_0000, 0x3000_0000);
            lemma_mul_bound(uv as int, uv as int, 0x3000_0000, 0x3000_0000);
        }
        let det = uu * vv - uv * uv;
        if det == 0 {
            proof {
                assert(hits@.map_values(|h: Hit| h@) =~= spec_hits);
            }
            return hits;
        }
        proof {
            lemma_mul_bound(vv as int, ur as int, 0x3000_0000, 0x6300_0000_0000);
            lemma_mul_bound(uv as int, vr as int, 0x3000_0000, 0x6300_0000_0000);
            lemma_mul_bound(uu as int, vr as int, 0x3000_0000, 0x6300_0000_0000);
            lemma_mul_bound(uv as int, ur as int, 0x3000_0000, 0x6300_0000_0000);
        }
        let w1n = (vv as i128) * (ur as i128) - (uv as i128) * (vr as i128);
        let w2n = (uu as i128) * (vr as i128) - (uv as i128) * (ur as i128);
        let w1 = div_i128(w1n * 256, det as i128);
        let w2 = div_i128(w2n * 256, det as i128);
        let s128 = SCALE as i128;
        if 0 <= w1 && w1 <= s128 && 0 <= w2 && w2 <= s128 {
            hits.push(Hit { t, point: hit });
        }
        proof {
            assert(hits@.map_values(|h: Hit| h@) =~= spec_hits);
        }
        hits
    }
}

} // verus!
