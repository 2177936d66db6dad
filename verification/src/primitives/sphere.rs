//! Sphere intersection by the geometric quadratic method.
//!
//! For a ray with origin `O` and unit direction `D` and a sphere with
//! center `C` and radius `r`: let `L = C - O`, `tc = L . D` (the parameter
//! of the center's projection onto the ray), and `d2 = L . L - tc * tc`
//! (the squared distance from the center to the ray's line). The ray
//! misses exactly when `d2 > r * r`; otherwise the two roots are
//! `tc -/+ sqrt(r * r - d2)`.
//!
//! Policy choices, fixed here: `d2` is always computed, whatever the sign
//! of `tc`, so a ray starting inside the sphere still reports its forward
//! root; a root is reported only when `0 <= t <= T_MAX` (a negative root is
//! behind the origin, a larger one is a numeric anomaly); and when the
//! square root term is zero the two roots coincide and a single tangent
//! hit is reported.

use vstd::prelude::*;

verus! {

use crate::error::ConfigurationError;
use crate::fixed::COORD_MAX;
use crate::fixed::SCALE;
use crate::fixed::T_MAX;
use crate::fixed::div_i64;
use crate::fixed::isqrt;
use crate::fixed::isqrt_spec;
use crate::fixed::lemma_mul_bound;
use crate::fixed::lemma_tdiv_bounds;
use crate::fixed::lemma_tdiv_quotient_bound;
use crate::fixed::tdiv;
use crate::primitives::Hit;
use crate::primitives::HitView;
use crate::primitives::hits_wf;
use crate::ray::Ray;
use crate::ray::point_at_spec;
use crate::structures::IVec3;
use crate::structures::Vec3i;
use crate::structures::bounded;
use crate::structures::dot_spec;
use crate::structures::lemma_dot_bound;
use crate::structures::vsub;

/// A sphere given by its center and its radius (a fixed-point length).
#[derive(Clone, Copy, Debug, PartialEq, Eq, Structural)]
pub struct Sphere {
    pub origin: IVec3,
    pub radius: i32,
}

/// The intersections of a ray with a sphere; see the module doc for the
/// method and the policy choices.
pub open spec fn sphere_hits_spec(s: Sphere, orig: Vec3i, dir: Vec3i) -> Seq<HitView> {
    let l = vsub(s.origin@, orig);
    let tc_raw = dot_spec(l, dir);
    let ll_raw = dot_spec(l, l);
    let d2_raw = ll_raw - tdiv(tc_raw * tc_raw, SCALE as int * SCALE as int);
    let r2_raw = (s.radius as int) * (s.radius as int);
    if d2_raw > r2_raw {
        Seq::empty()
    } else {
        let t1c = isqrt_spec((r2_raw - d2_raw) as nat) as int;
        let tc = tdiv(tc_raw, SCALE as int);
        let t1 = tc - t1c;
        let t2 = tc + t1c;
        let s1: Seq<HitView> = if 0 <= t1 <= T_MAX as int {
            seq![HitView { t: t1, point: point_at_spec(orig, dir, t1) }]
        } else {
            Seq::empty()
        };
        let s2: Seq<HitView> = if 0 <= t2 <= T_MAX as int {
            seq![HitView { t: t2, point: point_at_spec(orig, dir, t2) }]
        } else {
            Seq::empty()
        };
        if t1c == 0 {
            s1
        } else {
            s1 + s2
        }
    }
}

impl Sphere {
    /// The construction-time invariant: a positive radius and coordinates
    /// in the fixed-point range.
    pub open spec fn wf(&self) -> bool {
        bounded(self.origin@, COORD_MAX as int) && 0 < self.radius <= COORD_MAX
    }

    /// The runtime counterpart of [`Sphere::wf`].
    pub fn is_wf(&self) -> (b: bool)
        ensures
            b == self.wf(),
    {
        self.origin.in_range(COORD_MAX) && 0 < self.radius && self.radius as i64 <= COORD_MAX
    }

    /// Builds a sphere, rejecting a non-positive radius and out-of-range
    /// coordinates before any ray is traced.
    pub fn new(origin: IVec3, radius: i32) -> (r: Result<Sphere, ConfigurationError>)
        ensures
            r is Ok <==> bounded(origin@, COORD_MAX as int) && 0 < radius <= COORD_MAX,
            r is Ok ==> r->Ok_0 == (Sphere { origin, radius }),
            radius <= 0 ==> r == Err::<Sphere, ConfigurationError>(
                ConfigurationError::NonPositiveRadius,
            ),
            radius > 0 && !(radius <= COORD_MAX && bounded(origin@, COORD_MAX as int)) ==> r
                == Err::<Sphere, ConfigurationError>(ConfigurationError::CoordinateOutOfRange),
    {
        if radius <= 0 {
            return Err(ConfigurationError::NonPositiveRadius);
        }
        if radius as i64 > COORD_MAX || !origin.in_range(COORD_MAX) {
            return Err(ConfigurationError::CoordinateOutOfRange);
        }
        Ok(Sphere { origin, radius })
    }

    /// Computes the intersections between a ray and self, in ascending ray
    /// order; empty when the ray misses. The ray direction is meant to be
    /// normalized; `t` is measured in units of its length.
    pub fn intersect(&self, ray: &Ray) -> (hits: Vec<Hit>)
        requires
            self.wf(),
            ray.wf(),
        ensures
            hits@.map_values(|h: Hit| h@) == sphere_hits_spec(*self, ray.origin@, ray.direction@),
            hits_wf(hits@.map_values(|h: Hit| h@), ray.origin@, ray.direction@),
    {
        let ghost spec_hits = sphere_hits_spec(*self, ray.origin@, ray.direction@);
        let l = self.origin.sub(ray.origin);
        proof {
            lemma_dot_bound(l@, ray.direction@, 0x20_0000, 256);
            lemma_dot_bound(l@, l@, 0x20_0000, 0x20_0000);
        }
        let tc_raw = l.dot_wide(&ray.direction);
        let ll_raw = l.dot_wide(&l);
        proof {
            lemma_mul_bound(tc_raw as int, tc_raw as int, 0x6000_0000, 0x6000_0000);
        }
        let tc2 = tc_raw * tc_raw;
        proof {
            lemma_tdiv_bounds(tc2 as int, 0x1_0000);
            assert(SCALE as int * SCALE as int == 0x1_0000int);
        }
        let tc2s = div_i64(tc2, 0x1_0000);
        let d2 = ll_raw - tc2s;
        let r64 = self.radius as i64;
        proof {
            lemma_mul_bound(r64 as int, r64 as int, 0x10_0000, 0x10_0000);
        }
        let r2 = r64 * r64;
        let mut hits: Vec<Hit> = Vec::new();
        if d2 > r2 {
            proof {
                assert(hits@.map_values(|h: Hit| h@) =~= spec_hits);
            }
            return hits;
        }
        let rad = r2 - d2;
        let t1c_u = isqrt(rad as u64);
        proof {
            assert(t1c_u < 0x8000_0000u64) by (nonlinear_arith)
                requires
                    (t1c_u as int) * (t1c_u as int) < 0x4000_0000_0000_0000int,
            ;
        }
        let t1c = t1c_u as i64;
        proof {
            lemma_tdiv_quotient_bound(tc_raw as int, SCALE as int, 0x60_0000);
        }
        let tc = div_i64(tc_raw, SCALE);
        let t1 = tc - t1c;
        let t2 = tc + t1c;
        if 0 <= t1 && t1 <= T_MAX {
            hits.push(Hit { t: t1, point: ray.point_at(t1) });
        }
        if t1c != 0 && 0 <= t2 && t2 <= T_MAX {
            hits.push(Hit { t: t2, point: ray.point_at(t2) });
        }
        proof {
            assert(hits@.map_values(|h: Hit| h@) =~= spec_hits);
        }
        hits
    }
}

} // verus!
