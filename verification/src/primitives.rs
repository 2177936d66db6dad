//! The primitive shapes and their shared intersection contract.
//!
//! Every primitive answers the same question: where does a ray meet it?
//! The answer is a sequence of [`Hit`] values ordered by ascending ray
//! parameter `t`, empty when there is no intersection, and holding only
//! intersections with `t >= 0` (in front of the ray origin). The set of
//! primitives is closed: the tracer dispatches over [`Primitive`] by
//! pattern match, so adding a variant extends one enum and one match.

pub mod plane;
pub mod sphere;

use vstd::prelude::*;

verus! {

use crate::fixed::T_MAX;
use crate::primitives::plane::FinitePlane;
use crate::primitives::plane::plane_hits_spec;
use crate::primitives::sphere::Sphere;
use crate::primitives::sphere::sphere_hits_spec;
use crate::ray::Ray;
use crate::ray::point_at_spec;
use crate::structures::IVec3;
use crate::structures::Vec3i;

/// One reported intersection: the ray parameter `t` (a fixed-point value)
/// and the hit point `ray.point_at(t)`.
#[derive(Clone, Copy, Debug, PartialEq, Eq, Structural)]
pub struct Hit {
    pub t: i64,
    pub point: IVec3,
}

/// The mathematical counterpart of [`Hit`].
pub ghost struct HitView {
    pub t: int,
    pub point: Vec3i,
}

impl View for Hit {
    type V = HitView;

    open spec fn view(&self) -> HitView {
        HitView { t: self.t as int, point: self.point@ }
    }
}

/// A hit sequence is well-formed for a ray when it is ascending in `t`,
/// reports only parameters in `[0, T_MAX]`, and each point lies at its
/// parameter along the ray.
pub open spec fn hits_wf(hits: Seq<HitView>, orig: Vec3i, dir: Vec3i) -> bool {
    &&& forall|i: int| 0 <= i < hits.len() ==> 0 <= (#[trigger] hits[i]).t <= T_MAX as int
    &&& forall|i: int, j: int| 0 <= i < j < hits.len() ==> hits[i].t <= hits[j].t
    &&& forall|i: int|
        0 <= i < hits.len() ==> (#[trigger] hits[i]).point == point_at_spec(orig, dir, hits[i].t)
}

/// The closed set of primitive shapes.
#[derive(Clone, Copy, Debug, PartialEq, Eq, Structural)]
pub enum Primitive {
    Sphere(Sphere),
    FinitePlane(FinitePlane),
}

impl Primitive {
    /// The construction-time invariant of the underlying shape.
    pub open spec fn wf(&self) -> bool {
        match *self {
            Primitive::Sphere(s) => s.wf(),
            Primitive::FinitePlane(p) => p.wf(),
        }
    }

    /// The runtime counterpart of [`Primitive::wf`].
    pub fn is_wf(&self) -> (b: bool)
        ensures
            b == self.wf(),
    {
        match self {
            Primitive::Sphere(s) => s.is_wf(),
            Primitive::FinitePlane(p) => p.is_wf(),
        }
    }

    /// The intersections a ray makes with this primitive.
    pub open spec fn hits_spec(&self, orig: Vec3i, dir: Vec3i) -> Seq<HitView> {
        match *self {
            Primitive::Sphere(s) => sphere_hits_spec(s, orig, dir),
            Primitive::FinitePlane(p) => plane_hits_spec(p, orig, dir),
        }
    }

    /// Takes a reference to a ray and calculates points of intersection
    /// with self, in ascending ray order; the result is empty when the ray
    /// misses.
    pub fn intersect(&self, ray: &Ray) -> (hits: Vec<Hit>)
        requires
            self.wf(),
            ray.wf(),
        ensures
            hits@.map_values(|h: Hit| h@) == self.hits_spec(ray.origin@, ray.direction@),
            hits_wf(hits@.map_values(|h: Hit| h@), ray.origin@, ray.direction@),
    {
        match self {
            Primitive::Sphere(s) => s.intersect(ray),
            Primitive::FinitePlane(p) => p.intersect(ray),
        }
    }
}

} // verus!
