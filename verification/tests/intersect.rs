// Intersection scenarios, in fixed-point units: SCALE = 256 stands for 1.0.

use raycore::error::ConfigurationError;
use raycore::primitives::Primitive;
use raycore::primitives::plane::FinitePlane;
use raycore::primitives::sphere::Sphere;
use raycore::ray::Ray;
use raycore::structures::IVec3;

const ONE: i32 = 256;

fn axis_z_ray(origin: IVec3) -> Ray {
    Ray::new(origin, IVec3::new(0, 0, ONE))
}

#[test]
fn sphere_ahead_two_hits() {
    // A sphere centered at (0,0,5) with radius 1, hit by a ray from the
    // origin along +z, yields intersections at t = 4 and t = 6.
    let s = Sphere::new(IVec3::new(0, 0, 5 * ONE), ONE).unwrap();
    let hits = s.intersect(&axis_z_ray(IVec3::new(0, 0, 0)));
    assert_eq!(hits.len(), 2);
    assert_eq!(hits[0].t, 4 * ONE as i64);
    assert_eq!(hits[0].point, IVec3::new(0, 0, 4 * ONE));
    assert_eq!(hits[1].t, 6 * ONE as i64);
    assert_eq!(hits[1].point, IVec3::new(0, 0, 6 * ONE));
}

#[test]
fn sphere_off_axis_miss() {
    // A sphere centered at (5,0,0) with radius 1 is missed by a ray from
    // the origin along +y.
    let s = Sphere::new(IVec3::new(5 * ONE, 0, 0), ONE).unwrap();
    let r = Ray::new(IVec3::new(0, 0, 0), IVec3::new(0, ONE, 0));
    let hits = s.intersect(&r);
    assert_eq!(hits.len(), 0);
}

#[test]
fn sphere_behind_origin_miss() {
    let s = Sphere::new(IVec3::new(0, 0, -5 * ONE), ONE).unwrap();
    let hits = s.intersect(&axis_z_ray(IVec3::new(0, 0, 0)));
    assert_eq!(hits.len(), 0);
}

#[test]
fn sphere_tangent_single_hit() {
    // The ray grazes the sphere: one tangent hit, not two equal ones.
    let s = Sphere::new(IVec3::new(0, ONE, 5 * ONE), ONE).unwrap();
    let hits = s.intersect(&axis_z_ray(IVec3::new(0, 0, 0)));
    assert_eq!(hits.len(), 1);
    assert_eq!(hits[0].t, 5 * ONE as i64);
    assert_eq!(hits[0].point, IVec3::new(0, 0, 5 * ONE));
}

#[test]
fn sphere_ray_starts_inside_reports_forward_hit() {
    // A ray starting at the center still reports the hit in front of it.
    let s = Sphere::new(IVec3::new(0, 0, 5 * ONE), ONE).unwrap();
    let hits = s.intersect(&axis_z_ray(IVec3::new(0, 0, 5 * ONE)));
    assert_eq!(hits.len(), 1);
    assert_eq!(hits[0].t, ONE as i64);
    assert_eq!(hits[0].point, IVec3::new(0, 0, 6 * ONE));
}

#[test]
fn sphere_new_rejects_zero_radius() {
    assert_eq!(
        Sphere::new(IVec3::new(0, 0, 0), 0),
        Err(ConfigurationError::NonPositiveRadius)
    );
}

#[test]
fn sphere_new_rejects_negative_radius() {
    assert_eq!(
        Sphere::new(IVec3::new(0, 0, 0), -5),
        Err(ConfigurationError::NonPositiveRadius)
    );
}

#[test]
fn sphere_new_rejects_out_of_range_center() {
    assert_eq!(
        Sphere::new(IVec3::new(0x200000, 0, 0), ONE),
        Err(ConfigurationError::CoordinateOutOfRange)
    );
}

#[test]
fn unit_square_plane_center_hit() {
    // A unit square at (0,0,5) spanned by +x and +y, hit from (0.5,0.5,0)
    // along +z: exactly one intersection, t = 5, point (0.5,0.5,5).
    let p = FinitePlane::new(
        IVec3::new(0, 0, 5 * ONE),
        IVec3::new(ONE, 0, 0),
        IVec3::new(0, ONE, 0),
    )
    .unwrap();
    let hits = p.intersect(&axis_z_ray(IVec3::new(ONE / 2, ONE / 2, 0)));
    assert_eq!(hits.len(), 1);
    assert_eq!(hits[0].t, 5 * ONE as i64);
    assert_eq!(hits[0].point, IVec3::new(ONE / 2, ONE / 2, 5 * ONE));
}

#[test]
fn unit_square_plane_corner_hit_is_inside() {
    let p = FinitePlane::new(
        IVec3::new(0, 0, 5 * ONE),
        IVec3::new(ONE, 0, 0),
        IVec3::new(0, ONE, 0),
    )
    .unwrap();
    let hits = p.intersect(&axis_z_ray(IVec3::new(0, 0, 0)));
    assert_eq!(hits.len(), 1);
    assert_eq!(hits[0].point, IVec3::new(0, 0, 5 * ONE));
}

#[test]
fn plane_miss_outside_extent() {
    // A ray parallel to the first one but aimed past the square's extent
    // meets the infinite plane and is rejected by the bounds test.
    let p = FinitePlane::new(
        IVec3::new(0, 0, 5 * ONE),
        IVec3::new(ONE, 0, 0),
        IVec3::new(0, ONE, 0),
    )
    .unwrap();
    let hits = p.intersect(&axis_z_ray(IVec3::new(5 * ONE, 5 * ONE, 0)));
    assert_eq!(hits.len(), 0);
}

#[test]
fn plane_parallel_ray_miss() {
    let p = FinitePlane::new(
        IVec3::new(0, 0, 5 * ONE),
        IVec3::new(ONE, 0, 0),
        IVec3::new(0, ONE, 0),
    )
    .unwrap();
    let r = Ray::new(IVec3::new(0, 0, 0), IVec3::new(ONE, 0, 0));
    assert_eq!(r.direction, IVec3::new(ONE, 0, 0));
    let hits = p.intersect(&r);
    assert_eq!(hits.len(), 0);
}

#[test]
fn plane_behind_origin_miss() {
    let p = FinitePlane::new(
        IVec3::new(0, 0, -5 * ONE),
        IVec3::new(ONE, 0, 0),
        IVec3::new(0, ONE, 0),
    )
    .unwrap();
    let hits = p.intersect(&axis_z_ray(IVec3::new(0, 0, 0)));
    assert_eq!(hits.len(), 0);
}

#[test]
fn plane_new_rejects_parallel_basis() {
    assert_eq!(
        FinitePlane::new(
            IVec3::new(0, 0, 0),
            IVec3::new(ONE, 0, 0),
            IVec3::new(2 * ONE, 0, 0),
        ),
        Err(ConfigurationError::DegeneratePlane)
    );
}

#[test]
fn plane_new_rejects_zero_edge() {
    assert_eq!(
        FinitePlane::new(
            IVec3::new(0, 0, 0),
            IVec3::new(0, 0, 0),
            IVec3::new(0, ONE, 0),
        ),
        Err(ConfigurationError::DegeneratePlane)
    );
}

#[test]
fn plane_new_rejects_oversized_edge() {
    assert_eq!(
        FinitePlane::new(
            IVec3::new(0, 0, 0),
            IVec3::new(0x8000, 0, 0),
            IVec3::new(0, ONE, 0),
        ),
        Err(ConfigurationError::CoordinateOutOfRange)
    );
}

#[test]
fn primitive_enum_dispatches() {
    let s = Sphere::new(IVec3::new(0, 0, 5 * ONE), ONE).unwrap();
    let p = FinitePlane::new(
        IVec3::new(0, 0, 5 * ONE),
        IVec3::new(ONE, 0, 0),
        IVec3::new(0, ONE, 0),
    )
    .unwrap();
    let ray = axis_z_ray(IVec3::new(0, 0, 0));
    assert_eq!(Primitive::Sphere(s).intersect(&ray).len(), 2);
    assert_eq!(Primitive::FinitePlane(p).intersect(&ray).len(), 1);
}

#[test]
fn ray_point_at_and_squish() {
    let r = axis_z_ray(IVec3::new(10, 20, 0));
    assert_eq!(r.point_at(4 * ONE as i64), IVec3::new(10, 20, 4 * ONE));
    assert_eq!(r.point_at(0), IVec3::new(10, 20, 0));
    assert_eq!(r.squish(), IVec3::new(10, 20, ONE));
}

#[test]
fn ray_magnitude_and_normalize() {
    let mut r = Ray::new(IVec3::new(0, 0, 0), IVec3::new(3, 4, 0));
    assert_eq!(r.magnitude(), 5);
    r.normalize().unwrap();
    assert_eq!(r.direction, IVec3::new(153, 204, 0));
    assert_eq!(r.origin, IVec3::new(0, 0, 0));
}

#[test]
fn ray_normalize_zero_direction_fails() {
    let mut r = Ray::new(IVec3::new(1, 2, 3), IVec3::new(0, 0, 0));
    assert_eq!(r.normalize(), Err(ConfigurationError::DegenerateVector));
    assert_eq!(r.direction, IVec3::new(0, 0, 0));
}
