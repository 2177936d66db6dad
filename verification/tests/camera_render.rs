// Camera construction, per-pixel rays, and whole-scene rendering, in
// fixed-point units: SCALE = 256 stands for 1.0.

use raycore::camera::Camera;
use raycore::color::Color;
use raycore::error::ConfigurationError;
use raycore::lighting::Light;
use raycore::primitives::Primitive;
use raycore::primitives::sphere::Sphere;
use raycore::render::Scene;
use raycore::structures::IVec3;

const ONE: i32 = 256;

fn forward_camera(width: u32, height: u32) -> Camera {
    Camera::new(IVec3::new(0, 0, 0), IVec3::new(0, 0, ONE), 0, width, height).unwrap()
}

#[test]
fn camera_new_rejects_zero_width() {
    assert_eq!(
        Camera::new(IVec3::new(0, 0, 0), IVec3::new(0, 0, ONE), 0, 0, 10),
        Err(ConfigurationError::ZeroResolution)
    );
}

#[test]
fn camera_new_rejects_zero_height() {
    assert_eq!(
        Camera::new(IVec3::new(0, 0, 0), IVec3::new(0, 0, ONE), 0, 10, 0),
        Err(ConfigurationError::ZeroResolution)
    );
}

#[test]
fn camera_new_rejects_oversized_resolution() {
    assert_eq!(
        Camera::new(IVec3::new(0, 0, 0), IVec3::new(0, 0, ONE), 0, 20000, 10),
        Err(ConfigurationError::ResolutionTooLarge)
    );
}

#[test]
fn camera_new_rejects_zero_direction() {
    assert_eq!(
        Camera::new(IVec3::new(0, 0, 0), IVec3::new(0, 0, 0), 0, 10, 10),
        Err(ConfigurationError::DegenerateVector)
    );
}

#[test]
fn camera_new_rejects_negative_fov_scale() {
    assert_eq!(
        Camera::new(IVec3::new(0, 0, 0), IVec3::new(0, 0, ONE), -1, 10, 10),
        Err(ConfigurationError::FovOutOfRange)
    );
}

#[test]
fn camera_new_rejects_out_of_range_position() {
    assert_eq!(
        Camera::new(IVec3::new(0x200000, 0, 0), IVec3::new(0, 0, ONE), 0, 10, 10),
        Err(ConfigurationError::CoordinateOutOfRange)
    );
}

#[test]
fn camera_new_normalizes_direction() {
    let c = Camera::new(IVec3::new(0, 0, 0), IVec3::new(0, 0, 7 * ONE), 0, 4, 4).unwrap();
    assert_eq!(c.direction, IVec3::new(0, 0, ONE));
}

#[test]
fn zero_fov_center_pixel_ray_matches_facing() {
    // With no field-of-view skew, the ray for the center pixel of an
    // even-resolution image points exactly along the camera's facing.
    let c = forward_camera(4, 4);
    let r = c.ray_for_pixel(2, 2);
    assert_eq!(r.origin, IVec3::new(0, 0, 0));
    assert_eq!(r.direction, c.direction);
}

#[test]
fn zero_fov_every_pixel_ray_matches_facing() {
    let c = forward_camera(6, 4);
    for px in 0..6u32 {
        for py in 0..4u32 {
            assert_eq!(c.ray_for_pixel(px, py).direction, c.direction);
        }
    }
}

#[test]
fn wide_fov_corner_rays_diverge() {
    // With a real field of view the corner pixels leave the axis.
    let c = Camera::new(IVec3::new(0, 0, 0), IVec3::new(0, 0, ONE), ONE, 4, 4).unwrap();
    let corner = c.ray_for_pixel(0, 0);
    assert_ne!(corner.direction, c.direction);
    let len = corner.direction.length();
    assert!((250..=262).contains(&len), "length {}", len);
}

#[test]
fn empty_scene_renders_background_everywhere() {
    let background = Color::new(10, 20, 30);
    let scene = Scene::new(forward_camera(4, 4), Vec::new(), Vec::new(), background).unwrap();
    let fb = scene.render();
    assert_eq!(fb.len(), 16);
    for c in fb {
        assert_eq!(c, background);
    }
}

#[test]
fn scene_new_rejects_invalid_primitive() {
    let bad = Primitive::Sphere(Sphere {
        origin: IVec3::new(0, 0, 0),
        radius: 0,
    });
    let r = Scene::new(forward_camera(4, 4), vec![bad], Vec::new(), Color::new(0, 0, 0));
    assert!(matches!(r, Err(ConfigurationError::InvalidScene)));
}

#[test]
fn trace_hits_sphere_under_ambient_light() {
    // Every zero-fov ray runs along +z into the sphere; an ambient light of
    // intensity one paints the full light color at the hit.
    let sphere = Sphere::new(IVec3::new(0, 0, 5 * ONE), ONE).unwrap();
    let ambient = Light::Ambient {
        color: Color::new(200, 100, 50),
        intensity: ONE,
    };
    let scene = Scene::new(
        forward_camera(4, 4),
        vec![Primitive::Sphere(sphere)],
        vec![ambient],
        Color::new(0, 0, 0),
    )
    .unwrap();
    assert_eq!(scene.trace(1, 2), Color::new(200, 100, 50));
    let fb = scene.render();
    assert_eq!(fb.len(), 16);
    for c in fb {
        assert_eq!(c, Color::new(200, 100, 50));
    }
}

#[test]
fn point_light_attenuates_with_distance() {
    // The first hit is at (0,0,4). A point light one unit further along the
    // axis contributes at squared distance one: intensity 1 is halved.
    let sphere = Sphere::new(IVec3::new(0, 0, 5 * ONE), ONE).unwrap();
    let light = Light::Point {
        origin: IVec3::new(0, 0, 5 * ONE),
        color: Color::new(200, 100, 50),
        intensity: ONE,
    };
    let scene = Scene::new(
        forward_camera(2, 2),
        vec![Primitive::Sphere(sphere)],
        vec![light],
        Color::new(0, 0, 0),
    )
    .unwrap();
    assert_eq!(scene.trace(0, 0), Color::new(100, 50, 25));
}

#[test]
fn point_light_at_hit_point_gives_full_color() {
    let sphere = Sphere::new(IVec3::new(0, 0, 5 * ONE), ONE).unwrap();
    let light = Light::Point {
        origin: IVec3::new(0, 0, 4 * ONE),
        color: Color::new(60, 70, 80),
        intensity: ONE,
    };
    let scene = Scene::new(
        forward_camera(2, 2),
        vec![Primitive::Sphere(sphere)],
        vec![light],
        Color::new(0, 0, 0),
    )
    .unwrap();
    assert_eq!(scene.trace(1, 1), Color::new(60, 70, 80));
}

#[test]
fn lighting_contributions_cap_at_channel_maximum() {
    let sphere = Sphere::new(IVec3::new(0, 0, 5 * ONE), ONE).unwrap();
    let bright = Light::Ambient {
        color: Color::new(255, 255, 255),
        intensity: 16 * ONE,
    };
    let scene = Scene::new(
        forward_camera(2, 2),
        vec![Primitive::Sphere(sphere)],
        vec![bright, bright],
        Color::new(0, 0, 0),
    )
    .unwrap();
    assert_eq!(scene.trace(0, 1), Color::new(255, 255, 255));
}

#[test]
fn nearest_primitive_wins() {
    // Two spheres on the axis: the nearer one decides the shading point; a
    // point light sitting at the nearer hit gives full color, which would
    // be attenuated if the farther sphere were chosen.
    let near = Sphere::new(IVec3::new(0, 0, 5 * ONE), ONE).unwrap();
    let far = Sphere::new(IVec3::new(0, 0, 9 * ONE), ONE).unwrap();
    let light = Light::Point {
        origin: IVec3::new(0, 0, 4 * ONE),
        color: Color::new(88, 44, 22),
        intensity: ONE,
    };
    let scene = Scene::new(
        forward_camera(2, 2),
        vec![Primitive::Sphere(far), Primitive::Sphere(near)],
        vec![light],
        Color::new(0, 0, 0),
    )
    .unwrap();
    assert_eq!(scene.trace(0, 0), Color::new(88, 44, 22));
}

#[test]
fn miss_returns_background() {
    // The sphere sits behind the camera: every ray misses.
    let sphere = Sphere::new(IVec3::new(0, 0, -5 * ONE), ONE).unwrap();
    let scene = Scene::new(
        forward_camera(2, 2),
        vec![Primitive::Sphere(sphere)],
        Vec::new(),
        Color::new(9, 8, 7),
    )
    .unwrap();
    assert_eq!(scene.trace(0, 0), Color::new(9, 8, 7));
}
