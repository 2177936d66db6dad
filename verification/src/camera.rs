//! Per-pixel camera ray generation.
//!
//! A camera has a position, a unit facing direction, a field-of-view scale
//! (the tangent of half the field of view, a fixed-point value computed by
//! the caller), and an output resolution. For a pixel, its center is mapped
//! to normalized device coordinates, then to screen space
//! `(1 - 2 * ndc.x, 1 - 2 * ndc.y)`, then scaled by the aspect ratio and
//! the field-of-view scale, and finally combined with a screen basis built
//! from the facing direction and the fixed world up axis `(0, 1, 0)`:
//! `world = right * cam.x + up * cam.y + facing`, normalized.
//!
//! Two degeneracies are resolved locally and documented here: when the
//! facing direction is parallel to the world up axis the screen basis
//! collapses to zero and every ray follows the facing direction; and when
//! the combined world vector cancels to zero it cannot be normalized, and
//! the ray falls back to the facing direction.

use vstd::prelude::*;

verus! {

use crate::error::ConfigurationError;
use crate::fixed::COORD_MAX;
use crate::fixed::FOV_MAX;
use crate::fixed::RES_MAX;
use crate::fixed::SCALE;
use crate::fixed::div_i64;
use crate::fixed::iabs;
use crate::fixed::lemma_mul_bound;
use crate::fixed::lemma_tdiv_bounds;
use crate::fixed::lemma_tdiv_quotient_bound;
use crate::fixed::tdiv;
use crate::ray::Ray;
use crate::structures::IVec3;
use crate::structures::Vec3i;
use crate::structures::bounded;
use crate::structures::cross_spec;
use crate::structures::dot_spec;
use crate::structures::lemma_cross_bound;
use crate::structures::lemma_normalize_bounded;
use crate::structures::lemma_normalize_nonzero;
use crate::structures::lemma_normalize_unit_identity;
use crate::structures::normalize_spec;
use crate::structures::vadd;
use crate::structures::vdiv_scale;
use crate::structures::vscale;
use crate::structures::vzero;

/// The fixed world up axis, one unit along `y`.
pub open spec fn up_axis() -> Vec3i {
    Vec3i { x: 0, y: SCALE as int, z: 0 }
}

/// A camera: position, unit facing direction, field-of-view scale and
/// output resolution.
#[derive(Clone, Copy, Debug, PartialEq, Eq, Structural)]
pub struct Camera {
    pub position: IVec3,
    pub direction: IVec3,
    pub fov_scale: i32,
    pub width: u32,
    pub height: u32,
}

/// The direction of the ray cast for the pixel `(px, py)`; see the module
/// doc for the mapping.
pub open spec fn ray_dir_spec(cam: Camera, px: int, py: int) -> Vec3i {
    let aspect = tdiv(cam.width as int * SCALE as int, cam.height as int);
    let sx = SCALE as int - tdiv((2 * px + 1) * SCALE as int, cam.width as int);
    let sy = SCALE as int - tdiv((2 * py + 1) * SCALE as int, cam.height as int);
    let cx = tdiv(tdiv(sx * aspect, SCALE as int) * cam.fov_scale as int, SCALE as int);
    let cy = tdiv(sy * cam.fov_scale as int, SCALE as int);
    let right = vdiv_scale(cross_spec(cam.direction@, up_axis()), SCALE as int);
    let upv = vdiv_scale(cross_spec(right, cam.direction@), SCALE as int);
    let world = vadd(
        vadd(
            vdiv_scale(vscale(right, cx), SCALE as int),
            vdiv_scale(vscale(upv, cy), SCALE as int),
        ),
        cam.direction@,
    );
    if world == vzero() {
        cam.direction@
    } else {
        normalize_spec(world)
    }
}

impl Camera {
    /// The construction-time invariant: in-range coordinates, a non-zero
    /// unit-scaled facing, a non-negative bounded field-of-view scale, and
    /// a positive bounded resolution.
    pub open spec fn wf(&self) -> bool {
        bounded(self.position@, COORD_MAX as int) && bounded(self.direction@, SCALE as int)
            && self.direction@ != vzero() && 0 <= self.fov_scale <= FOV_MAX && 0 < self.width
            <= RES_MAX && 0 < self.height <= RES_MAX
    }

    /// The runtime counterpart of [`Camera::wf`].
    pub fn is_wf(&self) -> (b: bool)
        ensures
            b == self.wf(),
    {
        0 < self.width && self.width <= RES_MAX && 0 < self.height && self.height <= RES_MAX
            && self.position.in_range(COORD_MAX) && self.direction.in_range(SCALE) && !(
        self.direction.x == 0 && self.direction.y == 0 && self.direction.z == 0) && 0
            <= self.fov_scale && self.fov_scale as i64 <= FOV_MAX
    }

    /// Builds a camera, normalizing the facing direction and rejecting a
    /// zero resolution, an oversized resolution, out-of-range coordinates,
    /// an out-of-range field-of-view scale, and a zero-length direction —
    /// all before any pixel is processed.
    pub fn new(position: IVec3, direction: IVec3, fov_scale: i32, width: u32, height: u32) -> (r:
        Result<Camera, ConfigurationError>)
        ensures
            r is Ok <==> (0 < width <= RES_MAX && 0 < height <= RES_MAX && bounded(
                position@,
                COORD_MAX as int,
            ) && bounded(direction@, COORD_MAX as int) && 0 <= fov_scale <= FOV_MAX && direction@
                != vzero()),
            width == 0 || height == 0 ==> r == Err::<Camera, ConfigurationError>(
                ConfigurationError::ZeroResolution,
            ),
            0 < width && 0 < height && (width > RES_MAX || height > RES_MAX) ==> r == Err::<
                Camera,
                ConfigurationError,
            >(ConfigurationError::ResolutionTooLarge),
            0 < width <= RES_MAX && 0 < height <= RES_MAX && !(bounded(position@, COORD_MAX as int)
                && bounded(direction@, COORD_MAX as int)) ==> r == Err::<
                Camera,
                ConfigurationError,
            >(ConfigurationError::CoordinateOutOfRange),
            0 < width <= RES_MAX && 0 < height <= RES_MAX && bounded(position@, COORD_MAX as int)
                && bounded(direction@, COORD_MAX as int) && !(0 <= fov_scale <= FOV_MAX) ==> r
                == Err::<Camera, ConfigurationError>(ConfigurationError::FovOutOfRange),
            0 < width <= RES_MAX && 0 < height <= RES_MAX && bounded(position@, COORD_MAX as int)
                && bounded(direction@, COORD_MAX as int) && 0 <= fov_scale <= FOV_MAX && direction@
                == vzero() ==> r == Err::<Camera, ConfigurationError>(
                ConfigurationError::DegenerateVector,
            ),
            r is Ok ==> (r->Ok_0).wf() && (r->Ok_0).position == position && (
            r->Ok_0).direction@ == normalize_spec(direction@) && (r->Ok_0).fov_scale == fov_scale
                && (r->Ok_0).width == width && (r->Ok_0).height == height,
    {
        if width == 0 || height == 0 {
            return Err(ConfigurationError::ZeroResolution);
        }
        if width > RES_MAX || height > RES_MAX {
            return Err(ConfigurationError::ResolutionTooLarge);
        }
        if !position.in_range(COORD_MAX) || !direction.in_range(COORD_MAX) {
            return Err(ConfigurationError::CoordinateOutOfRange);
        }
        if fov_scale < 0 || fov_scale as i64 > FOV_MAX {
            return Err(ConfigurationError::FovOutOfRange);
        }
        proof {
            if direction@ != vzero() {
                lemma_normalize_nonzero(direction@);
            }
        }
        match direction.normalize() {
            Err(e) => Err(e),
            Ok(d) => Ok(Camera { position, direction: d, fov_scale, width, height }),
        }
    }

    /// Generates the world-space ray for the pixel `(px, py)`: origin at
    /// the camera position, direction by the mapping in the module doc.
    pub fn ray_for_pixel(&self, px: u32, py: u32) -> (r: Ray)
        requires
            self.wf(),
            px < self.width,
            py < self.height,
        ensures
            r.origin == self.position,
            r.direction@ == ray_dir_spec(*self, px as int, py as int),
            r.wf(),
    {
        let w = self.width as i64;
        let h = self.height as i64;
        proof {
            lemma_tdiv_bounds(w as int * SCALE as int, h as int);
            assert(w as int * SCALE as int <= 0x40_0000int * h as int) by (nonlinear_arith)
                requires
                    0 < w as int <= 0x4000,
                    1 <= h as int,
                    SCALE as int == 256,
            ;
            lemma_tdiv_quotient_bound(w as int * SCALE as int, h as int, 0x40_0000);
        }
        let aspect = div_i64(w * SCALE, h);
        let sx = screen_coord(px, self.width);
        let sy = screen_coord(py, self.height);
        proof {
            lemma_mul_bound(sx as int, aspect as int, 256, 0x40_0000);
            lemma_tdiv_quotient_bound(sx as int * aspect as int, SCALE as int, 0x40_0000);
        }
        let t1 = div_i64(sx * aspect, SCALE);
        let fov = self.fov_scale as i64;
        proof {
            lemma_mul_bound(t1 as int, fov as int, 0x40_0000, 0x1000);
            lemma_tdiv_quotient_bound(t1 as int * fov as int, SCALE as int, 0x4_0000_00);
            lemma_mul_bound(sy as int, fov as int, 256, 0x1000);
            lemma_tdiv_quotient_bound(sy as int * fov as int, SCALE as int, 0x1000);
        }
        let cx = div_i64(t1 * fov, SCALE);
        let cy = div_i64(sy * fov, SCALE);
        let up_world = IVec3::new(0, SCALE as i32, 0);
        proof {
            assert(up_world@ == up_axis());
            lemma_cross_bound(self.direction@, up_axis(), 256, 256);
        }
        let rt_raw = self.direction.cross(up_world);
        proof {
            lemma_tdiv_quotient_bound(rt_raw@.x, SCALE as int, 512);
            lemma_tdiv_quotient_bound(rt_raw@.y, SCALE as int, 512);
            lemma_tdiv_quotient_bound(rt_raw@.z, SCALE as int, 512);
        }
        let right = rt_raw.div_scalar(SCALE as i32);
        proof {
            lemma_cross_bound(right@, self.direction@, 512, 256);
        }
        let up_raw = right.cross(self.direction);
        proof {
            lemma_tdiv_quotient_bound(up_raw@.x, SCALE as int, 1024);
            lemma_tdiv_quotient_bound(up_raw@.y, SCALE as int, 1024);
            lemma_tdiv_quotient_bound(up_raw@.z, SCALE as int, 1024);
        }
        let upv = up_raw.div_scalar(SCALE as i32);
        let wx = world_coord(right.x, cx, upv.x, cy, self.direction.x);
        let wy = world_coord(right.y, cx, upv.y, cy, self.direction.y);
        let wz = world_coord(right.z, cx, upv.z, cy, self.direction.z);
        let world = IVec3 { x: wx, y: wy, z: wz };
        proof {
            if world@ != vzero() {
                lemma_normalize_bounded(world@);
            }
        }
        let dir = match world.normalize() {
            Ok(d) => d,
            Err(_) => self.direction,
        };
        Ray { origin: self.position, direction: dir }
    }
}

/// The screen-space coordinate of a pixel center: `1 - 2 * (p + 0.5) / n`
/// in fixed-point units; it lies in `[-1, 1]`.
fn screen_coord(p: u32, n: u32) -> (s: i64)
    requires
        p < n,
        n <= RES_MAX,
    ensures
        s == SCALE as int - tdiv((2 * p as int + 1) * SCALE as int, n as int),
        -(SCALE as int) <= s <= SCALE as int,
{
    proof {
        lemma_tdiv_bounds((2 * p as int + 1) * SCALE as int, n as int);
        assert((2 * p as int + 1) * SCALE as int <= 2 * SCALE as int * n as int
            && 0 <= (2 * p as int + 1) * SCALE as int) by (nonlinear_arith)
            requires
                0 <= p as int,
                (p as int) < (n as int),
                SCALE as int == 256,
        ;
        lemma_tdiv_quotient_bound((2 * p as int + 1) * SCALE as int, n as int, 2 * SCALE as int);
    }
    let q = div_i64((2 * (p as i64) + 1) * SCALE, n as i64);
    SCALE - q
}

/// One coordinate of the combined world direction:
/// `right * cx / SCALE + up * cy / SCALE + facing`.
fn world_coord(rc: i32, cx: i64, uc: i32, cy: i64, dc: i32) -> (r: i32)
    requires
        iabs(rc as int) <= 512,
        iabs(cx as int) <= 0x4_0000_00,
        iabs(uc as int) <= 1024,
        iabs(cy as int) <= 0x1000,
        iabs(dc as int) <= SCALE as int,
    ensures
        r == tdiv(rc as int * cx, SCALE as int) + tdiv(uc as int * cy, SCALE as int) + dc,
        iabs(r as int) <= 0x1000_0000,
{
    proof {
        lemma_mul_bound(rc as int, cx as int, 512, 0x4_0000_00);
        lemma_tdiv_quotient_bound(rc as int * cx as int, SCALE as int, 0x800_0000);
        lemma_mul_bound(uc as int, cy as int, 1024, 0x1000);
        lemma_tdiv_quotient_bound(uc as int * cy as int, SCALE as int, 0x4000);
    }
    let a = div_i64((rc as i64) * cx, SCALE);
    let b = div_i64((uc as i64) * cy, SCALE);
    (a + b + (dc as i64)) as i32
}

/// With a zero field-of-view scale the screen offsets vanish, so every
/// pixel's ray direction is the camera's facing direction exactly —
/// provided the facing is exactly unit length, so that renormalizing fixes
/// it.
pub proof fn lemma_zero_fov_ray_matches_facing(cam: Camera, px: int, py: int)
    requires
        cam.wf(),
        cam.fov_scale == 0,
        dot_spec(cam.direction@, cam.direction@) == SCALE as int * SCALE as int,
    ensures
        ray_dir_spec(cam, px, py) == cam.direction@,
{
    let aspect = tdiv(cam.width as int * SCALE as int, cam.height as int);
    let sx = SCALE as int - tdiv((2 * px + 1) * SCALE as int, cam.width as int);
    let sy = SCALE as int - tdiv((2 * py + 1) * SCALE as int, cam.height as int);
    let t1 = tdiv(sx * aspect, SCALE as int);
    assert(t1 * 0int == 0 && sy * 0int == 0) by (nonlinear_arith);
    let right = vdiv_scale(cross_spec(cam.direction@, up_axis()), SCALE as int);
    let upv = vdiv_scale(cross_spec(right, cam.direction@), SCALE as int);
    assert(right.x * 0int == 0 && right.y * 0int == 0 && right.z * 0int == 0 && upv.x * 0int == 0
        && upv.y * 0int == 0 && upv.z * 0int == 0) by (nonlinear_arith);
    let world = vadd(
        vadd(
            vdiv_scale(vscale(right, 0), SCALE as int),
            vdiv_scale(vscale(upv, 0), SCALE as int),
        ),
        cam.direction@,
    );
    assert(world == cam.direction@);
    assert(ray_dir_spec(cam, px, py) == normalize_spec(cam.direction@));
    lemma_normalize_unit_identity(cam.direction@);
}

} // verus!
