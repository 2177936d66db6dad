//! The scene and the per-pixel tracer.
//!
//! A [`Scene`] is an immutable aggregate — a camera, a list of primitives,
//! a list of lights and a background color — borrowed read-only for the
//! duration of a render. [`Scene::trace`] casts one ray, keeps the nearest
//! reported hit over all primitives, and evaluates the lighting there; the
//! tie-break is deterministic: on an equal nearest parameter the primitive
//! earliest in the list wins. [`Scene::render`] fills a row-major
//! framebuffer, one color per pixel, each written exactly once.

use vstd::prelude::*;

verus! {

use vstd::arithmetic::div_mod::lemma_mod_division_less_than_divisor;
use vstd::arithmetic::div_mod::lemma_div_pos_is_pos;
use vstd::arithmetic::div_mod::lemma_multiply_divide_lt;
use crate::camera::Camera;
use crate::camera::ray_dir_spec;
use crate::color::Color;
use crate::error::ConfigurationError;
use crate::fixed::HIT_MAX;
use crate::fixed::RES_MAX;
use crate::fixed::lemma_mul_bound;
use crate::lighting::Light;
use crate::lighting::shade;
use crate::lighting::shade_spec;
use crate::primitives::Hit;
use crate::primitives::HitView;
use crate::primitives::Primitive;
use crate::ray::lemma_point_at_bounded;
use crate::structures::Vec3i;
use crate::structures::bounded;

/// The nearest reported hit over a list of primitives; on an equal nearest
/// parameter the primitive earliest in the list wins.
pub open spec fn nearest_hit_spec(prims: Seq<Primitive>, orig: Vec3i, dir: Vec3i) -> Option<
    HitView,
>
    decreases prims.len(),
{
    if prims.len() == 0 {
        None
    } else {
        let prefix = nearest_hit_spec(prims.drop_last(), orig, dir);
        let last_hits = prims.last().hits_spec(orig, dir);
        if last_hits.len() == 0 {
            prefix
        } else {
            match prefix {
                None => Some(last_hits[0]),
                Some(a) => if last_hits[0].t < a.t {
                    Some(last_hits[0])
                } else {
                    Some(a)
                },
            }
        }
    }
}

/// The color of one pixel: the background when nothing is hit, the lighting
/// at the nearest hit otherwise.
pub open spec fn trace_spec(s: Scene, px: int, py: int) -> Color {
    let dir = ray_dir_spec(s.camera, px, py);
    match nearest_hit_spec(s.primitives@, s.camera.position@, dir) {
        None => s.background,
        Some(h) => shade_spec(s.lights@, h.point),
    }
}

/// An immutable scene: one camera, the primitives, the lights, and the
/// background color returned where no primitive is hit.
pub struct Scene {
    pub camera: Camera,
    pub primitives: Vec<Primitive>,
    pub lights: Vec<Light>,
    pub background: Color,
}

impl Scene {
    /// Every part of the scene satisfies its construction invariant.
    pub open spec fn wf(&self) -> bool {
        &&& self.camera.wf()
        &&& forall|i: int|
            0 <= i < self.primitives@.len() ==> (#[trigger] self.primitives@[i]).wf()
        &&& forall|i: int| 0 <= i < self.lights@.len() ==> (#[trigger] self.lights@[i]).wf()
    }

    /// Assembles a scene, re-checking every invariant so that a fault is a
    /// configuration error here, before any pixel is processed.
    pub fn new(camera: Camera, primitives: Vec<Primitive>, lights: Vec<Light>, background: Color)
        -> (r: Result<Scene, ConfigurationError>)
        ensures
            r is Ok <==> ({
                &&& camera.wf()
                &&& forall|i: int| 0 <= i < primitives@.len() ==> (#[trigger] primitives@[i]).wf()
                &&& forall|i: int| 0 <= i < lights@.len() ==> (#[trigger] lights@[i]).wf()
            }),
            r is Ok ==> r->Ok_0 == (Scene { camera, primitives, lights, background }) && (
            r->Ok_0).wf(),
            r is Err ==> r == Err::<Scene, ConfigurationError>(ConfigurationError::InvalidScene),
    {
        if !camera.is_wf() {
            return Err(ConfigurationError::InvalidScene);
        }
        let mut j: usize = 0;
        while j < primitives.len()
            invariant
                j <= primitives@.len(),
                forall|i: int| 0 <= i < j ==> (#[trigger] primitives@[i]).wf(),
            decreases primitives@.len() - j,
        {
            if !primitives[j].is_wf() {
                return Err(ConfigurationError::InvalidScene);
            }
            j = j + 1;
        }
        let mut k: usize = 0;
        while k < lights.len()
            invariant
                k <= lights@.len(),
                forall|i: int| 0 <= i < k ==> (#[trigger] lights@[i]).wf(),
            decreases lights@.len() - k,
        {
            if !lights[k].is_wf() {
                return Err(ConfigurationError::InvalidScene);
            }
            k = k + 1;
        }
        Ok(Scene { camera, primitives, lights, background })
    }

    /// Traces the ray for one pixel and returns its color. A scene with no
    /// primitives yields the background color for every pixel.
    pub fn trace(&self, px: u32, py: u32) -> (c: Color)
        requires
            self.wf(),
            px < self.camera.width,
            py < self.camera.height,
        ensures
            c == trace_spec(*self, px as int, py as int),
            self.primitives@.len() == 0 ==> c == self.background,
    {
        let ray = self.camera.ray_for_pixel(px, py);
        let mut best: Option<Hit> = None;
        let mut j: usize = 0;
        while j < self.primitives.len()
            invariant
                j <= self.primitives@.len(),
                self.wf(),
                ray.wf(),
                ray.origin == self.camera.position,
                ray.direction@ == ray_dir_spec(self.camera, px as int, py as int),
                best is None ==> nearest_hit_spec(
                    self.primitives@.subrange(0, j as int),
                    ray.origin@,
                    ray.direction@,
                ) is None,
                best matches Some(h) ==> nearest_hit_spec(
                    self.primitives@.subrange(0, j as int),
                    ray.origin@,
                    ray.direction@,
                ) == Some(h@) && bounded(h.point@, HIT_MAX as int),
            decreases self.primitives@.len() - j,
        {
            let p = self.primitives[j];
            let hits = p.intersect(&ray);
            proof {
                assert(self.primitives@.subrange(0, j as int + 1).drop_last()
                    =~= self.primitives@.subrange(0, j as int));
                assert(self.primitives@.subrange(0, j as int + 1).last()
                    == self.primitives@[j as int]);
            }
            if hits.len() > 0 {
                let h = hits[0];
                proof {
                    assert(hits@.map_values(|x: Hit| x@)[0] == h@);
                    lemma_point_at_bounded(ray.origin@, ray.direction@, h@.t);
                }
                let take = match &best {
                    None => true,
                    Some(b) => h.t < b.t,
                };
                if take {
                    best = Some(h);
                }
            }
            j = j + 1;
        }
        proof {
            assert(self.primitives@.subrange(0, self.primitives@.len() as int)
                =~= self.primitives@);
        }
        match best {
            None => self.background,
            Some(h) => shade(&self.lights, &h.point),
        }
    }

    /// Renders the whole image: a row-major framebuffer of
    /// `width * height` colors, the pixel `(px, py)` at index
    /// `py * width + px`, each written exactly once. A scene with no
    /// primitives yields the background color everywhere.
    pub fn render(&self) -> (fb: Vec<Color>)
        requires
            self.wf(),
        ensures
            fb@.len() == self.camera.width as int * self.camera.height as int,
            forall|i: int|
                0 <= i < fb@.len() ==> #[trigger] fb@[i] == trace_spec(
                    *self,
                    i % (self.camera.width as int),
                    i / (self.camera.width as int),
                ),
            self.primitives@.len() == 0 ==> forall|i: int|
                0 <= i < fb@.len() ==> #[trigger] fb@[i] == self.background,
    {
        let w = self.camera.width;
        let h = self.camera.height;
        proof {
            lemma_mul_bound(w as int, h as int, RES_MAX as int, RES_MAX as int);
        }
        let total: usize = (w as usize) * (h as usize);
        let mut fb: Vec<Color> = Vec::new();
        let mut i: usize = 0;
        while i < total
            invariant
                self.wf(),
                w == self.camera.width,
                h == self.camera.height,
                total == w as int * h as int,
                i <= total,
                fb@.len() == i as int,
                forall|k: int|
                    0 <= k < i ==> #[trigger] fb@[k] == trace_spec(
                        *self,
                        k % (w as int),
                        k / (w as int),
                    ),
                self.primitives@.len() == 0 ==> forall|k: int|
                    0 <= k < i ==> #[trigger] fb@[k] == self.background,
            decreases total - i,
        {
            proof {
                lemma_mod_division_less_than_divisor(i as int, w as int);
                lemma_div_pos_is_pos(i as int, w as int);
                lemma_multiply_divide_lt(i as int, w as int, h as int);
            }
            let px = (i % (w as usize)) as u32;
            let py = (i / (w as usize)) as u32;
            let c = self.trace(px, py);
            fb.push(c);
            i = i + 1;
        }
        fb
    }
}

} // verus!
