//! Light sources and the lighting evaluation at a hit point.
//!
//! The shading model, fixed here as a documented design choice: shading
//! starts from nothing and adds, per channel, each light's contribution,
//! capping the running sum at 255. An ambient light contributes its color
//! scaled by its intensity, independent of position. A point light
//! contributes its color scaled by `intensity / (1 + d2)`, where `d2` is
//! the squared distance from the hit point to the light — an inverse-square
//! falloff with no angle term and no shadow rays.

use vstd::prelude::*;

verus! {

use crate::color::Color;
use crate::fixed::COORD_MAX;
use crate::fixed::HIT_MAX;
use crate::fixed::INTENSITY_MAX;
use crate::fixed::SCALE;
use crate::fixed::div_i64;
use crate::fixed::iabs;
use crate::fixed::lemma_mul_bound;
use crate::fixed::lemma_tdiv_bounds;
use crate::fixed::lemma_tdiv_quotient_bound;
use crate::fixed::tdiv;
use crate::structures::IVec3;
use crate::structures::Vec3i;
use crate::structures::bounded;
use crate::structures::dot_spec;
use crate::structures::lemma_dot_bound;
use crate::structures::lemma_dot_self_nonneg;
use crate::structures::vsub;

/// A light source: an ambient term, or a point light.
#[derive(Clone, Copy, Debug, PartialEq, Eq, Structural)]
pub enum Light {
    /// An ambient term: a color and an intensity, no position.
    Ambient { color: Color, intensity: i32 },
    /// A point light at `origin`.
    Point { origin: IVec3, color: Color, intensity: i32 },
}

impl Light {
    /// The construction-time invariant: a non-negative, bounded intensity
    /// (a fixed-point scalar) and in-range coordinates.
    pub open spec fn wf(&self) -> bool {
        match *self {
            Light::Ambient { color, intensity } => 0 <= intensity <= INTENSITY_MAX,
            Light::Point { origin, color, intensity } => 0 <= intensity <= INTENSITY_MAX
                && bounded(origin@, COORD_MAX as int),
        }
    }

    /// The runtime counterpart of [`Light::wf`].
    pub fn is_wf(&self) -> (b: bool)
        ensures
            b == self.wf(),
    {
        match self {
            Light::Ambient { color: _, intensity } => {
                0 <= *intensity && *intensity as i64 <= INTENSITY_MAX
            },
            Light::Point { origin, color: _, intensity } => {
                0 <= *intensity && *intensity as i64 <= INTENSITY_MAX && origin.in_range(COORD_MAX)
            },
        }
    }

    /// The color of the light.
    pub open spec fn color_spec(&self) -> Color {
        match *self {
            Light::Ambient { color, intensity } => color,
            Light::Point { origin, color, intensity } => color,
        }
    }
}

/// The fixed-point factor by which a light's color is scaled at the point
/// `p`: the intensity itself for an ambient light, and the intensity
/// attenuated by `1 / (1 + d2)` for a point light at squared distance `d2`.
pub open spec fn light_factor_spec(l: Light, p: Vec3i) -> int {
    match l {
        Light::Ambient { color, intensity } => intensity as int,
        Light::Point { origin, color, intensity } => {
            let d2 = tdiv(dot_spec(vsub(p, origin@), vsub(p, origin@)), SCALE as int);
            tdiv(intensity as int * SCALE as int, SCALE as int + d2)
        },
    }
}

/// One channel of a color, selected by index: `0` is red, `1` is green,
/// anything else is blue.
pub open spec fn channel_of(c: Color, i: int) -> u8 {
    if i == 0 {
        c.r
    } else if i == 1 {
        c.g
    } else {
        c.b
    }
}

/// One light's contribution to one channel at the point `p`.
pub open spec fn contrib_spec(l: Light, p: Vec3i, i: int) -> int {
    tdiv(channel_of(l.color_spec(), i) as int * light_factor_spec(l, p), SCALE as int)
}

/// Adds a contribution to a running channel sum, capping at 255.
pub open spec fn cap_add(acc: int, c: int) -> int {
    if acc + c > 255 {
        255
    } else {
        acc + c
    }
}

/// The value of one channel after every light has contributed, in order.
pub open spec fn shade_fold(lights: Seq<Light>, p: Vec3i, i: int) -> int
    decreases lights.len(),
{
    if lights.len() == 0 {
        0
    } else {
        cap_add(shade_fold(lights.drop_last(), p, i), contrib_spec(lights.last(), p, i))
    }
}

/// The color produced by evaluating every light at the point `p`.
pub open spec fn shade_spec(lights: Seq<Light>, p: Vec3i) -> Color {
    Color {
        r: shade_fold(lights, p, 0) as u8,
        g: shade_fold(lights, p, 1) as u8,
        b: shade_fold(lights, p, 2) as u8,
    }
}

/// A well-formed light's factor is a fixed-point scalar in
/// `[0, INTENSITY_MAX]`.
pub proof fn lemma_light_factor_range(l: Light, p: Vec3i)
    requires
        l.wf(),
    ensures
        0 <= light_factor_spec(l, p) <= INTENSITY_MAX as int,
{
    match l {
        Light::Ambient { color, intensity } => {},
        Light::Point { origin, color, intensity } => {
            let diff = vsub(p, origin@);
            lemma_dot_self_nonneg(diff);
            lemma_tdiv_bounds(dot_spec(diff, diff), SCALE as int);
            let d2 = tdiv(dot_spec(diff, diff), SCALE as int);
            lemma_tdiv_bounds(intensity as int * SCALE as int, SCALE as int + d2);
            assert(iabs(intensity as int * SCALE as int) <= intensity as int * (SCALE as int + d2))
                by (nonlinear_arith)
                requires
                    intensity >= 0,
                    d2 >= 0,
            ;
            lemma_tdiv_quotient_bound(
                intensity as int * SCALE as int,
                SCALE as int + d2,
                intensity as int,
            );
        },
    }
}

/// One light's channel contribution is non-negative.
pub proof fn lemma_contrib_nonneg(l: Light, p: Vec3i, i: int)
    requires
        l.wf(),
    ensures
        0 <= contrib_spec(l, p, i),
{
    lemma_light_factor_range(l, p);
    let c = channel_of(l.color_spec(), i);
    assert(c as int * light_factor_spec(l, p) >= 0) by (nonlinear_arith)
        requires
            c >= 0,
            light_factor_spec(l, p) >= 0,
    ;
    lemma_tdiv_bounds(c as int * light_factor_spec(l, p), SCALE as int);
}

/// The summed lighting of well-formed lights stays within `[0, 255]` per
/// channel: the clamp in [`cap_add`] never lets a channel escape its range,
/// so the casts in [`shade_spec`] are exact.
pub proof fn lemma_shade_fold_range(lights: Seq<Light>, p: Vec3i, i: int)
    requires
        forall|j: int| 0 <= j < lights.len() ==> (#[trigger] lights[j]).wf(),
    ensures
        0 <= shade_fold(lights, p, i) <= 255,
    decreases lights.len(),
{
    if lights.len() > 0 {
        lemma_shade_fold_range(lights.drop_last(), p, i);
        lemma_contrib_nonneg(lights.last(), p, i);
    }
}

/// The runtime counterpart of [`light_factor_spec`].
fn light_factor(l: &Light, p: &IVec3) -> (f: i64)
    requires
        l.wf(),
        bounded(p@, HIT_MAX as int),
    ensures
        f == light_factor_spec(*l, p@),
        0 <= f <= INTENSITY_MAX,
{
    proof {
        lemma_light_factor_range(*l, p@);
    }
    match l {
        Light::Ambient { color: _, intensity } => *intensity as i64,
        Light::Point { origin, color: _, intensity } => {
            let diff = p.sub(*origin);
            proof {
                lemma_dot_self_nonneg(diff@);
                lemma_dot_bound(diff@, diff@, 0x1110_0000, 0x1110_0000);
                lemma_tdiv_bounds(dot_spec(diff@, diff@), SCALE as int);
            }
            let dd = diff.dot_wide(&diff);
            let d2 = div_i64(dd, SCALE);
            div_i64((*intensity as i64) * SCALE, SCALE + d2)
        },
    }
}

/// One light's contribution to one channel: `c * factor / SCALE`.
fn channel_contrib(c: u8, f: i64) -> (r: i64)
    requires
        0 <= f <= INTENSITY_MAX,
    ensures
        r == tdiv(c as int * f as int, SCALE as int),
        0 <= r <= 0x100_0000,
{
    proof {
        lemma_mul_bound(c as int, f as int, 255, INTENSITY_MAX as int);
        lemma_tdiv_bounds(c as int * f as int, SCALE as int);
        assert(c as int * f as int >= 0) by (nonlinear_arith)
            requires
                c >= 0,
                f >= 0,
        ;
    }
    div_i64((c as i64) * f, SCALE)
}

/// Adds a contribution to a running channel sum, capping at 255.
fn cap_add_exec(acc: i64, c: i64) -> (r: i64)
    requires
        0 <= acc <= 255,
        0 <= c <= 0x100_0000,
    ensures
        r == cap_add(acc as int, c as int),
        0 <= r <= 255,
{
    if acc + c > 255 {
        255
    } else {
        acc + c
    }
}

/// Evaluates the lighting at the point `p`: every light's contribution is
/// added per channel, in list order, capping at 255. See the module doc
/// for the model.
pub fn shade(lights: &Vec<Light>, p: &IVec3) -> (c: Color)
    requires
        forall|j: int| 0 <= j < lights@.len() ==> (#[trigger] lights@[j]).wf(),
        bounded(p@, HIT_MAX as int),
    ensures
        c == shade_spec(lights@, p@),
{
    let mut r: i64 = 0;
    let mut g: i64 = 0;
    let mut b: i64 = 0;
    let mut j: usize = 0;
    while j < lights.len()
        invariant
            0 <= j <= lights@.len(),
            forall|k: int| 0 <= k < lights@.len() ==> (#[trigger] lights@[k]).wf(),
            bounded(p@, HIT_MAX as int),
            r == shade_fold(lights@.subrange(0, j as int), p@, 0),
            g == shade_fold(lights@.subrange(0, j as int), p@, 1),
            b == shade_fold(lights@.subrange(0, j as int), p@, 2),
            0 <= r <= 255,
            0 <= g <= 255,
            0 <= b <= 255,
        decreases lights@.len() - j,
    {
        let l = lights[j];
        let f = light_factor(&l, p);
        let color = match &l {
            Light::Ambient { color, intensity: _ } => *color,
            Light::Point { origin: _, color, intensity: _ } => *color,
        };
        let cr = channel_contrib(color.r, f);
        let cg = channel_contrib(color.g, f);
        let cb = channel_contrib(color.b, f);
        r = cap_add_exec(r, cr);
        g = cap_add_exec(g, cg);
        b = cap_add_exec(b, cb);
        proof {
            assert(lights@.subrange(0, j + 1 as int).drop_last() =~= lights@.subrange(
                0,
                j as int,
            ));
            assert(lights@.subrange(0, j + 1 as int).last() == lights@[j as int]);
        }
        j = j + 1;
    }
    proof {
        assert(lights@.subrange(0, lights@.len() as int) =~= lights@);
    }
    Color::new(r as u8, g as u8, b as u8)
}

} // verus!
