//! Geometric kernel of a ray tracer.
//!
//! All geometry is carried out on three-component integer vectors
//! ([`structures::IVec3`]) whose components are interpreted as fixed-point
//! numbers scaled by [`fixed::SCALE`]: the stored integer `c` stands for the
//! real number `c / SCALE`. Working on integers keeps every operation exact
//! and lets each function state precisely what it returns; values that fall
//! outside the representable range are treated as a numeric anomaly and
//! resolved locally as "no intersection", never by panicking.
//!
//! The modules, leaves first: [`fixed`] holds the scalar fixed-point
//! arithmetic (truncating division, integer square root), [`structures`] the
//! vector algebra, [`color`] the 8-bit output color, [`ray`] rays and
//! point-at-parameter evaluation, [`primitives`] the sphere and bounded-plane
//! intersection tests, [`lighting`] the light model, [`camera`] per-pixel ray
//! generation, and [`render`] the scene and the per-pixel tracer.

pub mod camera;
pub mod color;
pub mod error;
pub mod fixed;
pub mod lighting;
pub mod primitives;
pub mod ray;
pub mod render;
pub mod structures;
