//! The error taxonomy.
//!
//! A [`ConfigurationError`] is fatal and is raised while a scene is being
//! put together, before any pixel is processed. Per-ray conditions
//! (a ray parallel to a plane, a degenerate barycentric solve, a value that
//! leaves the representable range) are never errors: the intersection tests
//! resolve them locally by reporting no intersection.

use vstd::prelude::*;

verus! {

/// A fatal configuration fault, detected at construction time.
#[derive(Clone, Copy, Debug, PartialEq, Eq, Structural)]
pub enum ConfigurationError {
    /// A zero-length vector was given where a direction is required.
    DegenerateVector,
    /// An image width or height of zero pixels.
    ZeroResolution,
    /// An image width or height beyond the supported maximum.
    ResolutionTooLarge,
    /// A sphere radius that is zero or negative.
    NonPositiveRadius,
    /// Plane edge vectors whose cross product is the zero vector.
    DegeneratePlane,
    /// A coordinate beyond the supported fixed-point range.
    CoordinateOutOfRange,
    /// A field-of-view scale that is negative or beyond the supported range.
    FovOutOfRange,
    /// A scene element that does not satisfy its construction invariant.
    InvalidScene,
}

} // verus!
