//! The ways in which a diffuse surface picks the direction of a bounce.

use vstd::prelude::*;

verus! {

/// How a diffuse surface scatters a ray.
#[derive(Clone, Copy, Debug, PartialEq, Eq, Structural)]
pub enum DiffuseMethod {
    /// A point inside the unit sphere, turned into the hemisphere of the
    /// surface normal.
    BounceInHemisphere,
    /// The normal plus a point inside the unit sphere.
    LambertianApproximate,
    /// The normal plus a point on the surface of the unit sphere.
    TrueLambertian,
}

} // verus!
