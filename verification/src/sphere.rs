//! The sphere primitive.

use crate::config::ConfigError;
use crate::material::Material;
use crate::scalar::Scalar;
use crate::vec3::Vec3;
use vstd::prelude::*;

verus! {

/// A sphere and the material it owns.
#[derive(Clone, Copy, Debug)]
pub struct Sphere {
    pub center: Vec3,
    pub radius: Scalar,
    pub material: Material,
}

impl Sphere {
    /// The radius is positive and the material's parameters are in range.
    pub open spec fn valid(self) -> bool {
        Scalar::zero().lt(self.radius) && self.material.valid()
    }

    /// A sphere, refused unless `radius > 0`.
    pub fn new(center: Vec3, radius: Scalar, material: Material) -> (r: Result<Sphere, ConfigError>)
        ensures
            Scalar::zero().lt(radius) ==> r == Ok::<Sphere, ConfigError>(
                Sphere { center, radius, material },
            ),
            !Scalar::zero().lt(radius) ==> r == Err::<Sphere, ConfigError>(ConfigError::Radius),
    {
        if Scalar::zero().less(radius) {
            Ok(Sphere { center, radius, material })
        } else {
            Err(ConfigError::Radius)
        }
    }
}

} // verus!
