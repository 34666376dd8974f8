//! The three surface materials, their valid parameter ranges, and the
//! choice a transparent surface makes between reflecting and refracting.

use crate::config::ConfigError;
use crate::scalar::Scalar;
use crate::vec3::Vec3;
use vstd::prelude::*;

verus! {

/// A diffuse surface that attenuates by its albedo.
#[derive(Clone, Copy, Debug)]
pub struct Lambertian {
    pub albedo: Vec3,
}

/// A mirror whose reflection is blurred by `fuzz`.
#[derive(Clone, Copy, Debug)]
pub struct Metal {
    pub albedo: Vec3,
    pub fuzz: Scalar,
}

/// A clear surface with refractive index `ir`.
#[derive(Clone, Copy, Debug)]
pub struct Dielectric {
    pub ir: Scalar,
}

/// The material of a primitive.
#[derive(Clone, Copy, Debug)]
pub enum Material {
    Lambertian(Lambertian),
    Metal(Metal),
    Dielectric(Dielectric),
}

impl Lambertian {
    /// A diffuse material; every albedo is accepted.
    pub fn new(albedo: Vec3) -> (m: Lambertian)
        ensures
            m.albedo == albedo,
    {
        Lambertian { albedo }
    }
}

impl Metal {
    /// The fuzz lies in the half-open interval from zero to one.
    pub open spec fn valid(self) -> bool {
        !self.fuzz.lt(Scalar::zero()) && self.fuzz.lt(Scalar::one())
    }

    /// A metal, refused unless `0 <= fuzz < 1`.
    pub fn new(albedo: Vec3, fuzz: Scalar) -> (r: Result<Metal, ConfigError>)
        ensures
            (Metal { albedo, fuzz }).valid() ==> r == Ok::<Metal, ConfigError>(
                Metal { albedo, fuzz },
            ),
            !(Metal { albedo, fuzz }).valid() ==> r == Err::<Metal, ConfigError>(
                ConfigError::Fuzz,
            ),
    {
        if !fuzz.less(Scalar::zero()) && fuzz.less(Scalar::one()) {
            Ok(Metal { albedo, fuzz })
        } else {
            Err(ConfigError::Fuzz)
        }
    }
}

impl Dielectric {
    /// The refractive index is positive.
    pub open spec fn valid(self) -> bool {
        Scalar::zero().lt(self.ir)
    }

    /// The rule by which a ray at a clear surface reflects instead of
    /// refracting. `sine_term` is the refraction ratio times the sine of the
    /// angle of incidence: above one, refraction has no solution. Otherwise
    /// the ray reflects when the uniform `draw` falls below `reflectance`.
    pub open spec fn must_reflect(sine_term: Scalar, reflectance: Scalar, draw: Scalar) -> bool {
        Scalar::one().lt(sine_term) || draw.lt(reflectance)
    }

    /// A dielectric, refused unless `ir > 0`.
    pub fn new(ir: Scalar) -> (r: Result<Dielectric, ConfigError>)
        ensures
            (Dielectric { ir }).valid() ==> r == Ok::<Dielectric, ConfigError>(Dielectric { ir }),
            !(Dielectric { ir }).valid() ==> r == Err::<Dielectric, ConfigError>(
                ConfigError::RefractiveIndex,
            ),
    {
        if Scalar::zero().less(ir) {
            Ok(Dielectric { ir })
        } else {
            Err(ConfigError::RefractiveIndex)
        }
    }

    /// Decides between reflection (`true`) and refraction (`false`).
    pub fn reflects(sine_term: Scalar, reflectance: Scalar, draw: Scalar) -> (r: bool)
        ensures
            r == Dielectric::must_reflect(sine_term, reflectance, draw),
    {
        Scalar::one().less(sine_term) || draw.less(reflectance)
    }
}

impl Material {
    /// The parameters lie in the ranges their constructors accept.
    pub open spec fn valid(self) -> bool {
        match self {
            Material::Lambertian(_) => true,
            Material::Metal(m) => m.valid(),
            Material::Dielectric(d) => d.valid(),
        }
    }
}

} // verus!
