//! The kinds of invalid configuration that construction rejects.

use vstd::prelude::*;

verus! {

/// Why a scene or render parameter was refused.
#[derive(Clone, Copy, Debug, PartialEq, Eq, Structural)]
pub enum ConfigError {
    /// A sphere's radius is not a positive number.
    Radius,
    /// A metal's fuzz is not a number from zero up to, but excluding, one.
    Fuzz,
    /// A dielectric's refractive index is not a positive number.
    RefractiveIndex,
    /// A viewport's height is not a positive number.
    ViewportHeight,
    /// A render was asked for without a single sample per pixel.
    SamplesPerPixel,
}

} // verus!
