//! The camera's frame.

use crate::config::ConfigError;
use crate::scalar::Scalar;
use crate::vec3::Vec3;
use vstd::prelude::*;

verus! {

/// The frame through which rays are cast: the eye, the two edges of the
/// viewport, and the viewport's lower left corner.
#[derive(Clone, Copy, Debug)]
pub struct Camera {
    pub origin: Vec3,
    pub horizontal: Vec3,
    pub vertical: Vec3,
    pub lower_left_corner: Vec3,
}

impl Camera {
    /// A camera from its resolved frame.
    pub fn new(origin: Vec3, horizontal: Vec3, vertical: Vec3, lower_left_corner: Vec3) -> (c:
        Camera)
        ensures
            c == (Camera { origin, horizontal, vertical, lower_left_corner }),
    {
        Camera { origin, horizontal, vertical, lower_left_corner }
    }

    /// Accepts the height of a viewport, which must be positive.
    pub fn check_viewport_height(viewport_height: Scalar) -> (r: Result<(), ConfigError>)
        ensures
            Scalar::zero().lt(viewport_height) ==> r == Ok::<(), ConfigError>(()),
            !Scalar::zero().lt(viewport_height) ==> r == Err::<(), ConfigError>(
                ConfigError::ViewportHeight,
            ),
    {
        if Scalar::zero().less(viewport_height) {
            Ok(())
        } else {
            Err(ConfigError::ViewportHeight)
        }
    }
}

} // verus!
