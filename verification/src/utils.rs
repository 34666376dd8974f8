//! Decisions of the sampling routines: when a rejection loop accepts a
//! candidate, and how a draw from the unit ball is turned towards a normal.

use crate::scalar::Scalar;
use crate::vec3::Vec3;
use vstd::prelude::*;

verus! {

/// The acceptance test of rejection sampling in the unit ball and the unit
/// disk: a candidate is kept when its squared length is below one.
pub fn in_unit_ball(squared_length: Scalar) -> (r: bool)
    ensures
        r == squared_length.lt(Scalar::one()),
{
    squared_length.less(Scalar::one())
}

/// Confines a draw from the unit ball to the hemisphere around a normal.
/// `facing` is the dot product of the normal with the draw; the draw is kept
/// where that product is positive and mirrored otherwise.
pub fn random_in_hemisphere(in_unit_sphere: Vec3, facing: Scalar) -> (v: Vec3)
    ensures
        v == if Scalar::zero().lt(facing) {
            in_unit_sphere
        } else {
            in_unit_sphere.negated()
        },
{
    if Scalar::zero().less(facing) {
        in_unit_sphere
    } else {
        in_unit_sphere.neg()
    }
}

} // verus!
