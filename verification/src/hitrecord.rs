//! The record of one intersection and the choice between the two roots of
//! a ray against a sphere.

use crate::scalar::Scalar;
use crate::vec3::Vec3;
use vstd::prelude::*;

verus! {

/// What is known of a ray striking a surface: where, with which normal, at
/// which ray parameter, from which side, and on which primitive's material.
#[derive(Clone, Copy, Debug)]
pub struct HitRecord {
    pub p: Vec3,
    pub normal: Vec3,
    pub t: Scalar,
    pub front_face: bool,
    /// Index, in the scene, of the primitive whose material was struck.
    pub material: usize,
}

impl HitRecord {
    /// A record with the geometric outward normal, taken as front-facing
    /// until `set_face_normal` has looked at the ray.
    pub fn new(p: Vec3, normal: Vec3, t: Scalar, material: usize) -> (rec: HitRecord)
        ensures
            rec == (HitRecord { p, normal, t, front_face: true, material }),
    {
        HitRecord { p, normal, t, front_face: true, material }
    }

    /// Orients the normal against the incoming ray. `facing` is the dot
    /// product of the stored normal with the ray's direction. The hit is on
    /// the front face exactly when that product is negative; otherwise the
    /// normal is flipped.
    pub fn set_face_normal(&mut self, facing: Scalar)
        ensures
            final(self).front_face == facing.lt(Scalar::zero()),
            final(self).normal == if facing.lt(Scalar::zero()) {
                old(self).normal
            } else {
                old(self).normal.negated()
            },
            final(self).p == old(self).p,
            final(self).t == old(self).t,
            final(self).material == old(self).material,
    {
        self.front_face = facing.less(Scalar::zero());
        if !self.front_face {
            self.normal = self.normal.neg();
        }
    }
}

/// The quadratic of a ray against a sphere, solved: its discriminant and
/// the two ray parameters at which the ray's line meets the surface.
#[derive(Clone, Copy, Debug)]
pub struct Roots {
    pub discriminant: Scalar,
    /// The root with the square root subtracted.
    pub near: Scalar,
    /// The root with the square root added.
    pub far: Scalar,
}

/// Whether `t` lies in the open interval from `t_min` to `t_max`.
pub open spec fn within(t: Scalar, t_min: Scalar, t_max: Scalar) -> bool {
    t_min.lt(t) && t.lt(t_max)
}

impl Roots {
    /// The ray parameter of the hit, if there is one: nothing where the
    /// discriminant is negative; else the near root if it lies in the open
    /// interval, else the far root if that does.
    pub open spec fn chosen(self, t_min: Scalar, t_max: Scalar) -> Option<Scalar> {
        if self.discriminant.lt(Scalar::zero()) {
            None
        } else if within(self.near, t_min, t_max) {
            Some(self.near)
        } else if within(self.far, t_min, t_max) {
            Some(self.far)
        } else {
            None
        }
    }

    /// Whether the near root does not come after the far one, as holds of
    /// every quadratic whose leading coefficient is positive.
    pub open spec fn ordered(self) -> bool {
        !self.far.lt(self.near)
    }

    /// Gathers a solved quadratic.
    pub fn new(discriminant: Scalar, near: Scalar, far: Scalar) -> (r: Roots)
        ensures
            r == (Roots { discriminant, near, far }),
    {
        Roots { discriminant, near, far }
    }

    /// Decides whether the ray hits within the open interval, and at which
    /// parameter.
    pub fn hit(&self, t_min: Scalar, t_max: Scalar) -> (r: Option<Scalar>)
        ensures
            r == self.chosen(t_min, t_max),
    {
        if self.discriminant.less(Scalar::zero()) {
            return None;
        }
        if t_min.less(self.near) && self.near.less(t_max) {
            return Some(self.near);
        }
        if t_min.less(self.far) && self.far.less(t_max) {
            return Some(self.far);
        }
        None
    }
}

/// A chosen root lies strictly inside the interval it was chosen for.
pub proof fn lemma_chosen_within(roots: Roots, t_min: Scalar, t_max: Scalar)
    ensures
        roots.chosen(t_min, t_max) matches Some(t) ==> within(t, t_min, t_max),
{
}

} // verus!
