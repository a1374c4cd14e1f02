//! Records of ray–surface intersections.

use vstd::prelude::*;
use crate::material::Material;
use crate::point3::Point3;
use crate::ray::Ray;
use crate::vec3::{Vec3, v3_dot, v3_neg};

verus! {

/// Everything the integrator needs to know about one intersection:
/// where it happened, the unit surface normal oriented against the
/// incoming ray, the ray parameter, whether the geometric outward
/// normal already opposed the ray (`front_face`), and the material of
/// the surface that was hit.
#[derive(Clone, Copy, Debug, PartialEq, Eq, Structural)]
pub struct HitRecord {
    pub p: Point3,
    pub normal: Vec3,
    pub t: i64,
    pub front_face: bool,
    pub material: Material,
}

impl HitRecord {
    /// A record with the given fields; the face orientation starts out
    /// as `true` until [`HitRecord::set_face_normal`] fixes it.
    pub fn new(p: Point3, normal: Vec3, t: i64, material: Material) -> (r: Self)
        ensures
            r == (HitRecord { p, normal, t, front_face: true, material }),
    {
        HitRecord { p, normal, t, front_face: true, material }
    }

    /// Record whether the geometric outward normal opposed the ray,
    /// and store the normal flipped against the ray if it did not.
    pub fn set_face_normal(&mut self, ray: &Ray, outward_normal: &Vec3)
        ensures
            final(self).front_face == (v3_dot(ray.direction@, outward_normal@) < 0),
            final(self).normal@ == (if final(self).front_face {
                outward_normal@
            } else {
                v3_neg(outward_normal@)
            }),
            final(self).p == old(self).p,
            final(self).t == old(self).t,
            final(self).material == old(self).material,
    {
        self.front_face = ray.direction.dot(outward_normal) < 0;
        self.normal = if self.front_face {
            *outward_normal
        } else {
            outward_normal.neg()
        };
    }
}

} // verus!
