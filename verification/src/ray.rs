//! Rays: an origin and a direction.

use vstd::prelude::*;
use crate::point3::Point3;
use crate::vec3::{V3, Vec3, v3_add, v3_scale};

verus! {

/// A half-line from `origin` along `direction`; positions along it are
/// parametrized by a scalar multiple `t` of the direction, which need
/// not be unit length.
#[derive(Clone, Copy, Debug, PartialEq, Eq, Structural)]
pub struct Ray {
    pub origin: Point3,
    pub direction: Vec3,
}

/// The position reached after travelling `t` along the ray.
pub open spec fn ray_at(ray: Ray, t: int) -> V3 {
    v3_add(ray.origin@, v3_scale(ray.direction@, t))
}

impl Ray {
    pub fn new(origin: Point3, direction: Vec3) -> (r: Self)
        ensures
            r.origin == origin,
            r.direction == direction,
    {
        Ray { origin, direction }
    }

    /// The point reached after travelling `t` along the direction.
    pub fn at(&self, t: i64) -> (p: Point3)
        ensures
            p@ == ray_at(*self, t as int),
    {
        self.origin.add_vec(&self.direction.scale(t))
    }
}

} // verus!
