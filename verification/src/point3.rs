//! World-space positions.

use vstd::prelude::*;
use crate::fixed::fx_clamp;
use crate::vec3::{V3, Vec3, v3_add, v3_sub};

verus! {

/// A position in world space, sharing the fixed-point vector algebra.
#[derive(Clone, Copy, Debug, PartialEq, Eq, Structural)]
pub struct Point3(pub Vec3);

impl View for Point3 {
    type V = V3;

    open spec fn view(&self) -> V3 {
        self.0@
    }
}

impl Point3 {
    /// Build a point, clamping each component into the representable
    /// range.
    pub fn new(x: i64, y: i64, z: i64) -> (r: Self)
        ensures
            r@ == (V3 { x: fx_clamp(x as int), y: fx_clamp(y as int), z: fx_clamp(z as int) }),
    {
        Point3(Vec3::new(x, y, z))
    }

    pub fn x(&self) -> (r: i64)
        ensures
            r as int == self@.x,
    {
        self.0.x()
    }

    pub fn y(&self) -> (r: i64)
        ensures
            r as int == self@.y,
    {
        self.0.y()
    }

    pub fn z(&self) -> (r: i64)
        ensures
            r as int == self@.z,
    {
        self.0.z()
    }

    /// The displacement of the point from the origin.
    pub fn as_vec(&self) -> (r: Vec3)
        ensures
            r@ == self@,
    {
        self.0
    }

    /// The point at the given displacement from the origin.
    pub fn of_vec(v: Vec3) -> (r: Self)
        ensures
            r@ == v@,
    {
        Point3(v)
    }

    /// Translate by a vector.
    pub fn add_vec(&self, rhs: &Vec3) -> (r: Point3)
        ensures
            r@ == v3_add(self@, rhs@),
    {
        Point3(self.0.add(rhs))
    }

    /// Translate by the opposite of a vector.
    pub fn sub_vec(&self, rhs: &Vec3) -> (r: Point3)
        ensures
            r@ == v3_sub(self@, rhs@),
    {
        Point3(self.0.sub(rhs))
    }
}

} // verus!
