//! Linear-light RGB triples.

use vstd::prelude::*;
use crate::fixed::{ONE, SCALE, MAXV, fx_clamp};
use crate::vec3::{V3, Vec3};

verus! {

/// A color in linear light, one fixed-point scalar per channel;
/// `ONE` denotes full intensity.
#[derive(Clone, Copy, Debug, PartialEq, Eq, Structural)]
pub struct Color(pub Vec3);

impl View for Color {
    type V = V3;

    open spec fn view(&self) -> V3 {
        self.0@
    }
}

impl Color {
    /// Build a color, clamping each channel into the representable
    /// range.
    pub fn new(r: i64, g: i64, b: i64) -> (c: Self)
        ensures
            c@ == (V3 { x: fx_clamp(r as int), y: fx_clamp(g as int), z: fx_clamp(b as int) }),
    {
        Color(Vec3::new(r, g, b))
    }

    /// A color with each channel drawn uniformly from `[0, 1)`.
    pub fn random() -> (c: Self)
        ensures
            0 <= c@.x < ONE as int,
            0 <= c@.y < ONE as int,
            0 <= c@.z < ONE as int,
    {
        Color(Vec3::random())
    }

    /// A color with each channel drawn uniformly from `[from, to)`.
    pub fn random_range(from: i64, to: i64) -> (c: Color)
        requires
            from < to,
        ensures
            from as int <= c@.x < to as int,
            from as int <= c@.y < to as int,
            from as int <= c@.z < to as int,
    {
        Color(Vec3::random_range(from, to))
    }

    pub fn r(&self) -> (v: i64)
        ensures
            v as int == self@.x,
    {
        self.0.x()
    }

    pub fn g(&self) -> (v: i64)
        ensures
            v as int == self@.y,
    {
        self.0.y()
    }

    pub fn b(&self) -> (v: i64)
        ensures
            v as int == self@.z,
    {
        self.0.z()
    }

    /// The color's channels as a vector, for attenuation arithmetic.
    pub fn as_vec(&self) -> (r: Vec3)
        ensures
            r@ == self@,
    {
        self.0
    }

    /// A color from a vector of channels.
    pub fn of_vec(v: Vec3) -> (c: Self)
        ensures
            c@ == v@,
    {
        Color(v)
    }

    /// The 8-bit-range values written for this color on a PPM `255`
    /// scale: each nonnegative channel scaled by 255.  A caller
    /// formats them; a channel above full intensity scales above 255,
    /// as the serialization has no further clamp.
    pub fn to_bytes(&self) -> (r: (i64, i64, i64))
        requires
            0 <= self@.x <= MAXV as int,
            0 <= self@.y <= MAXV as int,
            0 <= self@.z <= MAXV as int,
        ensures
            r.0 == (255 * self@.x) / (SCALE as int),
            r.1 == (255 * self@.y) / (SCALE as int),
            r.2 == (255 * self@.z) / (SCALE as int),
    {
        ((255 * self.0.x) / SCALE, (255 * self.0.y) / SCALE, (255 * self.0.z) / SCALE)
    }
}

} // verus!
