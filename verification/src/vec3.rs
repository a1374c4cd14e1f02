//! Three-component fixed-point vectors.
//!
//! The mathematical model of a vector is [`V3`], a triple of unbounded
//! integers; every operation on [`Vec3`] is specified exactly by the
//! corresponding function on `V3` over the clamped, floor-rounded
//! fixed-point arithmetic of [`crate::fixed`].

use vstd::prelude::*;
use crate::fixed::{SCALE, ONE, MAXV, fx_clamp, fx_add, fx_sub, fx_neg, fx_mul, fx_div, fx_sqrt, sqrt_fx,
    clamp_fx, add_fx, sub_fx, neg_fx, mul_fx, div_fx, lemma_fx_square_nonneg, lemma_fx_mul_one, lemma_fx_mul_zero};
use crate::rng::random_fx_in;

verus! {

/// The mathematical value of a vector: three unbounded integers, each
/// denoting a real number scaled by `SCALE`.
pub struct V3 {
    pub x: int,
    pub y: int,
    pub z: int,
}

/// Component-wise saturating addition.
pub open spec fn v3_add(a: V3, b: V3) -> V3 {
    V3 { x: fx_add(a.x, b.x), y: fx_add(a.y, b.y), z: fx_add(a.z, b.z) }
}

/// Component-wise saturating subtraction.
pub open spec fn v3_sub(a: V3, b: V3) -> V3 {
    V3 { x: fx_sub(a.x, b.x), y: fx_sub(a.y, b.y), z: fx_sub(a.z, b.z) }
}

/// Component-wise negation.
pub open spec fn v3_neg(a: V3) -> V3 {
    V3 { x: fx_neg(a.x), y: fx_neg(a.y), z: fx_neg(a.z) }
}

/// Component-wise (Hadamard) product.
pub open spec fn v3_mul(a: V3, b: V3) -> V3 {
    V3 { x: fx_mul(a.x, b.x), y: fx_mul(a.y, b.y), z: fx_mul(a.z, b.z) }
}

/// Scale every component by the scalar `s`.
pub open spec fn v3_scale(a: V3, s: int) -> V3 {
    V3 { x: fx_mul(a.x, s), y: fx_mul(a.y, s), z: fx_mul(a.z, s) }
}

/// Divide every component by the scalar `s`.
pub open spec fn v3_divs(a: V3, s: int) -> V3
    recommends
        s != 0,
{
    V3 { x: fx_div(a.x, s), y: fx_div(a.y, s), z: fx_div(a.z, s) }
}

/// Dot product: the products are summed left to right, as the
/// executable code does.
pub open spec fn v3_dot(a: V3, b: V3) -> int {
    fx_add(fx_add(fx_mul(a.x, b.x), fx_mul(a.y, b.y)), fx_mul(a.z, b.z))
}

/// Cross product.
pub open spec fn v3_cross(a: V3, b: V3) -> V3 {
    V3 {
        x: fx_sub(fx_mul(a.y, b.z), fx_mul(a.z, b.y)),
        y: fx_sub(fx_mul(a.z, b.x), fx_mul(a.x, b.z)),
        z: fx_sub(fx_mul(a.x, b.y), fx_mul(a.y, b.x)),
    }
}

/// Euclidean length: the fixed-point square root of the squared length.
pub open spec fn v3_len(a: V3) -> int {
    fx_sqrt(v3_dot(a, a))
}

/// The vector scaled to unit length (defined when the squared length
/// is positive).
pub open spec fn v3_unit(a: V3) -> V3
    recommends
        v3_dot(a, a) > 0,
{
    v3_divs(a, v3_len(a))
}

/// Mirror `v` about the plane with normal `n`: `v - 2 (v . n) n`.
pub open spec fn v3_reflect(v: V3, n: V3) -> V3 {
    v3_sub(v, v3_scale(n, fx_add(v3_dot(v, n), v3_dot(v, n))))
}

/// Bend `v` through a surface with unit normal `n` and refraction
/// ratio `eta`, by Snell's law; the radicand is clamped at zero so the
/// square root is always defined.
///
/// The defining formula is the contract.  The identities it implies
/// over the reals — the transmitted direction is near unit length,
/// its component along the normal is non-positive, and Snell's ratio
/// holds between the tangential components — carry over only up to
/// floor rounding (at grazing incidence the sign of the normal
/// component can be off by one rounding step), and are proved exactly
/// in the head-on case, where no rounding occurs
/// ([`lemma_refract_head_on`]).
pub open spec fn v3_refract(v: V3, n: V3, eta: int) -> V3 {
    let cos_theta = v3_dot(v3_neg(v), n);
    let parallel = v3_scale(v3_add(v, v3_scale(n, cos_theta)), eta);
    let k = fx_sub(ONE as int, v3_dot(parallel, parallel));
    let s = fx_sqrt(if k > 0 { k } else { 0 });
    v3_add(parallel, v3_scale(n, fx_neg(s)))
}

/// A fixed-point vector; the denoted mathematical value is `self@`.
#[derive(Clone, Copy, Debug, PartialEq, Eq, Structural)]
pub struct Vec3 {
    pub x: i64,
    pub y: i64,
    pub z: i64,
}

impl View for Vec3 {
    type V = V3;

    open spec fn view(&self) -> V3 {
        V3 { x: self.x as int, y: self.y as int, z: self.z as int }
    }
}

impl Vec3 {
    /// Build a vector, clamping each component into the representable
    /// range.
    pub fn new(x: i64, y: i64, z: i64) -> (r: Self)
        ensures
            r@ == (V3 { x: fx_clamp(x as int), y: fx_clamp(y as int), z: fx_clamp(z as int) }),
    {
        Vec3 { x: clamp_fx(x), y: clamp_fx(y), z: clamp_fx(z) }
    }

    pub fn x(&self) -> (r: i64)
        ensures
            r as int == self@.x,
    {
        self.x
    }

    pub fn y(&self) -> (r: i64)
        ensures
            r as int == self@.y,
    {
        self.y
    }

    pub fn z(&self) -> (r: i64)
        ensures
            r as int == self@.z,
    {
        self.z
    }

    pub fn add(&self, rhs: &Vec3) -> (r: Vec3)
        ensures
            r@ == v3_add(self@, rhs@),
    {
        Vec3 { x: add_fx(self.x, rhs.x), y: add_fx(self.y, rhs.y), z: add_fx(self.z, rhs.z) }
    }

    pub fn sub(&self, rhs: &Vec3) -> (r: Vec3)
        ensures
            r@ == v3_sub(self@, rhs@),
    {
        Vec3 { x: sub_fx(self.x, rhs.x), y: sub_fx(self.y, rhs.y), z: sub_fx(self.z, rhs.z) }
    }

    pub fn neg(&self) -> (r: Vec3)
        ensures
            r@ == v3_neg(self@),
    {
        Vec3 { x: neg_fx(self.x), y: neg_fx(self.y), z: neg_fx(self.z) }
    }

    /// Component-wise product, used to attenuate colors.
    pub fn mul(&self, rhs: &Vec3) -> (r: Vec3)
        ensures
            r@ == v3_mul(self@, rhs@),
    {
        Vec3 { x: mul_fx(self.x, rhs.x), y: mul_fx(self.y, rhs.y), z: mul_fx(self.z, rhs.z) }
    }

    /// Multiply by a scalar.
    pub fn scale(&self, s: i64) -> (r: Vec3)
        ensures
            r@ == v3_scale(self@, s as int),
    {
        Vec3 { x: mul_fx(self.x, s), y: mul_fx(self.y, s), z: mul_fx(self.z, s) }
    }

    /// Divide by a scalar.
    pub fn div(&self, s: i64) -> (r: Vec3)
        requires
            s != 0,
        ensures
            r@ == v3_divs(self@, s as int),
    {
        Vec3 { x: div_fx(self.x, s), y: div_fx(self.y, s), z: div_fx(self.z, s) }
    }

    pub fn dot(&self, rhs: &Vec3) -> (r: i64)
        ensures
            r as int == v3_dot(self@, rhs@),
    {
        add_fx(add_fx(mul_fx(self.x, rhs.x), mul_fx(self.y, rhs.y)), mul_fx(self.z, rhs.z))
    }

    pub fn cross(&self, rhs: &Vec3) -> (r: Vec3)
        ensures
            r@ == v3_cross(self@, rhs@),
    {
        Vec3 {
            x: sub_fx(mul_fx(self.y, rhs.z), mul_fx(self.z, rhs.y)),
            y: sub_fx(mul_fx(self.z, rhs.x), mul_fx(self.x, rhs.z)),
            z: sub_fx(mul_fx(self.x, rhs.y), mul_fx(self.y, rhs.x)),
        }
    }

    pub fn length_squared(&self) -> (r: i64)
        ensures
            r as int == v3_dot(self@, self@),
    {
        self.dot(self)
    }

    pub fn length(&self) -> (r: i64)
        ensures
            r as int == v3_len(self@),
            r >= 0,
    {
        let sq: i64 = self.length_squared();
        proof {
            lemma_dot_self_nonneg(self@);
        }
        sqrt_fx(sq)
    }

    /// The vector scaled to unit length.
    pub fn unit_vec(&self) -> (r: Vec3)
        requires
            v3_dot(self@, self@) > 0,
        ensures
            r@ == v3_unit(self@),
    {
        let len: i64 = self.length();
        proof {
            lemma_len_pos(self@);
        }
        self.div(len)
    }

    /// Mirror about the plane with normal `n`.
    pub fn reflect(&self, normal: &Vec3) -> (r: Vec3)
        ensures
            r@ == v3_reflect(self@, normal@),
    {
        let d: i64 = self.dot(normal);
        self.sub(&normal.scale(add_fx(d, d)))
    }

    /// Bend through a surface with unit normal `n` and refraction
    /// ratio `eta`.
    pub fn refract(self, normal: Vec3, etai_over_etat: i64) -> (r: Vec3)
        ensures
            r@ == v3_refract(self@, normal@, etai_over_etat as int),
    {
        let cos_theta: i64 = self.neg().dot(&normal);
        let parallel: Vec3 = self.add(&normal.scale(cos_theta)).scale(etai_over_etat);
        let k: i64 = sub_fx(ONE, parallel.length_squared());
        let s: i64 = sqrt_fx(if k > 0 { k } else { 0 });
        parallel.add(&normal.scale(neg_fx(s)))
    }

    /// A vector with each component drawn uniformly from `[0, 1)`.
    pub fn random() -> (r: Vec3)
        ensures
            0 <= r@.x < ONE as int,
            0 <= r@.y < ONE as int,
            0 <= r@.z < ONE as int,
    {
        Vec3 {
            x: random_fx_in(0, ONE - 1),
            y: random_fx_in(0, ONE - 1),
            z: random_fx_in(0, ONE - 1),
        }
    }

    /// A vector with each component drawn uniformly from `[min, max)`.
    pub fn random_range(min: i64, max: i64) -> (r: Vec3)
        requires
            min < max,
        ensures
            min as int <= r@.x < max as int,
            min as int <= r@.y < max as int,
            min as int <= r@.z < max as int,
    {
        Vec3 {
            x: random_fx_in(min, max - 1),
            y: random_fx_in(min, max - 1),
            z: random_fx_in(min, max - 1),
        }
    }

    /// A random point inside the unit sphere, by rejection sampling
    /// from the enclosing cube (with the origin as a late fallback, so
    /// the search is bounded).
    pub fn random_in_unit_sphere() -> (r: Vec3)
        ensures
            v3_dot(r@, r@) < ONE as int,
    {
        let mut tries: u32 = 0;
        while tries < 64
            decreases 64 - tries,
        {
            let p = Vec3::random_range(-ONE, ONE);
            if p.length_squared() < ONE {
                return p;
            }
            tries = tries + 1;
        }
        proof {
            lemma_zero_dot();
        }
        Vec3 { x: 0, y: 0, z: 0 }
    }

    /// A random vector of unit length: a rejection sample from the
    /// unit ball, scaled to length one (with a fixed fallback
    /// direction, so the search is bounded).  Samples shorter than one
    /// half are rejected too — they carry too few fixed-point digits
    /// to normalize accurately, and dropping them leaves the direction
    /// distribution unchanged; the witness bound records that only
    /// such accurately normalizable samples are used.
    pub fn random_unit_vector() -> (r: Vec3)
        ensures
            exists|v: V3| (ONE as int) / 4 <= v3_dot(v, v) < ONE as int
                && r@ == #[trigger] v3_unit(v),
    {
        let mut tries: u32 = 0;
        while tries < 64
            decreases 64 - tries,
        {
            let p = Vec3::random_range(-ONE, ONE);
            let sq = p.length_squared();
            if ONE / 4 <= sq && sq < ONE {
                let u = p.unit_vec();
                proof {
                    assert((ONE as int) / 4 <= v3_dot(p@, p@) < ONE as int && u@ == v3_unit(p@));
                }
                return u;
            }
            tries = tries + 1;
        }
        let half: i64 = ONE / 2;
        let fallback = Vec3 { x: half, y: 0, z: 0 };
        let u = fallback.unit_vec();
        proof {
            assert((ONE as int) / 4 <= v3_dot(fallback@, fallback@) < ONE as int && u@ == v3_unit(fallback@));
        }
        u
    }

    /// A random point inside the unit disk of the xy-plane.
    pub fn random_in_unit_disk() -> (r: Vec3)
        ensures
            v3_dot(r@, r@) < ONE as int,
            r@.z == 0,
    {
        let mut tries: u32 = 0;
        while tries < 64
            decreases 64 - tries,
        {
            let p = Vec3 { x: random_fx_in(-ONE, ONE), y: random_fx_in(-ONE, ONE), z: 0 };
            if p.length_squared() < ONE {
                return p;
            }
            tries = tries + 1;
        }
        proof {
            lemma_zero_dot();
        }
        Vec3 { x: 0, y: 0, z: 0 }
    }
}

/// The `Vec3` whose components are the (representable) values of `v`.
pub open spec fn v3_to_vec(v: V3) -> Vec3 {
    Vec3 { x: v.x as i64, y: v.y as i64, z: v.z as i64 }
}

/// Converting a vector's value back to a vector is the identity.
pub proof fn lemma_vec_roundtrip(v: Vec3)
    ensures
        v3_to_vec(v@) == v,
{
}

/// The six exactly representable unit vectors: the positive and
/// negative coordinate axes.
pub open spec fn is_axis_unit(n: V3) -> bool {
    ||| n == (V3 { x: ONE as int, y: 0, z: 0 })
    ||| n == (V3 { x: -(ONE as int), y: 0, z: 0 })
    ||| n == (V3 { x: 0, y: ONE as int, z: 0 })
    ||| n == (V3 { x: 0, y: -(ONE as int), z: 0 })
    ||| n == (V3 { x: 0, y: 0, z: ONE as int })
    ||| n == (V3 { x: 0, y: 0, z: -(ONE as int) })
}

/// `v` with the coordinate along the (axis-aligned) normal `n`
/// negated.
pub open spec fn axis_flip(v: V3, n: V3) -> V3 {
    if n.x != 0 {
        V3 { x: -v.x, y: v.y, z: v.z }
    } else if n.y != 0 {
        V3 { x: v.x, y: -v.y, z: v.z }
    } else {
        V3 { x: v.x, y: v.y, z: -v.z }
    }
}

/// Reflection about an exactly representable unit normal negates the
/// component along the normal and keeps the perpendicular components,
/// with no rounding at all.
pub proof fn lemma_reflect_axis(v: V3, n: V3)
    requires
        is_axis_unit(n),
        -(MAXV as int) / 2 <= v.x <= (MAXV as int) / 2,
        -(MAXV as int) / 2 <= v.y <= (MAXV as int) / 2,
        -(MAXV as int) / 2 <= v.z <= (MAXV as int) / 2,
    ensures
        v3_reflect(v, n) == axis_flip(v, n),
{
    lemma_fx_mul_zero(v.x);
    lemma_fx_mul_zero(v.y);
    lemma_fx_mul_zero(v.z);
    lemma_fx_mul_one(v.x);
    lemma_fx_mul_one(v.y);
    lemma_fx_mul_one(v.z);
    let d = v3_dot(v, n);
    lemma_fx_mul_zero(fx_add(d, d));
    lemma_fx_mul_one(fx_add(d, d));
}

/// Reflection is involutive: reflecting twice about the same exactly
/// representable unit normal gives the vector back, exactly.  (For a
/// normal that is not exactly unit length, floor rounding can shift
/// the result; the law is stated for the normals the representation
/// can make exactly unit.)
pub proof fn lemma_reflect_involutive(v: V3, n: V3)
    requires
        is_axis_unit(n),
        -(MAXV as int) / 2 <= v.x <= (MAXV as int) / 2,
        -(MAXV as int) / 2 <= v.y <= (MAXV as int) / 2,
        -(MAXV as int) / 2 <= v.z <= (MAXV as int) / 2,
    ensures
        v3_reflect(v3_reflect(v, n), n) == v,
{
    lemma_reflect_axis(v, n);
    lemma_reflect_axis(axis_flip(v, n), n);
}

/// Every component lies in the unit interval `[0, ONE]`.
pub open spec fn v3_in_unit_range(v: V3) -> bool {
    0 <= v.x <= ONE as int && 0 <= v.y <= ONE as int && 0 <= v.z <= ONE as int
}

/// An exactly representable unit vector has exactly unit squared
/// length, and normalizing it gives it back unchanged.
pub proof fn lemma_unit_of_axis(a: V3)
    requires
        is_axis_unit(a),
    ensures
        v3_dot(a, a) == ONE as int,
        v3_unit(a) == a,
{
    let one = ONE as int;
    lemma_fx_mul_one(one);
    lemma_fx_mul_one(-one);
    lemma_fx_mul_zero(0);
    assert(v3_dot(a, a) == one);
    crate::fixed::lemma_fx_sqrt_square(one);
    assert(fx_mul(one, one) == one);
    assert(v3_len(a) == one);
    crate::fixed::lemma_fx_div_self(one);
}

/// The cross product of two orthogonal exactly representable unit
/// vectors is again one, orthogonal to both.
pub proof fn lemma_axis_cross(a: V3, b: V3)
    requires
        is_axis_unit(a),
        is_axis_unit(b),
        v3_dot(a, b) == 0,
    ensures
        is_axis_unit(v3_cross(a, b)),
        v3_dot(v3_cross(a, b), a) == 0,
        v3_dot(v3_cross(a, b), b) == 0,
        v3_dot(a, v3_cross(a, b)) == 0,
        v3_dot(b, v3_cross(a, b)) == 0,
{
    let one = ONE as int;
    lemma_fx_mul_one(one);
    lemma_fx_mul_one(-one);
    lemma_fx_mul_zero(0);
    lemma_fx_mul_zero(one);
    lemma_fx_mul_zero(-one);
}

/// Head-on refraction passes straight through, exactly, for every
/// refraction ratio: the transmitted direction equals the incoming
/// one, has exactly unit squared length, and its component along the
/// normal is exactly minus one.
pub proof fn lemma_refract_head_on(n: V3, eta: int)
    requires
        is_axis_unit(n),
    ensures
        v3_refract(v3_neg(n), n, eta) == v3_neg(n),
        v3_dot(v3_refract(v3_neg(n), n, eta), n) == -(ONE as int),
        v3_dot(v3_refract(v3_neg(n), n, eta), v3_refract(v3_neg(n), n, eta)) == ONE as int,
{
    let one = ONE as int;
    lemma_fx_mul_one(one);
    lemma_fx_mul_one(-one);
    lemma_fx_mul_zero(0);
    lemma_fx_mul_zero(eta);
    let v = v3_neg(n);
    assert(v3_neg(v) == n);
    assert(v3_dot(v3_neg(v), n) == one);
    assert(v3_scale(n, one) == n);
    assert(v3_add(v, n) == (V3 { x: 0, y: 0, z: 0 }));
    let parallel = v3_scale(V3 { x: 0, y: 0, z: 0 }, eta);
    assert(parallel == (V3 { x: 0, y: 0, z: 0 }));
    assert(v3_dot(parallel, parallel) == 0);
    crate::fixed::lemma_fx_sqrt_square(one);
    assert(fx_mul(one, one) == one);
    assert(fx_sub(one, 0) == one);
    assert(fx_sqrt(one) == one);
    assert(v3_scale(n, fx_neg(one)) == v);
    assert(v3_add(parallel, v) == v);
    assert(v3_dot(v, n) == -one);
    assert(v3_dot(v, v) == one);
}

/// The squared length of any vector is nonnegative.
pub proof fn lemma_dot_self_nonneg(a: V3)
    ensures
        v3_dot(a, a) >= 0,
{
    lemma_fx_square_nonneg(a.x);
    lemma_fx_square_nonneg(a.y);
    lemma_fx_square_nonneg(a.z);
}

/// A vector of positive squared length has positive length.
pub proof fn lemma_len_pos(a: V3)
    requires
        v3_dot(a, a) > 0,
    ensures
        v3_len(a) > 0,
{
    let sq = v3_dot(a, a);
    crate::fixed::lemma_int_sqrt_is(sq * (SCALE as int));
    let r = crate::fixed::int_sqrt(sq * (SCALE as int));
    assert(sq * (SCALE as int) >= SCALE as int) by (nonlinear_arith)
        requires sq >= 1, SCALE as int == 65536;
    assert(r > 0) by (nonlinear_arith)
        requires r >= 0, r * r <= sq * (SCALE as int), (r + 1) * (r + 1) > sq * (SCALE as int),
            sq * (SCALE as int) >= SCALE as int;
}

/// The zero vector has squared length zero.
proof fn lemma_zero_dot()
    ensures
        v3_dot(V3 { x: 0, y: 0, z: 0 }, V3 { x: 0, y: 0, z: 0 }) == 0,
{
    assert(fx_mul(0, 0) == 0);
}

} // verus!
