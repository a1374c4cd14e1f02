//! The sphere primitive and its ray-intersection test.

use vstd::prelude::*;
use crate::fixed::{ONE, MAXV, fx_add, fx_sub, fx_neg, fx_mul, fx_div, fx_sqrt, add_fx, sub_fx, neg_fx, mul_fx,
    div_fx, sqrt_fx, int_sqrt, lemma_int_sqrt_is, SCALE};
use crate::hit::HitRecord;
use crate::material::{Material, mat_wf};
use crate::point3::Point3;
use crate::ray::{Ray, ray_at};
use crate::vec3::{V3, v3_add, v3_sub, v3_scale, v3_dot, v3_divs, v3_neg, v3_to_vec, is_axis_unit, lemma_vec_roundtrip};

verus! {

/// An implicit sphere.  The radius may be negative: the geometric hit
/// formula is unchanged but the outward normal flips inward, which
/// models a hollow shell.  A zero radius is excluded, since the normal
/// divides by the radius.
#[derive(Clone, Copy, Debug, PartialEq, Eq, Structural)]
pub struct Sphere {
    pub center: Point3,
    pub radius: i64,
    pub material: Material,
}

/// Validity of a sphere: a nonzero radius and a valid material.
pub open spec fn sphere_wf(s: Sphere) -> bool {
    s.radius != 0 && mat_wf(s.material)
}

/// The record reported for a hit of `s` at ray parameter `t`: the hit
/// point, the normal `(p - center) / radius` oriented against the
/// ray, and which side the ray came from.
///
/// The normal divides a vector of magnitude about `|radius|` by the
/// radius, so it is unit length only up to floor rounding: the
/// relative error grows as the radius shrinks and is unbounded for
/// radii below the rounding grain.  Its orientation against the ray
/// is exact ([`lemma_hit_normal_opposes_ray`]), and on the
/// axis-aligned 256-grid configurations of [`lemma_head_on_hit`] and
/// [`lemma_hollow_shell_inward_normal`] the normal is exactly unit.
pub open spec fn sphere_hit_record(s: Sphere, ray: Ray, t: int) -> HitRecord {
    let p = ray_at(ray, t);
    let outward = v3_divs(v3_sub(p, s.center@), s.radius as int);
    let front = v3_dot(ray.direction@, outward) < 0;
    HitRecord {
        p: Point3(v3_to_vec(p)),
        normal: v3_to_vec(if front { outward } else { v3_neg(outward) }),
        t: t as i64,
        front_face: front,
        material: s.material,
    }
}

/// The nearest intersection of `ray` with `s` at a parameter strictly
/// inside `(t_min, t_max)`, solving the fixed-point quadratic
/// `|O + tD - C|^2 == r^2` and trying the nearer root first.  A
/// non-positive discriminant is a miss, and so is a degenerate
/// direction (`|D|^2 == 0` in fixed point).
#[verifier::opaque]
pub open spec fn spec_sphere_hit(s: Sphere, ray: Ray, t_min: int, t_max: int) -> Option<HitRecord> {
    let oc = v3_sub(ray.origin@, s.center@);
    let a = v3_dot(ray.direction@, ray.direction@);
    let half_b = v3_dot(oc, ray.direction@);
    let c = fx_sub(v3_dot(oc, oc), fx_mul(s.radius as int, s.radius as int));
    let disc = fx_sub(fx_mul(half_b, half_b), fx_mul(a, c));
    if a <= 0 || disc <= 0 {
        None
    } else {
        let sqrtd = fx_sqrt(disc);
        let t1 = fx_div(fx_sub(fx_neg(half_b), sqrtd), a);
        let t2 = fx_div(fx_add(fx_neg(half_b), sqrtd), a);
        if t_min < t1 && t1 < t_max {
            Some(sphere_hit_record(s, ray, t1))
        } else if t_min < t2 && t2 < t_max {
            Some(sphere_hit_record(s, ray, t2))
        } else {
            None
        }
    }
}

impl Sphere {
    pub fn new(center: Point3, radius: i64, material: Material) -> (r: Self)
        requires
            radius != 0,
            mat_wf(material),
        ensures
            r == (Sphere { center, radius, material }),
            sphere_wf(r),
    {
        Sphere { center, radius, material }
    }

    /// The nearest intersection with `ray` strictly inside
    /// `(t_min, t_max)`, if any.
    pub fn hit(&self, ray: &Ray, t_min: i64, t_max: i64) -> (r: Option<HitRecord>)
        requires
            sphere_wf(*self),
        ensures
            r == spec_sphere_hit(*self, *ray, t_min as int, t_max as int),
    {
        proof {
            reveal(spec_sphere_hit);
        }
        let oc = ray.origin.as_vec().sub(&self.center.as_vec());
        let a: i64 = ray.direction.length_squared();
        let half_b: i64 = oc.dot(&ray.direction);
        let c: i64 = sub_fx(oc.length_squared(), mul_fx(self.radius, self.radius));
        let discriminant: i64 = sub_fx(mul_fx(half_b, half_b), mul_fx(a, c));

        if a <= 0 || discriminant <= 0 {
            return None;
        }

        let root: i64 = sqrt_fx(discriminant);
        let t1: i64 = div_fx(sub_fx(neg_fx(half_b), root), a);
        let t2: i64 = div_fx(add_fx(neg_fx(half_b), root), a);

        let temp: i64;
        if t_min < t1 && t1 < t_max {
            temp = t1;
        } else if t_min < t2 && t2 < t_max {
            temp = t2;
        } else {
            return None;
        }

        let t: i64 = temp;
        let p: Point3 = ray.at(t);
        let outward_normal = p.as_vec().sub(&self.center.as_vec()).div(self.radius);

        let mut rec = HitRecord::new(p, outward_normal, t, self.material);
        rec.set_face_normal(ray, &outward_normal);
        proof {
            lemma_vec_roundtrip(rec.normal);
            lemma_vec_roundtrip(p.0);
        }
        Some(rec)
    }
}

/// Shrinking the upper end of the query interval keeps exactly the
/// hits that fall below the new end: narrowing the scan interval never
/// invents a hit and never loses one nearer than the cut.
pub proof fn lemma_sphere_hit_narrow(s: Sphere, ray: Ray, t_min: int, t_max: int, t_cut: int)
    requires
        t_cut <= t_max,
    ensures
        spec_sphere_hit(s, ray, t_min, t_cut) == (match spec_sphere_hit(s, ray, t_min, t_max) {
            Some(rec) => if (rec.t as int) < t_cut {
                Some(rec)
            } else {
                None::<HitRecord>
            },
            None => None::<HitRecord>,
        }),
{
    reveal(spec_sphere_hit);
    let oc = v3_sub(ray.origin@, s.center@);
    let a = v3_dot(ray.direction@, ray.direction@);
    let half_b = v3_dot(oc, ray.direction@);
    let c = fx_sub(v3_dot(oc, oc), fx_mul(s.radius as int, s.radius as int));
    let disc = fx_sub(fx_mul(half_b, half_b), fx_mul(a, c));
    if a > 0 && disc > 0 {
        lemma_int_sqrt_is(disc * (SCALE as int));
        let sqrtd = fx_sqrt(disc);
        assert(sqrtd >= 0);
        let n1 = fx_sub(fx_neg(half_b), sqrtd);
        let n2 = fx_add(fx_neg(half_b), sqrtd);
        assert(n1 <= n2);
        let t1 = fx_div(n1, a);
        let t2 = fx_div(n2, a);
        assert(n1 * (SCALE as int) <= n2 * (SCALE as int)) by (nonlinear_arith)
            requires n1 <= n2, SCALE as int == 65536;
        vstd::arithmetic::div_mod::lemma_div_is_ordered(
            n1 * (SCALE as int), n2 * (SCALE as int), a);
        assert(t1 <= t2);
        let r1 = sphere_hit_record(s, ray, t1);
        let r2 = sphere_hit_record(s, ray, t2);
        assert(r1.t as int == t1 && r2.t as int == t2);
    }
}

/// A ray fired straight at a sphere's center from outside hits it at
/// exactly `t == distance_to_center - radius`, and the reported
/// normal is exactly the unit vector from the center to the hit
/// point: the direction of travel, negated.  Stated for the six
/// directions that fixed point represents as exact unit vectors; the
/// distance and radius are multiples of 256, for which the
/// fixed-point squares and square roots are exact (a rounded radicand
/// shifts the root, so the law cannot hold off that grid).
#[verifier::rlimit(60)]
pub proof fn lemma_head_on_hit(s: Sphere, ray: Ray, k: int, r: int, t_min: int, t_max: int)
    requires
        k % 256 == 0,
        r % 256 == 0,
        0 < r < k <= 0x80000000,
        is_axis_unit(ray.direction@),
        s.center@ == v3_add(ray.origin@, v3_scale(ray.direction@, k)),
        s.radius as int == r,
        -(MAXV as int) / 2 <= ray.origin@.x <= (MAXV as int) / 2,
        -(MAXV as int) / 2 <= ray.origin@.y <= (MAXV as int) / 2,
        -(MAXV as int) / 2 <= ray.origin@.z <= (MAXV as int) / 2,
        t_min < k - r < t_max,
    ensures
        spec_sphere_hit(s, ray, t_min, t_max) matches Some(rec)
            && rec.t as int == k - r
            && rec.normal@ == v3_neg(ray.direction@)
            && rec.front_face == true
            && rec.p@ == v3_add(ray.origin@, v3_scale(ray.direction@, k - r)),
{
    reveal(spec_sphere_hit);
    let one = ONE as int;
    let d = ray.direction@;

    crate::fixed::lemma_fx_mul_one(one);
    crate::fixed::lemma_fx_mul_one(-one);
    crate::fixed::lemma_fx_mul_zero(0);
    crate::fixed::lemma_fx_mul_one(k);
    crate::fixed::lemma_fx_mul_one(-k);
    crate::fixed::lemma_fx_mul_one(k - r);
    crate::fixed::lemma_fx_mul_one(-r);
    crate::fixed::lemma_fx_mul_zero(k);
    crate::fixed::lemma_fx_mul_zero(-k);
    crate::fixed::lemma_fx_mul_zero(k - r);
    crate::fixed::lemma_fx_mul_zero(-r);

    let a = v3_dot(d, d);
    assert(a == one);

    let oc = v3_sub(ray.origin@, s.center@);
    assert(oc == v3_scale(d, -k));
    let half_b = v3_dot(oc, d);
    assert(half_b == -k);

    crate::fixed::lemma_fx_square_exact(k);
    crate::fixed::lemma_fx_square_exact(r);
    assert(fx_mul(-k, -k) == fx_mul(k, k)) by {
        assert((-k) * (-k) == k * k) by (nonlinear_arith);
    }
    let kq = fx_mul(k, k);
    let rq = fx_mul(r, r);
    assert(kq > rq) by {
        assert((k / 256) * (k / 256) > (r / 256) * (r / 256)) by (nonlinear_arith)
            requires 0 < r / 256 < k / 256;
        assert(0 < r / 256 < k / 256) by {
            vstd::arithmetic::div_mod::lemma_fundamental_div_mod(k, 256);
            vstd::arithmetic::div_mod::lemma_fundamental_div_mod(r, 256);
        }
    }
    assert(v3_dot(oc, oc) == kq);
    let c = fx_sub(v3_dot(oc, oc), rq);
    assert(c == kq - rq);

    crate::fixed::lemma_fx_mul_one(c);
    let disc = fx_sub(fx_mul(half_b, half_b), fx_mul(a, c));
    assert(fx_mul(a, c) == c);
    assert(disc == rq);
    assert(disc > 0) by {
        vstd::arithmetic::div_mod::lemma_fundamental_div_mod(r, 256);
        assert((r / 256) * (r / 256) >= 1) by (nonlinear_arith)
            requires r / 256 >= 1;
    }

    crate::fixed::lemma_fx_sqrt_square(r);
    let sqrtd = fx_sqrt(disc);
    assert(sqrtd == r);

    assert(fx_neg(half_b) == k);
    assert(fx_sub(k, r) == k - r);
    assert(fx_div(k - r, one) == k - r) by {
        vstd::arithmetic::div_mod::lemma_div_multiples_vanish(k - r, SCALE as int);
        assert((k - r) * (SCALE as int) == (SCALE as int) * (k - r)) by (nonlinear_arith);
    }
    let t1 = fx_div(fx_sub(fx_neg(half_b), sqrtd), a);
    assert(t1 == k - r);

    let rec = sphere_hit_record(s, ray, t1);
    let p = ray_at(ray, t1);
    assert(p == v3_add(ray.origin@, v3_scale(d, k - r)));
    let away = v3_sub(p, s.center@);
    assert(away == v3_scale(d, -r));
    crate::fixed::lemma_fx_div_self(r);
    let outward = v3_divs(away, r);
    assert(outward == v3_neg(d));
    assert(v3_dot(d, outward) == -one);
    assert(rec.front_face == true);
    assert(rec.normal@ == outward);
}

/// A ray cast from the center of a sphere of negative radius hits the
/// shell at `t == |radius|`, and the normal points back toward the
/// center: the opposite of what the plain `(hit - center) / |radius|`
/// formula would give, with `front_face` still computed from
/// `dot(direction, outward_normal) < 0`.  Stated for the six exactly
/// representable unit directions, on the 256-grid where fixed point
/// is exact.
#[verifier::rlimit(60)]
pub proof fn lemma_hollow_shell_inward_normal(s: Sphere, ray: Ray, r: int, t_min: int,
    t_max: int)
    requires
        r % 256 == 0,
        0 < r <= 0x80000000,
        is_axis_unit(ray.direction@),
        s.center@ == ray.origin@,
        s.radius as int == -r,
        -(MAXV as int) / 2 <= ray.origin@.x <= (MAXV as int) / 2,
        -(MAXV as int) / 2 <= ray.origin@.y <= (MAXV as int) / 2,
        -(MAXV as int) / 2 <= ray.origin@.z <= (MAXV as int) / 2,
        0 <= t_min < r < t_max,
    ensures
        spec_sphere_hit(s, ray, t_min, t_max) matches Some(rec)
            && rec.t as int == r
            && rec.normal@ == v3_neg(ray.direction@)
            && rec.front_face == true,
        v3_divs(v3_sub(ray_at(ray, r), s.center@), r) == ray.direction@,
{
    reveal(spec_sphere_hit);
    let one = ONE as int;
    let d = ray.direction@;

    crate::fixed::lemma_fx_mul_one(one);
    crate::fixed::lemma_fx_mul_one(-one);
    crate::fixed::lemma_fx_mul_zero(0);
    crate::fixed::lemma_fx_mul_one(r);
    crate::fixed::lemma_fx_mul_one(-r);
    crate::fixed::lemma_fx_mul_zero(r);
    crate::fixed::lemma_fx_mul_zero(-r);

    let a = v3_dot(d, d);
    assert(a == one);

    let oc = v3_sub(ray.origin@, s.center@);
    assert(oc == (V3 { x: 0, y: 0, z: 0 }));
    let half_b = v3_dot(oc, d);
    assert(half_b == 0);

    crate::fixed::lemma_fx_square_exact(r);
    assert(fx_mul(-r, -r) == fx_mul(r, r)) by {
        assert((-r) * (-r) == r * r) by (nonlinear_arith);
    }
    let rq = fx_mul(r, r);
    assert(rq >= 1) by {
        vstd::arithmetic::div_mod::lemma_fundamental_div_mod(r, 256);
        assert((r / 256) * (r / 256) >= 1) by (nonlinear_arith)
            requires r / 256 >= 1;
    }
    let c = fx_sub(v3_dot(oc, oc), fx_mul(s.radius as int, s.radius as int));
    assert(c == -rq);

    crate::fixed::lemma_fx_mul_one(c);
    let disc = fx_sub(fx_mul(half_b, half_b), fx_mul(a, c));
    assert(disc == rq);

    crate::fixed::lemma_fx_sqrt_square(r);
    let sqrtd = fx_sqrt(disc);
    assert(sqrtd == r);

    assert(fx_div(-r, one) == -r) by {
        vstd::arithmetic::div_mod::lemma_div_multiples_vanish(-r, SCALE as int);
        assert((-r) * (SCALE as int) == (SCALE as int) * (-r)) by (nonlinear_arith);
    }
    assert(fx_div(r, one) == r) by {
        vstd::arithmetic::div_mod::lemma_div_multiples_vanish(r, SCALE as int);
        assert(r * (SCALE as int) == (SCALE as int) * r) by (nonlinear_arith);
    }
    let t1 = fx_div(fx_sub(fx_neg(half_b), sqrtd), a);
    let t2 = fx_div(fx_add(fx_neg(half_b), sqrtd), a);
    assert(t1 == -r);
    assert(t2 == r);
    assert(!(t_min < t1 && t1 < t_max));

    let rec = sphere_hit_record(s, ray, t2);
    let p = ray_at(ray, t2);
    assert(p == v3_add(ray.origin@, v3_scale(d, r)));
    let away = v3_sub(p, s.center@);
    assert(away == v3_scale(d, r));
    crate::fixed::lemma_fx_div_self(-r);
    crate::fixed::lemma_fx_div_self(r);
    let outward = v3_divs(away, s.radius as int);
    assert(outward == v3_neg(d));
    assert(v3_dot(d, outward) == -one);
    assert(rec.front_face == true);
    assert(rec.normal@ == outward);
    assert(v3_divs(away, r) == d);
}

/// The normal of the record reported at any parameter opposes the
/// ray: either the geometric outward normal already did, or it was
/// flipped, and negating a floor-rounded dot product keeps it at or
/// below zero.
proof fn lemma_record_opposes(s: Sphere, ray: Ray, t: int)
    ensures
        v3_dot(ray.direction@, sphere_hit_record(s, ray, t).normal@) <= 0,
{
    let d = ray.direction@;
    let p = ray_at(ray, t);
    let outward = v3_divs(v3_sub(p, s.center@), s.radius as int);
    let rec = sphere_hit_record(s, ray, t);
    if v3_dot(d, outward) < 0 {
        assert(rec.normal@ == outward);
    } else {
        crate::fixed::lemma_fx_mul_neg_arg(d.x, outward.x);
        crate::fixed::lemma_fx_mul_neg_arg(d.y, outward.y);
        crate::fixed::lemma_fx_mul_neg_arg(d.z, outward.z);
        assert(rec.normal@ == v3_neg(outward));
        assert(v3_dot(d, v3_neg(outward)) <= -v3_dot(d, outward));
    }
}

/// Every reported hit record carries a normal oriented against the
/// incoming ray: `dot(direction, normal) <= 0`.
pub proof fn lemma_hit_normal_opposes_ray(s: Sphere, ray: Ray, t_min: int, t_max: int)
    ensures
        (spec_sphere_hit(s, ray, t_min, t_max) matches Some(rec)
            ==> v3_dot(ray.direction@, rec.normal@) <= 0),
{
    reveal(spec_sphere_hit);
    let oc = v3_sub(ray.origin@, s.center@);
    let a = v3_dot(ray.direction@, ray.direction@);
    let half_b = v3_dot(oc, ray.direction@);
    let c = fx_sub(v3_dot(oc, oc), fx_mul(s.radius as int, s.radius as int));
    let disc = fx_sub(fx_mul(half_b, half_b), fx_mul(a, c));
    if a > 0 && disc > 0 {
        let sqrtd = fx_sqrt(disc);
        lemma_record_opposes(s, ray, fx_div(fx_sub(fx_neg(half_b), sqrtd), a));
        lemma_record_opposes(s, ray, fx_div(fx_add(fx_neg(half_b), sqrtd), a));
    }
}

/// A reported hit parameter lies strictly inside the query interval,
/// and a hit can only be reported for a direction of positive squared
/// length.
pub proof fn lemma_sphere_hit_in_interval(s: Sphere, ray: Ray, t_min: int, t_max: int)
    ensures
        (spec_sphere_hit(s, ray, t_min, t_max) matches Some(rec)
            ==> t_min < (rec.t as int) && (rec.t as int) < t_max),
        (spec_sphere_hit(s, ray, t_min, t_max) is Some
            ==> v3_dot(ray.direction@, ray.direction@) > 0),
        (spec_sphere_hit(s, ray, t_min, t_max) matches Some(rec)
            ==> rec.material == s.material),
{
    reveal(spec_sphere_hit);
}

} // verus!
