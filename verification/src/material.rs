//! Light-scattering models: diffuse, specular with roughness, and
//! refractive.

use vstd::prelude::*;
use crate::color::Color;
use crate::fixed::{ONE, SCALE, fx_add, fx_sub, fx_mul, fx_div, fx_sqrt, add_fx, sub_fx, mul_fx, div_fx,
    sqrt_fx, lemma_fx_square_nonneg};
use crate::hit::HitRecord;
use crate::point3::Point3;
use crate::ray::Ray;
use crate::rng::random_fx_in;
use crate::vec3::{V3, Vec3, v3_add, v3_scale, v3_dot, v3_unit, v3_reflect, v3_refract,
    v3_in_unit_range};

verus! {

/// The outcome of a scatter event: the color attenuation applied to
/// whatever light the outgoing ray gathers, and the outgoing ray.
#[derive(Clone, Copy, Debug, PartialEq, Eq, Structural)]
pub struct AttenuatedRay {
    pub attenuation: Color,
    pub scattered: Ray,
}

impl AttenuatedRay {
    pub fn new(attenuation: Color, scattered: Ray) -> (r: Self)
        ensures
            r == (AttenuatedRay { attenuation, scattered }),
    {
        AttenuatedRay { attenuation, scattered }
    }
}

/// A diffuse surface with a base color.
#[derive(Clone, Copy, Debug, PartialEq, Eq, Structural)]
pub struct Lambertian {
    pub albedo: Color,
}

/// A specular surface with a base color and a roughness in
/// `[0, ONE]`.
#[derive(Clone, Copy, Debug, PartialEq, Eq, Structural)]
pub struct Metal {
    pub albedo: Color,
    pub roughness: i64,
}

/// A clear refractive medium with a positive index of refraction.
#[derive(Clone, Copy, Debug, PartialEq, Eq, Structural)]
pub struct Dielectric {
    pub refraction_idx: i64,
}

/// The closed set of materials a surface can be made of.
#[derive(Clone, Copy, Debug, PartialEq, Eq, Structural)]
pub enum Material {
    Lambertian(Lambertian),
    Metal(Metal),
    Dielectric(Dielectric),
}

/// What scattering must promise: a valid material (the only field
/// constraint is a positive refraction index, which refraction divides
/// by).
pub open spec fn mat_wf(m: Material) -> bool {
    match m {
        Material::Dielectric(d) => 0 < d.refraction_idx,
        _ => true,
    }
}

/// A diffuse scatter always succeeds: the attenuation is the albedo
/// and the outgoing ray leaves the hit point along the normal plus
/// the normalization of some accurately normalizable sample.
pub open spec fn lambertian_scatter_ok(l: Lambertian, rec: HitRecord, r: Option<AttenuatedRay>)
    -> bool {
    r matches Some(ar) && ar.attenuation == l.albedo && ar.scattered.origin == rec.p
        && (exists|u: V3| (ONE as int) / 4 <= v3_dot(u, u) < ONE as int
            && ar.scattered.direction@ == v3_add(rec.normal@, #[trigger] v3_unit(u)))
}

/// The material's base color, where it has one, lies in the unit
/// range per channel.
pub open spec fn albedo_ok(m: Material) -> bool {
    match m {
        Material::Lambertian(l) => v3_in_unit_range(l.albedo@),
        Material::Metal(mt) => v3_in_unit_range(mt.albedo@),
        Material::Dielectric(_) => true,
    }
}

/// A specular scatter for the particular fuzz sample `p`: the ray
/// reflects about the normal, jittered by `roughness * p`; if the
/// jittered direction would re-enter the surface the sample is
/// absorbed.
pub open spec fn metal_scatter_matches(m: Metal, ray: Ray, rec: HitRecord, p: V3,
    r: Option<AttenuatedRay>) -> bool {
    let fuzzed = v3_add(v3_reflect(v3_unit(ray.direction@), rec.normal@),
        v3_scale(p, m.roughness as int));
    if v3_dot(fuzzed, rec.normal@) <= 0 {
        r is None
    } else {
        r matches Some(ar) && ar.attenuation == m.albedo && ar.scattered.origin == rec.p
            && ar.scattered.direction@ == fuzzed
    }
}

/// The reflectance at head-on incidence:
/// `r0 = ((1 - idx) / (1 + idx))^2` in fixed point.
pub open spec fn spec_r0(refraction_idx: int) -> int {
    let q = fx_div(fx_sub(ONE as int, refraction_idx), fx_add(ONE as int, refraction_idx));
    fx_mul(q, q)
}

/// Schlick's reflectance approximation, in fixed point:
/// `r0 + (1 - r0) * (1 - cosine)^5`, every product floor-rounded.
pub open spec fn spec_schlick(cosine: int, refraction_idx: int) -> int {
    let r0 = spec_r0(refraction_idx);
    let b = fx_sub(ONE as int, cosine);
    let b5 = fx_mul(fx_mul(fx_mul(fx_mul(b, b), b), b), b);
    fx_add(r0, fx_mul(fx_sub(ONE as int, r0), b5))
}

/// The head-on reflectance lies in `[0, 1]` for every positive
/// refraction ratio.
pub proof fn lemma_r0_range(idx: int)
    requires
        idx > 0,
    ensures
        0 <= spec_r0(idx) <= ONE as int,
{
    let s = SCALE as int;
    let n = fx_sub(ONE as int, idx);
    let d = fx_add(ONE as int, idx);
    assert(d > ONE as int);
    assert(-d <= n && n < d);
    let q0 = crate::fixed::floor_div(n * s, d);
    assert(q0 == (n * s) / d);
    assert((-d) * s <= n * s && n * s < d * s) by (nonlinear_arith)
        requires -d <= n, n < d, s > 0;
    vstd::arithmetic::div_mod::lemma_div_is_ordered((-d) * s, n * s, d);
    vstd::arithmetic::div_mod::lemma_div_multiples_vanish(-s, d);
    assert((-d) * s == d * (-s)) by (nonlinear_arith);
    assert(-s <= q0);
    vstd::arithmetic::div_mod::lemma_multiply_divide_lt(n * s, d, s);
    assert(q0 < s);
    let q = fx_div(n, d);
    assert(q == q0);
    assert(q * q <= s * s) by (nonlinear_arith)
        requires -s <= q, q < s, s > 0;
    assert(q * q >= 0) by (nonlinear_arith);
    vstd::arithmetic::div_mod::lemma_div_is_ordered(q * q, s * s, s);
    vstd::arithmetic::div_mod::lemma_div_multiples_vanish(s, s);
    assert((q * q) / s <= s);
    vstd::arithmetic::div_mod::lemma_div_pos_is_pos(q * q, s);
}

/// Schlick's reflectance at head-on incidence is exactly `r0`, the
/// reflectance at grazing incidence is exactly one, and reflectance
/// at head-on incidence never exceeds reflectance at grazing
/// incidence.
pub proof fn lemma_schlick_reflectance(idx: int)
    requires
        idx > 0,
    ensures
        spec_schlick(ONE as int, idx) == spec_r0(idx),
        spec_schlick(0, idx) == ONE as int,
        spec_schlick(ONE as int, idx) <= spec_schlick(0, idx),
{
    lemma_r0_range(idx);
    let r0 = spec_r0(idx);
    // Head-on: the (1 - cosine) factor vanishes.
    crate::fixed::lemma_fx_mul_zero(0);
    crate::fixed::lemma_fx_mul_zero(fx_sub(ONE as int, r0));
    assert(fx_sub(ONE as int, ONE as int) == 0);
    assert(spec_schlick(ONE as int, idx) == fx_add(r0, 0));
    // Grazing: the factor is one and the terms sum to one.
    let s = SCALE as int;
    let b = fx_sub(ONE as int, 0);
    assert(b == ONE as int);
    vstd::arithmetic::div_mod::lemma_div_multiples_vanish(s, s);
    assert((ONE as int) * (ONE as int) == s * s) by (nonlinear_arith)
        requires ONE as int == s;
    assert(fx_mul(ONE as int, ONE as int) == ONE as int);
    let m = fx_sub(ONE as int, r0);
    assert(m == ONE as int - r0);
    crate::fixed::lemma_fx_mul_one(m);
    assert(spec_schlick(0, idx) == fx_add(r0, m));
}

/// The effective refraction ratio for a hit: entering the medium uses
/// `1 / idx`, leaving it uses `idx`.
pub open spec fn spec_eta(d: Dielectric, rec: HitRecord) -> int {
    if rec.front_face {
        fx_div(ONE as int, d.refraction_idx as int)
    } else {
        d.refraction_idx as int
    }
}

/// The cosine of the incidence angle, capped at one.
pub open spec fn spec_cos_theta(ray: Ray, rec: HitRecord) -> int {
    let c = v3_dot(v3_scale(v3_unit(ray.direction@), -(ONE as int)), rec.normal@);
    if c < ONE as int {
        c
    } else {
        ONE as int
    }
}

/// A refractive scatter for the particular uniform draw `draw`: the
/// sample always succeeds with an opaque white attenuation, and the
/// outgoing direction reflects when total internal reflection forces
/// it or the draw falls below the Schlick reflectance, and refracts
/// otherwise.
pub open spec fn dielectric_scatter_matches(d: Dielectric, ray: Ray, rec: HitRecord, draw: int,
    r: Option<AttenuatedRay>) -> bool {
    let unit = v3_unit(ray.direction@);
    let eta = spec_eta(d, rec);
    let cos_theta = spec_cos_theta(ray, rec);
    let k = fx_sub(ONE as int, fx_mul(cos_theta, cos_theta));
    let sin_theta = fx_sqrt(if k > 0 { k } else { 0 });
    r matches Some(ar) && ar.attenuation@ == (V3 { x: ONE as int, y: ONE as int, z: ONE as int })
        && ar.scattered.origin == rec.p
        && ar.scattered.direction@ == (if fx_mul(eta, sin_theta) > ONE as int
            || draw < spec_schlick(cos_theta, eta) {
            v3_reflect(unit, rec.normal@)
        } else {
            v3_refract(unit, rec.normal@, eta)
        })
}

/// A refractive scatter is explained by some uniform draw from
/// `[0, 1)`.
pub open spec fn dielectric_scatter_ok(d: Dielectric, ray: Ray, rec: HitRecord,
    r: Option<AttenuatedRay>) -> bool {
    exists|draw: int| 0 <= draw < ONE as int
        && #[trigger] dielectric_scatter_matches(d, ray, rec, draw, r)
}

/// A scatter of a material with a unit-range base color attenuates by
/// unit-range channels.
pub proof fn lemma_scatter_attenuation_range(m: Material, ray: Ray, rec: HitRecord,
    r: Option<AttenuatedRay>)
    requires
        scatter_ok(m, ray, rec, r),
        albedo_ok(m),
    ensures
        (r matches Some(ar) ==> v3_in_unit_range(ar.attenuation@)),
{
    match m {
        Material::Lambertian(_) => {},
        Material::Metal(mt) => {
            let p = choose|p: V3| v3_dot(p, p) < ONE as int
                && #[trigger] metal_scatter_matches(mt, ray, rec, p, r);
            assert(metal_scatter_matches(mt, ray, rec, p, r));
        },
        Material::Dielectric(d) => {
            let draw = choose|draw: int| 0 <= draw < ONE as int
                && #[trigger] dielectric_scatter_matches(d, ray, rec, draw, r);
            assert(dielectric_scatter_matches(d, ray, rec, draw, r));
        },
    }
}

/// What any scatter call promises, by material kind.
pub open spec fn scatter_ok(m: Material, ray: Ray, rec: HitRecord, r: Option<AttenuatedRay>)
    -> bool {
    match m {
        Material::Lambertian(l) => lambertian_scatter_ok(l, rec, r),
        Material::Metal(mt) => exists|p: V3| v3_dot(p, p) < ONE as int
            && #[trigger] metal_scatter_matches(mt, ray, rec, p, r),
        Material::Dielectric(d) => dielectric_scatter_ok(d, ray, rec, r),
    }
}

impl Lambertian {
    pub fn new(albedo: Color) -> (r: Self)
        ensures
            r == (Lambertian { albedo }),
    {
        Lambertian { albedo }
    }

    /// Scatter toward the normal plus a random unit vector.
    pub fn scatter(&self, _ray: &Ray, hit_rec: &HitRecord) -> (r: Option<AttenuatedRay>)
        ensures
            lambertian_scatter_ok(*self, *hit_rec, r),
    {
        let scatter_direction = hit_rec.normal.add(&Vec3::random_unit_vector());
        Some(AttenuatedRay::new(self.albedo, Ray::new(hit_rec.p, scatter_direction)))
    }
}

impl Metal {
    /// A specular material; the roughness is clamped into `[0, ONE]`.
    pub fn new(albedo: Color, roughness: i64) -> (r: Self)
        ensures
            r.albedo == albedo,
            r.roughness as int == (if roughness < 0 {
                0int
            } else if roughness > ONE {
                ONE as int
            } else {
                roughness as int
            }),
    {
        let rf: i64 = if roughness < 0 {
            0
        } else if roughness > ONE {
            ONE
        } else {
            roughness
        };
        Metal { albedo, roughness: rf }
    }

    /// Reflect about the normal with a roughness jitter; absorb the
    /// sample if the jittered direction re-enters the surface.
    pub fn scatter(&self, ray: &Ray, hit_rec: &HitRecord) -> (r: Option<AttenuatedRay>)
        requires
            v3_dot(ray.direction@, ray.direction@) > 0,
        ensures
            exists|p: V3| v3_dot(p, p) < ONE as int
                && #[trigger] metal_scatter_matches(*self, *ray, *hit_rec, p, r),
    {
        let sample = Vec3::random_in_unit_sphere();
        let reflected = ray.direction.unit_vec().reflect(&hit_rec.normal);
        let scattered_dir = reflected.add(&sample.scale(self.roughness));
        let r: Option<AttenuatedRay> = if scattered_dir.dot(&hit_rec.normal) <= 0 {
            None
        } else {
            Some(AttenuatedRay::new(self.albedo, Ray::new(hit_rec.p, scattered_dir)))
        };
        proof {
            assert(metal_scatter_matches(*self, *ray, *hit_rec, sample@, r));
        }
        r
    }
}

impl Dielectric {
    /// A refractive material; the index must be positive, since the
    /// refraction ratio divides by it.
    pub fn new(refraction_idx: i64) -> (r: Self)
        requires
            0 < refraction_idx,
        ensures
            r == (Dielectric { refraction_idx }),
    {
        Dielectric { refraction_idx }
    }

    /// Schlick's reflectance approximation.
    pub fn schlick(cosine: i64, refraction_idx: i64) -> (r: i64)
        requires
            refraction_idx >= 0,
        ensures
            r as int == spec_schlick(cosine as int, refraction_idx as int),
    {
        let denom: i64 = add_fx(ONE, refraction_idx);
        let q: i64 = div_fx(sub_fx(ONE, refraction_idx), denom);
        let r0: i64 = mul_fx(q, q);
        let b: i64 = sub_fx(ONE, cosine);
        let b5: i64 = mul_fx(mul_fx(mul_fx(mul_fx(b, b), b), b), b);
        add_fx(r0, mul_fx(sub_fx(ONE, r0), b5))
    }

    /// Refract or, on total internal reflection or a random draw below
    /// the Schlick reflectance, reflect; never absorbs.
    pub fn scatter(&self, ray: &Ray, hit_rec: &HitRecord) -> (r: Option<AttenuatedRay>)
        requires
            v3_dot(ray.direction@, ray.direction@) > 0,
            0 < self.refraction_idx,
        ensures
            dielectric_scatter_ok(*self, *ray, *hit_rec, r),
    {
        let etai_over_etat: i64 = if hit_rec.front_face {
            proof {
                vstd::arithmetic::div_mod::lemma_div_pos_is_pos(
                    (ONE as int) * (crate::fixed::SCALE as int), self.refraction_idx as int);
            }
            div_fx(ONE, self.refraction_idx)
        } else {
            self.refraction_idx
        };
        let unit_direction = ray.direction.unit_vec();
        let c: i64 = unit_direction.scale(-ONE).dot(&hit_rec.normal);
        let cos_theta: i64 = if c < ONE {
            c
        } else {
            ONE
        };
        let k: i64 = sub_fx(ONE, mul_fx(cos_theta, cos_theta));
        let sin_theta: i64 = sqrt_fx(if k > 0 { k } else { 0 });
        let reflect_probability: i64 = Dielectric::schlick(cos_theta, etai_over_etat);
        let draw: i64 = random_fx_in(0, ONE - 1);

        let direction: Vec3 = if mul_fx(etai_over_etat, sin_theta) > ONE
            || draw < reflect_probability {
            unit_direction.reflect(&hit_rec.normal)
        } else {
            unit_direction.refract(hit_rec.normal, etai_over_etat)
        };

        let r = Some(AttenuatedRay::new(Color::new(ONE, ONE, ONE), Ray::new(hit_rec.p, direction)));
        proof {
            assert(dielectric_scatter_matches(*self, *ray, *hit_rec, draw as int, r));
        }
        r
    }
}

impl Material {
    /// Scatter an incoming ray at a hit point: the attenuation and
    /// outgoing ray, or nothing if the sample was absorbed.
    pub fn scatter(&self, ray: &Ray, hit_rec: &HitRecord) -> (r: Option<AttenuatedRay>)
        requires
            mat_wf(*self),
            v3_dot(ray.direction@, ray.direction@) > 0,
        ensures
            scatter_ok(*self, *ray, *hit_rec, r),
    {
        match self {
            Material::Lambertian(l) => l.scatter(ray, hit_rec),
            Material::Metal(m) => m.scatter(ray, hit_rec),
            Material::Dielectric(d) => d.scatter(ray, hit_rec),
        }
    }
}

} // verus!
