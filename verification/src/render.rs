//! The integrator: recursive Monte Carlo radiance estimation, and the
//! per-pixel sampling loop.

use vstd::prelude::*;
use crate::camera::{Camera, spec_get_ray};
use crate::color::Color;
use crate::fixed::{ONE, HALF, fx_add, fx_sub, fx_mul, fx_div, fx_sqrt, add_fx, sub_fx, mul_fx,
    div_fx, sqrt_fx, int_sqrt, lemma_int_sqrt_is, SCALE};
use crate::hit::HitRecord;
use crate::hittable_list::{HittableList, list_wf, spec_list_hit};
use crate::ray::Ray;
use crate::rng::random_fx_in;
use crate::material::{AttenuatedRay, albedo_ok, scatter_ok, lemma_scatter_attenuation_range};
use crate::sphere::{sphere_wf, spec_sphere_hit, lemma_sphere_hit_in_interval};
use crate::vec3::{V3, Vec3, v3_add, v3_scale, v3_mul, v3_divs, v3_dot, v3_unit,
    v3_in_unit_range};

verus! {

/// Intersections closer than this are ignored, as an epsilon guard
/// against a scattered ray re-hitting the surface it left
/// ("shadow acne"); about 0.001 in real units.
pub const T_EPS: i64 = 64;

/// The far end of every intersection query; no representable hit
/// parameter reaches it.
pub const T_FAR: i64 = i64::MAX;

/// Green channel of the sky color `(0.5, 0.7, 1.0)`.
pub const SKY_G: i64 = 45875;

/// Pure black: the color of an absorbed or depth-exhausted sample.
pub open spec fn v3_black() -> V3 {
    V3 { x: 0, y: 0, z: 0 }
}

/// The background: a vertical blend from white at the horizon to sky
/// blue straight up, driven by the y-component of the normalized
/// direction remapped from `[-1, 1]` to `[0, 1]`.  The blend factor
/// is capped into the unit interval, where the remap sends it: a
/// barely normalizable direction can otherwise overshoot it under
/// floor rounding.
pub open spec fn spec_background(dir: V3) -> V3 {
    let unit = v3_unit(dir);
    let t0 = fx_mul(HALF as int, fx_add(unit.y, ONE as int));
    let t = if t0 < 0 {
        0int
    } else if t0 > ONE as int {
        ONE as int
    } else {
        t0
    };
    v3_add(
        v3_scale(V3 { x: ONE as int, y: ONE as int, z: ONE as int }, fx_sub(ONE as int, t)),
        v3_scale(V3 { x: HALF as int, y: SKY_G as int, z: ONE as int }, t),
    )
}

/// Every channel of the background blend lies in the unit interval.
pub proof fn lemma_background_range(dir: V3)
    ensures
        v3_in_unit_range(spec_background(dir)),
{
    let one = ONE as int;
    let unit = v3_unit(dir);
    let t0 = fx_mul(HALF as int, fx_add(unit.y, one));
    let t = if t0 < 0 {
        0int
    } else if t0 > one {
        one
    } else {
        t0
    };
    crate::fixed::lemma_fx_mul_one(fx_sub(one, t));
    crate::fixed::lemma_fx_mul_unit_range(HALF as int, t);
    crate::fixed::lemma_fx_mul_unit_range(SKY_G as int, t);
    crate::fixed::lemma_fx_mul_unit_range(one, t);
}

/// No sphere of `world` meets `ray` within the standard query
/// interval.
pub open spec fn ray_misses_scene(world: HittableList, ray: Ray) -> bool {
    forall|i: int| 0 <= i < world.objects@.len()
        ==> #[trigger] spec_sphere_hit(world.objects@[i], ray, T_EPS as int, T_FAR as int)
            is None
}

/// Every material in the scene has a unit-range base color (the
/// premise under which the integrator's output stays in the unit
/// range).
pub open spec fn scene_albedos_ok(world: HittableList) -> bool {
    forall|i: int| 0 <= i < world.objects@.len()
        ==> albedo_ok(#[trigger] world.objects@[i].material)
}

/// `c` is an admissible radiance estimate for `ray` at the given
/// depth budget: black at an exhausted budget; the background blend
/// (or black, for a degenerate direction) when the scene is missed;
/// and on a hit, for some admissible scatter outcome, black if that
/// outcome absorbed, else the outcome's attenuation times some color
/// admissible for the scattered ray one bounce down.
pub open spec fn spec_ray_color_ok(world: HittableList, ray: Ray, depth: nat, c: V3) -> bool
    decreases depth,
{
    if depth == 0 {
        c == v3_black()
    } else {
        match spec_list_hit(world.objects@, ray, T_EPS as int, T_FAR as int) {
            None => c == (if v3_dot(ray.direction@, ray.direction@) > 0 {
                spec_background(ray.direction@)
            } else {
                v3_black()
            }),
            Some(rec) => ((exists|r: Option<AttenuatedRay>|
                    #[trigger] scatter_ok(rec.material, ray, rec, r) && r is None)
                && c == v3_black())
                || (exists|ar: AttenuatedRay, c2: V3|
                    scatter_ok(rec.material, ray, rec, Some(ar))
                    && spec_ray_color_ok(world, ar.scattered, (depth - 1) as nat, c2)
                    && c == #[trigger] v3_mul(ar.attenuation@, c2)),
        }
    }
}

/// Introduction of [`spec_ray_color_ok`] for a missed scene.
proof fn lemma_rc_ok_miss(world: HittableList, ray: Ray, depth: nat, c: V3)
    requires
        depth > 0,
        spec_list_hit(world.objects@, ray, T_EPS as int, T_FAR as int) is None,
        c == (if v3_dot(ray.direction@, ray.direction@) > 0 {
            spec_background(ray.direction@)
        } else {
            v3_black()
        }),
    ensures
        spec_ray_color_ok(world, ray, depth, c),
{
}

/// Introduction of [`spec_ray_color_ok`] for an absorbed sample.
#[verifier::rlimit(100)]
proof fn lemma_rc_ok_absorbed(world: HittableList, ray: Ray, depth: nat, rec: HitRecord)
    requires
        depth > 0,
        spec_list_hit(world.objects@, ray, T_EPS as int, T_FAR as int) == Some(rec),
        scatter_ok(rec.material, ray, rec, None::<AttenuatedRay>),
    ensures
        spec_ray_color_ok(world, ray, depth, v3_black()),
{
    let r = None::<AttenuatedRay>;
    match spec_list_hit(world.objects@, ray, T_EPS as int, T_FAR as int) {
        Some(rec2) => {
            assert(scatter_ok(rec2.material, ray, rec2, r) && r is None);
        },
        None => {},
    }
}

/// Introduction of [`spec_ray_color_ok`] for a scattered sample.
#[verifier::rlimit(100)]
proof fn lemma_rc_ok_scattered(world: HittableList, ray: Ray, depth: nat, rec: HitRecord,
    ar: AttenuatedRay, c2: V3)
    requires
        depth > 0,
        spec_list_hit(world.objects@, ray, T_EPS as int, T_FAR as int) == Some(rec),
        scatter_ok(rec.material, ray, rec, Some(ar)),
        spec_ray_color_ok(world, ar.scattered, (depth - 1) as nat, c2),
    ensures
        spec_ray_color_ok(world, ray, depth, v3_mul(ar.attenuation@, c2)),
{
    let c = v3_mul(ar.attenuation@, c2);
    match spec_list_hit(world.objects@, ray, T_EPS as int, T_FAR as int) {
        Some(rec2) => {
            assert(scatter_ok(rec2.material, ray, rec2, Some(ar))
                && spec_ray_color_ok(world, ar.scattered, (depth - 1) as nat, c2)
                && c == v3_mul(ar.attenuation@, c2));
        },
        None => {},
    }
}

/// The radiance carried back along a ray, estimated by following up
/// to `depth` random scatter events.
///
/// The result is an admissible estimate ([`spec_ray_color_ok`]),
/// which pins every outcome that does not depend on a random draw: an
/// exhausted depth budget yields black, a ray that escapes the whole
/// scene yields the background blend (in particular every ray does so
/// in an empty scene), a degenerate direction, which cannot be
/// normalized, yields black, and on a hit the result is the scatter
/// attenuation times the recursive estimate, or black on absorption.
/// When every base color in the scene is in the unit range, so is
/// every channel of the result.
#[verifier::rlimit(100)]
pub fn ray_color(ray: &Ray, world: &HittableList, depth: u32) -> (c: Color)
    requires
        list_wf(*world),
    ensures
        spec_ray_color_ok(*world, *ray, depth as nat, c@),
        (scene_albedos_ok(*world) ==> v3_in_unit_range(c@)),
        (depth == 0 ==> c@ == v3_black()),
        (depth > 0 && ray_misses_scene(*world, *ray)
            && v3_dot(ray.direction@, ray.direction@) > 0
            ==> c@ == spec_background(ray.direction@)),
        (depth > 0 && ray_misses_scene(*world, *ray)
            && v3_dot(ray.direction@, ray.direction@) == 0 ==> c@ == v3_black()),
        (depth > 0 && world.objects@.len() == 0
            && v3_dot(ray.direction@, ray.direction@) > 0
            ==> c@ == spec_background(ray.direction@)),
    decreases depth,
{
    if depth == 0 {
        return Color::new(0, 0, 0);
    }

    match world.hit(ray, T_EPS, T_FAR) {
        Some(hit_rec) => {
            proof {
                let i = choose|i: int| 0 <= i < world.objects@.len()
                    && #[trigger] spec_sphere_hit(world.objects@[i], *ray, T_EPS as int,
                        T_FAR as int) == Some(hit_rec);
                assert(sphere_wf(world.objects@[i]));
                lemma_sphere_hit_in_interval(world.objects@[i], *ray, T_EPS as int,
                    T_FAR as int);
                assert(hit_rec.material == world.objects@[i].material);
            }
            let sr = hit_rec.material.scatter(ray, &hit_rec);
            match sr {
                Some(r) => {
                    let bounced = ray_color(&r.scattered, world, depth - 1);
                    proof {
                        lemma_rc_ok_scattered(*world, *ray, depth as nat, hit_rec, r,
                            bounced@);
                        if scene_albedos_ok(*world) {
                            lemma_scatter_attenuation_range(hit_rec.material, *ray, hit_rec,
                                sr);
                            crate::fixed::lemma_fx_mul_unit_range(r.attenuation@.x,
                                bounced@.x);
                            crate::fixed::lemma_fx_mul_unit_range(r.attenuation@.y,
                                bounced@.y);
                            crate::fixed::lemma_fx_mul_unit_range(r.attenuation@.z,
                                bounced@.z);
                        }
                    }
                    Color::of_vec(r.attenuation.as_vec().mul(&bounced.as_vec()))
                },
                None => {
                    proof {
                        lemma_rc_ok_absorbed(*world, *ray, depth as nat, hit_rec);
                    }
                    Color::new(0, 0, 0)
                },
            }
        },
        None => {
            let c: Color = if ray.direction.length_squared() > 0 {
                let unit_direction = ray.direction.unit_vec();
                let t0: i64 = mul_fx(HALF, add_fx(unit_direction.y(), ONE));
                let t: i64 = if t0 < 0 {
                    0
                } else if t0 > ONE {
                    ONE
                } else {
                    t0
                };
                proof {
                    lemma_background_range(ray.direction@);
                }
                Color::of_vec(
                    Vec3::new(ONE, ONE, ONE).scale(sub_fx(ONE, t))
                        .add(&Vec3::new(HALF, SKY_G, ONE).scale(t)),
                )
            } else {
                Color::new(0, 0, 0)
            };
            proof {
                lemma_rc_ok_miss(*world, *ray, depth as nat, c@);
            }
            c
        },
    }
}

/// A channel clamped into `[0, 1]` and then square-rooted, the cheap
/// gamma-two correction applied before output.
pub open spec fn spec_gamma_channel(x: int) -> int {
    let clamped = if x < 0 {
        0int
    } else if x > ONE as int {
        ONE as int
    } else {
        x
    };
    fx_sqrt(clamped)
}

/// A gamma channel stays inside `[0, 1]`.
pub proof fn lemma_gamma_channel_range(x: int)
    ensures
        0 <= spec_gamma_channel(x) <= ONE as int,
{
    let clamped = if x < 0 {
        0int
    } else if x > ONE as int {
        ONE as int
    } else {
        x
    };
    lemma_int_sqrt_is(clamped * (SCALE as int));
    let r = int_sqrt(clamped * (SCALE as int));
    assert(clamped * (SCALE as int) <= (ONE as int) * (SCALE as int)) by (nonlinear_arith)
        requires 0 <= clamped <= ONE as int, SCALE as int == 65536;
    assert(r <= ONE as int) by (nonlinear_arith)
        requires
            0 <= r,
            r * r <= clamped * (SCALE as int),
            clamped * (SCALE as int) <= (ONE as int) * (SCALE as int),
            ONE as int == 65536,
            SCALE as int == 65536;
}

fn gamma_channel(x: i64) -> (r: i64)
    ensures
        r as int == spec_gamma_channel(x as int),
        0 <= r <= ONE,
{
    let clamped: i64 = if x < 0 {
        0
    } else if x > ONE {
        ONE
    } else {
        x
    };
    proof {
        lemma_gamma_channel_range(x as int);
    }
    sqrt_fx(clamped)
}

/// A color gamma-corrected channel by channel.
pub open spec fn spec_gamma(v: V3) -> V3 {
    V3 { x: spec_gamma_channel(v.x), y: spec_gamma_channel(v.y), z: spec_gamma_channel(v.z) }
}

/// `sc` is an admissible radiance estimate for one jittered camera
/// sample of pixel `(x, y)`: for some jitters in `[0, 1)` and some
/// lens disk sample, it is admissible for the ray the camera produces
/// at the jittered image-plane coordinates.
pub open spec fn pixel_sample_ok(cam: Camera, world: HittableList, x: int, y: int,
    image_width: int, image_height: int, depth: nat, sc: V3) -> bool {
    exists|ju: int, jv: int, p: V3|
        0 <= ju < ONE as int && 0 <= jv < ONE as int && v3_dot(p, p) < ONE as int && p.z == 0
        && spec_ray_color_ok(world, #[trigger] spec_get_ray(cam,
            fx_div(x * (ONE as int) + ju, (image_width - 1) * (ONE as int)),
            fx_div(y * (ONE as int) + jv, (image_height - 1) * (ONE as int)), p), depth, sc)
}

/// The running fixed-point average of the per-sample estimates: each
/// sample is divided by the sample count as it is accumulated, as the
/// executable loop does.
pub open spec fn spec_pixel_accum(samples: Seq<V3>, spp: int) -> V3
    decreases samples.len(),
{
    if samples.len() == 0 {
        v3_black()
    } else {
        v3_add(spec_pixel_accum(samples.drop_last(), spp),
            v3_divs(samples.last(), spp * (ONE as int)))
    }
}

/// Gamma-correct a linear color for output: every channel is clamped
/// into the unit range and square-rooted (gamma two).
pub fn gamma_correct(c: &Color) -> (r: Color)
    ensures
        r@ == spec_gamma(c@),
        0 <= r@.x <= ONE as int,
        0 <= r@.y <= ONE as int,
        0 <= r@.z <= ONE as int,
{
    Color(Vec3 {
        x: gamma_channel(c.0.x),
        y: gamma_channel(c.0.y),
        z: gamma_channel(c.0.z),
    })
}

/// The full radiance estimate for one pixel: `samples_per_pixel`
/// jittered camera rays, averaged, gamma-corrected and clamped into
/// the unit range, ready for serialization.  The result is exactly
/// the gamma correction of the running fixed-point average of that
/// many admissible per-sample estimates.
pub fn render_pixel(camera: &Camera, world: &HittableList, x: u32, y: u32, image_width: u32,
    image_height: u32, samples_per_pixel: u32, max_depth: u32) -> (c: Color)
    requires
        list_wf(*world),
        2 <= image_width <= 65536,
        2 <= image_height <= 65536,
        x < image_width,
        y < image_height,
        1 <= samples_per_pixel <= 65536,
    ensures
        exists|samples: Seq<V3>|
            samples.len() == samples_per_pixel
            && (forall|i: int| 0 <= i < samples.len() ==> pixel_sample_ok(*camera, *world,
                x as int, y as int, image_width as int, image_height as int,
                max_depth as nat, #[trigger] samples[i]))
            && c@ == spec_gamma(#[trigger] spec_pixel_accum(samples,
                samples_per_pixel as int)),
        0 <= c@.x <= ONE as int,
        0 <= c@.y <= ONE as int,
        0 <= c@.z <= ONE as int,
{
    let mut pixel_color = Vec3::new(0, 0, 0);
    let u_denom: i64 = (image_width - 1) as i64 * ONE;
    let v_denom: i64 = (image_height - 1) as i64 * ONE;
    let samples_fx: i64 = samples_per_pixel as i64 * ONE;
    let ghost mut gsamples: Seq<V3> = Seq::empty();

    let mut s: u32 = 0;
    while s < samples_per_pixel
        invariant
            list_wf(*world),
            2 <= image_width <= 65536,
            2 <= image_height <= 65536,
            x < image_width,
            y < image_height,
            1 <= samples_per_pixel <= 65536,
            u_denom == (image_width - 1) as int * (ONE as int),
            v_denom == (image_height - 1) as int * (ONE as int),
            samples_fx == samples_per_pixel as int * (ONE as int),
            s <= samples_per_pixel,
            gsamples.len() == s as int,
            forall|i: int| 0 <= i < gsamples.len() ==> pixel_sample_ok(*camera, *world,
                x as int, y as int, image_width as int, image_height as int,
                max_depth as nat, #[trigger] gsamples[i]),
            pixel_color@ == spec_pixel_accum(gsamples, samples_per_pixel as int),
        decreases samples_per_pixel - s,
    {
        let ju: i64 = random_fx_in(0, ONE - 1);
        let jv: i64 = random_fx_in(0, ONE - 1);
        let u: i64 = div_fx(x as i64 * ONE + ju, u_denom);
        let v: i64 = div_fx(y as i64 * ONE + jv, v_denom);
        let ray = camera.get_ray(u, v);
        let sample = ray_color(&ray, world, max_depth);
        pixel_color = pixel_color.add(&sample.as_vec().div(samples_fx));
        proof {
            let prev = gsamples;
            let p = choose|p: V3| v3_dot(p, p) < ONE as int && p.z == 0
                && ray == #[trigger] spec_get_ray(*camera, u as int, v as int, p);
            assert(u as int == fx_div(x as int * (ONE as int) + ju as int,
                (image_width as int - 1) * (ONE as int)));
            assert(v as int == fx_div(y as int * (ONE as int) + jv as int,
                (image_height as int - 1) * (ONE as int)));
            assert(spec_ray_color_ok(*world, spec_get_ray(*camera,
                fx_div(x as int * (ONE as int) + ju as int,
                    (image_width as int - 1) * (ONE as int)),
                fx_div(y as int * (ONE as int) + jv as int,
                    (image_height as int - 1) * (ONE as int)), p),
                max_depth as nat, sample@));
            assert(pixel_sample_ok(*camera, *world, x as int, y as int, image_width as int,
                image_height as int, max_depth as nat, sample@));
            gsamples = prev.push(sample@);
            assert(gsamples.drop_last() =~= prev);
            assert(gsamples.last() == sample@);
            assert(pixel_color@ == spec_pixel_accum(gsamples, samples_per_pixel as int));
        }
        s = s + 1;
    }

    let result = gamma_correct(&Color::of_vec(pixel_color));
    proof {
        assert(gsamples.len() == samples_per_pixel);
        assert(forall|i: int| 0 <= i < gsamples.len() ==> pixel_sample_ok(*camera, *world,
            x as int, y as int, image_width as int, image_height as int,
            max_depth as nat, #[trigger] gsamples[i]));
        assert(result@ == spec_gamma(spec_pixel_accum(gsamples, samples_per_pixel as int)));
    }
    result
}

} // verus!
