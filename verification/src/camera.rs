//! The camera: from normalized image-plane coordinates to sampled
//! world-space rays, with field of view, aspect ratio, and depth of
//! field.

use vstd::prelude::*;
use crate::fixed::{ONE, fx_add, fx_mul, fx_div, add_fx, mul_fx, div_fx};
use crate::vec3::{is_axis_unit, lemma_axis_cross, lemma_unit_of_axis};
use crate::point3::Point3;
use crate::ray::Ray;
use crate::vec3::{V3, Vec3, v3_add, v3_sub, v3_scale, v3_divs, v3_dot, v3_cross, v3_unit,
    v3_to_vec, lemma_vec_roundtrip};

verus! {

/// A camera fixed in world space: the lens origin, the viewport
/// rectangle (lower-left corner plus the two spanning vectors), the
/// orthonormal basis it was derived from, and the lens radius for
/// depth-of-field sampling.
#[derive(Clone, Copy, Debug, PartialEq, Eq, Structural)]
pub struct Camera {
    pub origin: Point3,
    pub lower_left_corner: Point3,
    pub horizontal: Vec3,
    pub vertical: Vec3,
    pub u: Vec3,
    pub v: Vec3,
    pub w: Vec3,
    pub lens_radius: i64,
}

/// The camera derived from a viewing geometry.  The vertical field of
/// view enters as the tangent of half the view angle, already a plain
/// scalar.
///
/// The basis `(u, v, w)` is orthonormal only up to normalization
/// rounding, and the error grows without bound as the up vector
/// approaches the viewing axis (which [`camera_geometry_ok`] still
/// admits).  On axis-aligned viewing geometries the basis is exactly
/// orthonormal ([`lemma_camera_axis_basis`]).
pub open spec fn spec_camera(origin: Point3, destination: Point3, view_up: Vec3,
    tan_half_fov: int, aspect_ratio: int, aperture: int, focus_dist: int) -> Camera {
    let viewport_height = fx_add(tan_half_fov, tan_half_fov);
    let viewport_width = fx_mul(aspect_ratio, viewport_height);
    let w = v3_unit(v3_sub(origin@, destination@));
    let u = v3_unit(v3_cross(view_up@, w));
    let v = v3_cross(w, u);
    let horizontal = v3_scale(u, fx_mul(focus_dist, viewport_width));
    let vertical = v3_scale(v, fx_mul(focus_dist, viewport_height));
    let lower_left_corner = v3_sub(v3_sub(v3_sub(origin@, v3_divs(horizontal, 2 * ONE)),
        v3_divs(vertical, 2 * ONE)), v3_scale(w, focus_dist));
    Camera {
        origin,
        lower_left_corner: Point3(v3_to_vec(lower_left_corner)),
        horizontal: v3_to_vec(horizontal),
        vertical: v3_to_vec(vertical),
        u: v3_to_vec(u),
        v: v3_to_vec(v),
        w: v3_to_vec(w),
        lens_radius: fx_div(aperture, 2 * (ONE as int)) as i64,
    }
}

/// The viewing geometry is non-degenerate: the origin and the look-at
/// point are apart, and the up vector is not parallel to the viewing
/// axis.
pub open spec fn camera_geometry_ok(origin: Point3, destination: Point3, view_up: Vec3) -> bool {
    let od = v3_sub(origin@, destination@);
    let cr = v3_cross(view_up@, v3_unit(od));
    v3_dot(od, od) > 0 && v3_dot(cr, cr) > 0
}

/// The ray produced for image-plane coordinates `(u, v)` and the lens
/// disk sample `p`.
pub open spec fn spec_get_ray(cam: Camera, u: int, v: int, p: V3) -> Ray {
    let rd = v3_scale(p, cam.lens_radius as int);
    let offset = v3_add(v3_scale(cam.u@, rd.x), v3_scale(cam.v@, rd.y));
    Ray {
        origin: Point3(v3_to_vec(v3_add(cam.origin@, offset))),
        direction: v3_to_vec(v3_sub(v3_sub(v3_add(v3_add(cam.lower_left_corner@,
            v3_scale(cam.horizontal@, u)), v3_scale(cam.vertical@, v)), cam.origin@), offset)),
    }
}

/// On an axis-aligned viewing geometry — the viewing axis along one
/// of the six exactly representable unit directions, at a 256-grid
/// distance, and the up vector along an orthogonal axis — the derived
/// basis is exactly orthonormal: every normalization and cross
/// product lands on the grid and no rounding occurs.
#[verifier::rlimit(100)]
pub proof fn lemma_camera_axis_basis(origin: Point3, destination: Point3, view_up: Vec3,
    tan_half_fov: int, aspect_ratio: int, aperture: int, focus_dist: int, wa: V3, k: int)
    requires
        is_axis_unit(wa),
        is_axis_unit(view_up@),
        v3_dot(view_up@, wa) == 0,
        v3_sub(origin@, destination@) == v3_scale(wa, k),
        k % 256 == 0,
        0 < k <= 0x80000000,
    ensures
        ({
            let cam = spec_camera(origin, destination, view_up, tan_half_fov, aspect_ratio,
                aperture, focus_dist);
            cam.w@ == wa
                && v3_dot(cam.u@, cam.u@) == ONE as int
                && v3_dot(cam.v@, cam.v@) == ONE as int
                && v3_dot(cam.w@, cam.w@) == ONE as int
                && v3_dot(cam.u@, cam.v@) == 0
                && v3_dot(cam.u@, cam.w@) == 0
                && v3_dot(cam.v@, cam.w@) == 0
        }),
{
    let one = ONE as int;
    crate::fixed::lemma_fx_mul_one(one);
    crate::fixed::lemma_fx_mul_one(-one);
    crate::fixed::lemma_fx_mul_zero(0);
    crate::fixed::lemma_fx_mul_one(k);
    crate::fixed::lemma_fx_mul_zero(k);

    let od = v3_sub(origin@, destination@);
    assert(od == v3_scale(wa, k));
    crate::fixed::lemma_fx_square_exact(k);
    assert(fx_mul(-k, -k) == fx_mul(k, k)) by {
        assert((-k) * (-k) == k * k) by (nonlinear_arith);
    }
    assert(v3_dot(od, od) == fx_mul(k, k));
    crate::fixed::lemma_fx_sqrt_square(k);
    crate::fixed::lemma_fx_div_self(k);
    let w = v3_unit(od);
    assert(w == wa);

    lemma_axis_cross(view_up@, wa);
    let cu = v3_cross(view_up@, wa);
    lemma_unit_of_axis(cu);
    let u = v3_unit(cu);
    assert(u == cu);

    assert(v3_dot(wa, cu) == 0);
    lemma_axis_cross(wa, cu);
    let v = v3_cross(wa, cu);
    lemma_unit_of_axis(v);
    lemma_unit_of_axis(wa);
    lemma_unit_of_axis(view_up@);
}

/// Whether a viewing geometry is non-degenerate, computed at run time
/// so a caller can test before constructing a camera.
pub fn camera_inputs_ok(origin: &Point3, destination: &Point3, view_up: &Vec3) -> (ok: bool)
    ensures
        ok == camera_geometry_ok(*origin, *destination, *view_up),
{
    let od = origin.as_vec().sub(&destination.as_vec());
    if od.length_squared() <= 0 {
        return false;
    }
    let w = od.unit_vec();
    let cr = view_up.cross(&w);
    cr.length_squared() > 0
}

impl Camera {
    /// Derive a camera from its viewing geometry.  `tan_half_fov` is
    /// the tangent of half the vertical field of view; the caller
    /// evaluates the tangent, everything after that point is plain
    /// arithmetic.
    pub fn new(origin: Point3, destination: Point3, view_up: Vec3, tan_half_fov: i64,
        aspect_ratio: i64, aperture: i64, focus_dist: i64) -> (r: Camera)
        requires
            camera_geometry_ok(origin, destination, view_up),
        ensures
            r == spec_camera(origin, destination, view_up, tan_half_fov as int,
                aspect_ratio as int, aperture as int, focus_dist as int),
    {
        let viewport_height: i64 = add_fx(tan_half_fov, tan_half_fov);
        let viewport_width: i64 = mul_fx(aspect_ratio, viewport_height);

        let w = origin.as_vec().sub(&destination.as_vec()).unit_vec();
        let u = view_up.cross(&w).unit_vec();
        let v = w.cross(&u);

        let horizontal = u.scale(mul_fx(focus_dist, viewport_width));
        let vertical = v.scale(mul_fx(focus_dist, viewport_height));
        let lower_left_corner = origin
            .sub_vec(&horizontal.div(2 * ONE))
            .sub_vec(&vertical.div(2 * ONE))
            .sub_vec(&w.scale(focus_dist));

        proof {
            lemma_vec_roundtrip(w);
            lemma_vec_roundtrip(u);
            lemma_vec_roundtrip(v);
            lemma_vec_roundtrip(horizontal);
            lemma_vec_roundtrip(vertical);
            lemma_vec_roundtrip(lower_left_corner.0);
        }
        Camera {
            origin,
            lower_left_corner,
            horizontal,
            vertical,
            u,
            v,
            w,
            lens_radius: div_fx(aperture, 2 * ONE),
        }
    }

    /// A sampled ray toward the viewport point at normalized
    /// coordinates `(u, v)`, its origin jittered over the lens disk
    /// for depth of field.
    pub fn get_ray(&self, u: i64, v: i64) -> (r: Ray)
        ensures
            exists|p: V3| v3_dot(p, p) < ONE as int && p.z == 0
                && r == #[trigger] spec_get_ray(*self, u as int, v as int, p),
    {
        let sample = Vec3::random_in_unit_disk();
        let rd = sample.scale(self.lens_radius);
        let offset = self.u.scale(rd.x()).add(&self.v.scale(rd.y()));

        let dir = self.lower_left_corner.as_vec()
            .add(&self.horizontal.scale(u))
            .add(&self.vertical.scale(v))
            .sub(&self.origin.as_vec())
            .sub(&offset);
        let r = Ray::new(self.origin.add_vec(&offset), dir);
        proof {
            lemma_vec_roundtrip(r.origin.0);
            lemma_vec_roundtrip(dir);
            assert(v3_dot(sample@, sample@) < ONE as int && sample@.z == 0
                && r == spec_get_ray(*self, u as int, v as int, sample@));
        }
        r
    }
}

} // verus!
