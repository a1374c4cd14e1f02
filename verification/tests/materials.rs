use ray_tracer::color::Color;
use ray_tracer::fixed::{ONE, HALF};
use ray_tracer::material::{AttenuatedRay, Dielectric, Lambertian, Material, Metal};
use ray_tracer::point3::Point3;
use ray_tracer::ray::Ray;
use ray_tracer::sphere::Sphere;
use ray_tracer::vec3::Vec3;

#[test]
fn schlick_head_on_equals_r0_and_grazing_is_one() {
    // Index ratio 1.5: r0 = ((1 - 1.5) / (1 + 1.5))^2 = 0.04,
    // which floor-rounds to 2621 at scale 2^16.
    let idx = 3 * HALF;
    assert_eq!(2621, Dielectric::schlick(ONE, idx));
    assert_eq!(ONE, Dielectric::schlick(0, idx));
}

#[test]
fn schlick_reflectance_grows_toward_grazing() {
    for idx in [ONE + 1, 3 * HALF, 2 * ONE, 16 * ONE] {
        assert!(Dielectric::schlick(ONE, idx) <= Dielectric::schlick(0, idx));
    }
}

#[test]
fn metal_clamps_roughness() {
    let albedo = Color::new(HALF, HALF, HALF);
    assert_eq!(0, Metal::new(albedo, -3 * ONE).roughness);
    assert_eq!(ONE, Metal::new(albedo, 2 * ONE).roughness);
    assert_eq!(HALF, Metal::new(albedo, HALF).roughness);
}

fn head_on_hit(material: Material) -> (Ray, ray_tracer::hit::HitRecord) {
    let sphere = Sphere::new(Point3::new(0, 0, -2 * ONE), ONE, material);
    let ray = Ray::new(Point3::new(0, 0, 0), Vec3::new(0, 0, -ONE));
    let rec = sphere.hit(&ray, 0, i64::MAX).expect("the ray points at the center");
    (ray, rec)
}

#[test]
fn lambertian_always_scatters_from_the_hit_point() {
    let albedo = Color::new(HALF, 13107, 6553);
    let (ray, rec) = head_on_hit(Material::Lambertian(Lambertian::new(albedo)));
    for _ in 0..20 {
        let ar: AttenuatedRay = rec.material.scatter(&ray, &rec).expect("diffuse never absorbs");
        assert_eq!(albedo.r(), ar.attenuation.r());
        assert_eq!(albedo.g(), ar.attenuation.g());
        assert_eq!(albedo.b(), ar.attenuation.b());
        assert_eq!(rec.p.z(), ar.scattered.origin.z());
    }
}

#[test]
fn smooth_metal_reflects_exactly() {
    let albedo = Color::new(HALF, HALF, HALF);
    let (ray, rec) = head_on_hit(Material::Metal(Metal::new(albedo, 0)));
    let ar = rec.material.scatter(&ray, &rec).expect("a head-on mirror bounce leaves");
    // Head-on against the +z normal, the reflection goes straight back.
    assert_eq!(0, ar.scattered.direction.x());
    assert_eq!(0, ar.scattered.direction.y());
    assert_eq!(ONE, ar.scattered.direction.z());
}

#[test]
fn dielectric_reflects_or_refracts_with_white_attenuation() {
    let (ray, rec) = head_on_hit(Material::Dielectric(Dielectric::new(3 * HALF)));
    for _ in 0..20 {
        let ar = rec.material.scatter(&ray, &rec).expect("glass never absorbs");
        assert_eq!(ONE, ar.attenuation.r());
        assert_eq!(ONE, ar.attenuation.g());
        assert_eq!(ONE, ar.attenuation.b());
        let z = ar.scattered.direction.z();
        // Straight back (reflected) or straight through (refracted).
        assert!(z == ONE || z == -ONE, "unexpected direction {z}");
        assert_eq!(0, ar.scattered.direction.x());
        assert_eq!(0, ar.scattered.direction.y());
    }
}

#[test]
fn color_ppm_bytes() {
    let (r, g, b) = Color::new(ONE, HALF, 0).to_bytes();
    assert_eq!(255, r);
    assert_eq!(127, g);
    assert_eq!(0, b);
    // Overbright channels scale past 255; serialization has no
    // further clamp of its own.
    let (over, _, _) = Color::new(2 * ONE, 0, 0).to_bytes();
    assert_eq!(510, over);
}

#[test]
fn color_random_ranges() {
    for _ in 0..50 {
        let c = Color::random();
        assert!(0 <= c.r() && c.r() < ONE);
        assert!(0 <= c.g() && c.g() < ONE);
        assert!(0 <= c.b() && c.b() < ONE);
        let d = Color::random_range(HALF, ONE);
        assert!(HALF <= d.r() && d.r() < ONE);
        assert!(HALF <= d.g() && d.g() < ONE);
        assert!(HALF <= d.b() && d.b() < ONE);
    }
}
