use ray_tracer::camera::Camera;
use ray_tracer::color::Color;
use ray_tracer::fixed::{ONE, HALF};
use ray_tracer::hittable_list::HittableList;
use ray_tracer::material::{Dielectric, Lambertian, Material, Metal};
use ray_tracer::point3::Point3;
use ray_tracer::progress_bar::ProgressBar;
use ray_tracer::ray::Ray;
use ray_tracer::render::{gamma_correct, ray_color, render_pixel, SKY_G, T_EPS};
use ray_tracer::sphere::Sphere;
use ray_tracer::vec3::Vec3;

#[test]
fn empty_scene_yields_the_background_gradient() {
    let world = HittableList::default();
    // Straight down -z: the background blend at the horizon midpoint,
    // (1-t) * white + t * (0.5, 0.7, 1.0) with t == 0.5.
    let ray = Ray::new(Point3::new(0, 0, 0), Vec3::new(0, 0, -ONE));
    let c = ray_color(&ray, &world, 5);
    assert_eq!(HALF + HALF / 2, c.r());
    assert_eq!(HALF + 22937, c.g());
    assert_eq!(ONE, c.b());
    // Straight up +y: pure sky blue.
    let up = Ray::new(Point3::new(0, 0, 0), Vec3::new(0, ONE, 0));
    let sky = ray_color(&up, &world, 5);
    assert_eq!(HALF, sky.r());
    assert_eq!(SKY_G, sky.g());
    assert_eq!(ONE, sky.b());
}

#[test]
fn background_blend_factor_is_capped() {
    // A barely normalizable direction overshoots unit length after
    // fixed-point normalization; the blend factor caps at one and the
    // background saturates at pure sky blue instead of overshooting.
    let world = HittableList::default();
    let ray = Ray::new(Point3::new(0, 0, 0), Vec3::new(1, 362, 1));
    let c = ray_color(&ray, &world, 3);
    assert_eq!(HALF, c.r());
    assert_eq!(SKY_G, c.g());
    assert_eq!(ONE, c.b());
}

#[test]
fn depth_zero_is_black_regardless_of_scene() {
    let mut world = HittableList::default();
    world.add(Sphere::new(
        Point3::new(0, 0, -2 * ONE),
        ONE,
        Material::Lambertian(Lambertian::new(Color::new(HALF, HALF, HALF))),
    ));
    for dir in [Vec3::new(0, 0, -ONE), Vec3::new(ONE, ONE, ONE), Vec3::new(0, -ONE, 0)] {
        let c = ray_color(&Ray::new(Point3::new(0, 0, 0), dir), &world, 0);
        assert_eq!(0, c.r());
        assert_eq!(0, c.g());
        assert_eq!(0, c.b());
    }
}

#[test]
fn last_bounce_before_exhaustion_is_black() {
    // One depth unit: the hit scatters, the recursive call bottoms
    // out at black, and the attenuated result is black again.
    for material in [
        Material::Lambertian(Lambertian::new(Color::new(HALF, HALF, HALF))),
        Material::Metal(Metal::new(Color::new(HALF, HALF, HALF), HALF)),
        Material::Dielectric(Dielectric::new(3 * HALF)),
    ] {
        let mut world = HittableList::default();
        world.add(Sphere::new(Point3::new(0, 0, -2 * ONE), ONE, material));
        let ray = Ray::new(Point3::new(0, 0, 0), Vec3::new(0, 0, -ONE));
        let c = ray_color(&ray, &world, 1);
        assert_eq!(0, c.r());
        assert_eq!(0, c.g());
        assert_eq!(0, c.b());
    }
}

#[test]
fn mirror_bounce_attenuates_the_background() {
    // A smooth metal sphere hit head-on: the ray reflects straight
    // back, the epsilon guard keeps it from re-hitting the surface it
    // left, it escapes to the background, and the result is the
    // background attenuated by the albedo, every step deterministic.
    let mut world = HittableList::default();
    world.add(Sphere::new(
        Point3::new(0, 0, -2 * ONE),
        ONE,
        Material::Metal(Metal::new(Color::new(HALF, HALF, HALF), 0)),
    ));
    let ray = Ray::new(Point3::new(0, 0, 0), Vec3::new(0, 0, -ONE));
    let c = ray_color(&ray, &world, 2);
    assert_eq!(24576, c.r()); // 0.5 * 0.75
    assert_eq!(27852, c.g()); // 0.5 * (0.75 + 0.7) / 2, floor-rounded
    assert_eq!(HALF, c.b()); // 0.5 * 1.0
}

#[test]
fn shadow_acne_epsilon_skips_the_self_intersection() {
    let mut world = HittableList::default();
    world.add(Sphere::new(
        Point3::new(0, 0, -ONE),
        ONE - 256,
        Material::Lambertian(Lambertian::new(Color::new(HALF, HALF, HALF))),
    ));
    // A ray starting on the surface: with the epsilon guard the
    // t == 0 self-intersection is skipped and the far side of the
    // sphere is reported instead.
    let on_surface = Ray::new(Point3::new(0, 0, -256), Vec3::new(0, 0, -ONE));
    let rec = world.hit(&on_surface, T_EPS, i64::MAX).unwrap();
    assert_eq!(2 * (ONE - 256), rec.t);
    // A permissive lower bound reports the self-intersection.
    let rec0 = world.hit(&on_surface, -1, i64::MAX).unwrap();
    assert_eq!(0, rec0.t);
}

#[test]
fn gamma_correction_clamps_and_takes_the_square_root() {
    let g = gamma_correct(&Color::new(ONE / 4, -ONE, 2 * ONE));
    assert_eq!(HALF, g.r()); // sqrt(1/4) == 1/2
    assert_eq!(0, g.g()); // negative light clamps to black
    assert_eq!(ONE, g.b()); // overbright clamps to full
    let id = gamma_correct(&Color::new(0, ONE, 4096));
    assert_eq!(0, id.r());
    assert_eq!(ONE, id.g());
    assert_eq!(ONE / 4, id.b()); // sqrt(1/16) == 1/4
}

#[test]
fn render_pixel_stays_in_unit_range() {
    let mut world = HittableList::default();
    world.add(Sphere::new(
        Point3::new(0, 0, -2 * ONE),
        ONE,
        Material::Metal(Metal::new(Color::new(HALF, 45875, ONE - 1), HALF)),
    ));
    let cam = Camera::new(
        Point3::new(0, 0, 0),
        Point3::new(0, 0, -ONE),
        Vec3::new(0, ONE, 0),
        ONE,
        ONE,
        HALF / 8,
        2 * ONE,
    );
    for (x, y) in [(0u32, 0u32), (3, 2), (7, 7)] {
        let c = render_pixel(&cam, &world, x, y, 8, 8, 4, 6);
        assert!(0 <= c.r() && c.r() <= ONE);
        assert!(0 <= c.g() && c.g() <= ONE);
        assert!(0 <= c.b() && c.b() <= ONE);
    }
}

#[test]
fn progress_bar_cell_counts() {
    let bar = ProgressBar::new(50);
    assert_eq!(0, bar.filled_cells(0, 200));
    assert_eq!(25, bar.filled_cells(100, 200));
    assert_eq!(50, bar.filled_cells(200, 200));
    assert_eq!(12, bar.filled_cells(50, 200));
}
