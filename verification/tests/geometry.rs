use ray_tracer::camera::Camera;
use ray_tracer::color::Color;
use ray_tracer::fixed::{ONE, HALF};
use ray_tracer::hittable_list::HittableList;
use ray_tracer::material::{Lambertian, Material};
use ray_tracer::point3::Point3;
use ray_tracer::ray::Ray;
use ray_tracer::sphere::Sphere;
use ray_tracer::vec3::Vec3;

fn gray() -> Material {
    Material::Lambertian(Lambertian::new(Color::new(HALF, HALF, HALF)))
}

#[test]
fn head_on_hit_reports_distance_minus_radius() {
    // A sphere two units ahead with radius one: the hit is one unit out.
    let sphere = Sphere::new(Point3::new(0, 0, -2 * ONE), ONE, gray());
    let ray = Ray::new(Point3::new(0, 0, 0), Vec3::new(0, 0, -ONE));
    let rec = sphere.hit(&ray, 0, i64::MAX).expect("the ray points at the center");
    assert_eq!(ONE, rec.t);
    assert_eq!(0, rec.normal.x());
    assert_eq!(0, rec.normal.y());
    assert_eq!(ONE, rec.normal.z());
    assert!(rec.front_face);
    assert_eq!(-ONE, rec.p.z());
}

#[test]
fn unit_sphere_half_radius_hit() {
    // A sphere of radius 0.5 centered at (0, 0, -1), probed straight
    // down the z-axis: the hit is at t == 0.5, point (0, 0, -0.5).
    let mut world = HittableList::default();
    world.add(Sphere::new(Point3::new(0, 0, -ONE), HALF, gray()));
    let ray = Ray::new(Point3::new(0, 0, 0), Vec3::new(0, 0, -ONE));
    let rec = world.hit(&ray, 0, i64::MAX).expect("the ray points at the center");
    assert_eq!(HALF, rec.t);
    assert_eq!(0, rec.p.x());
    assert_eq!(0, rec.p.y());
    assert_eq!(-HALF, rec.p.z());
    assert_eq!(ONE, rec.normal.z());
}

#[test]
fn negative_radius_flips_the_outward_normal() {
    // From the center of a hollow shell of radius -1: the naive
    // (hit - center) / |radius| formula would point along the ray
    // (0, 0, -1); the negative radius flips it back toward the center.
    let sphere = Sphere::new(Point3::new(0, 0, 0), -ONE, gray());
    let ray = Ray::new(Point3::new(0, 0, 0), Vec3::new(0, 0, -ONE));
    let rec = sphere.hit(&ray, 0, i64::MAX).expect("the shell surrounds the origin");
    assert_eq!(ONE, rec.t);
    assert_eq!(0, rec.normal.x());
    assert_eq!(0, rec.normal.y());
    assert_eq!(ONE, rec.normal.z());
    assert!(rec.front_face);
}

#[test]
fn miss_and_interval_bounds() {
    let sphere = Sphere::new(Point3::new(0, 0, -4 * ONE), ONE, gray());
    // Pointing away: no hit.
    let away = Ray::new(Point3::new(0, 0, 0), Vec3::new(0, 0, ONE));
    assert!(sphere.hit(&away, 0, i64::MAX).is_none());
    // The hit at t == 3 is excluded once t_max shrinks to it.
    let toward = Ray::new(Point3::new(0, 0, 0), Vec3::new(0, 0, -ONE));
    assert!(sphere.hit(&toward, 0, 3 * ONE).is_none());
    assert!(sphere.hit(&toward, 0, 3 * ONE + 1).is_some());
}

#[test]
fn exactly_tangent_ray_is_a_miss() {
    // The ray grazes the sphere: the discriminant is exactly zero,
    // which counts as a miss.
    let sphere = Sphere::new(Point3::new(0, ONE, -2 * ONE), ONE, gray());
    let ray = Ray::new(Point3::new(0, 0, 0), Vec3::new(0, 0, -ONE));
    assert!(sphere.hit(&ray, 0, i64::MAX).is_none());
}

#[test]
fn nearest_of_two_spheres_wins_in_any_order() {
    let near = Sphere::new(Point3::new(0, 0, -2 * ONE), ONE, gray());
    let far = Sphere::new(Point3::new(0, 0, -6 * ONE), ONE, gray());
    let ray = Ray::new(Point3::new(0, 0, 0), Vec3::new(0, 0, -ONE));

    let mut world = HittableList::default();
    world.add(near);
    world.add(far);
    assert_eq!(ONE, world.hit(&ray, 0, i64::MAX).unwrap().t);

    world.clear();
    world.add(far);
    world.add(near);
    assert_eq!(ONE, world.hit(&ray, 0, i64::MAX).unwrap().t);
}

#[test]
fn camera_with_closed_aperture_is_deterministic() {
    assert!(ray_tracer::camera::camera_inputs_ok(
        &Point3::new(0, 0, 0),
        &Point3::new(0, 0, -ONE),
        &Vec3::new(0, ONE, 0),
    ));
    let cam = Camera::new(
        Point3::new(0, 0, 0),
        Point3::new(0, 0, -ONE),
        Vec3::new(0, ONE, 0),
        ONE, // tan of half a 90-degree field of view
        ONE,
        0,
        ONE,
    );
    // On this axis-aligned geometry the derived basis is exactly
    // orthonormal.
    assert_eq!((ONE, 0, 0), (cam.u.x(), cam.u.y(), cam.u.z()));
    assert_eq!((0, ONE, 0), (cam.v.x(), cam.v.y(), cam.v.z()));
    assert_eq!((0, 0, ONE), (cam.w.x(), cam.w.y(), cam.w.z()));
    assert_eq!(0, cam.u.dot(&cam.v));
    assert_eq!(0, cam.u.dot(&cam.w));
    assert_eq!(0, cam.v.dot(&cam.w));
    let ray = cam.get_ray(HALF, HALF);
    assert_eq!(0, ray.origin.x());
    assert_eq!(0, ray.origin.y());
    assert_eq!(0, ray.origin.z());
    assert_eq!(0, ray.direction.x());
    assert_eq!(0, ray.direction.y());
    assert_eq!(-ONE, ray.direction.z());
}

#[test]
fn degenerate_camera_geometry_is_rejected() {
    // Coincident origin and look-at point.
    assert!(!ray_tracer::camera::camera_inputs_ok(
        &Point3::new(ONE, ONE, ONE),
        &Point3::new(ONE, ONE, ONE),
        &Vec3::new(0, ONE, 0),
    ));
    // Up vector parallel to the viewing axis.
    assert!(!ray_tracer::camera::camera_inputs_ok(
        &Point3::new(0, 0, 0),
        &Point3::new(0, 0, -ONE),
        &Vec3::new(0, 0, ONE),
    ));
}

#[test]
fn ray_at_walks_the_direction() {
    let ray = Ray::new(Point3::new(ONE, 0, 0), Vec3::new(0, 0, -2 * ONE));
    let p = ray.at(HALF);
    assert_eq!(ONE, p.x());
    assert_eq!(0, p.y());
    assert_eq!(-ONE, p.z());
}
