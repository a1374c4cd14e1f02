use ray_tracer::fixed::{ONE, HALF};
use ray_tracer::vec3::Vec3;

#[test]
fn cross_product1() {
    let a = Vec3::new(ONE, 0, 0);
    let b = Vec3::new(0, ONE, 0);

    let c = a.cross(&b);
    assert_eq!(0, c.x());
    assert_eq!(0, c.y());
    assert_eq!(ONE, c.z());
}

#[test]
fn cross_product2() {
    let a = Vec3::new(2 * ONE, 3 * ONE, 4 * ONE);
    let b = Vec3::new(5 * ONE, 6 * ONE, 7 * ONE);

    let c = a.cross(&b);
    assert_eq!(-3 * ONE, c.x());
    assert_eq!(6 * ONE, c.y());
    assert_eq!(-3 * ONE, c.z());
}

#[test]
fn reflect_flips_the_normal_component() {
    let v = Vec3::new(12345, -6789, 4242);
    let n = Vec3::new(0, 0, ONE);
    let r = v.reflect(&n);
    assert_eq!(12345, r.x());
    assert_eq!(-6789, r.y());
    assert_eq!(-4242, r.z());
}

#[test]
fn reflect_is_involutive_about_an_axis_normal() {
    let v = Vec3::new(98765, -43210, 13579);
    for n in [
        Vec3::new(ONE, 0, 0),
        Vec3::new(-ONE, 0, 0),
        Vec3::new(0, ONE, 0),
        Vec3::new(0, -ONE, 0),
        Vec3::new(0, 0, ONE),
        Vec3::new(0, 0, -ONE),
    ] {
        let twice = v.reflect(&n).reflect(&n);
        assert_eq!(v.x(), twice.x());
        assert_eq!(v.y(), twice.y());
        assert_eq!(v.z(), twice.z());
    }
}

#[test]
fn dot_and_length() {
    let a = Vec3::new(3 * ONE, 4 * ONE, 0);
    assert_eq!(25 * ONE, a.length_squared());
    assert_eq!(5 * ONE, a.length());
    let b = Vec3::new(-ONE, 2 * ONE, ONE);
    assert_eq!(5 * ONE, a.dot(&b));
}

#[test]
fn unit_vec_normalizes_exactly_on_axes() {
    let a = Vec3::new(0, -7 * ONE, 0);
    let u = a.unit_vec();
    assert_eq!(0, u.x());
    assert_eq!(-ONE, u.y());
    assert_eq!(0, u.z());
}

#[test]
fn refract_passes_straight_through_head_on() {
    // Head-on at any index ratio: the bent ray continues straight.
    let v = Vec3::new(0, 0, -ONE);
    let n = Vec3::new(0, 0, ONE);
    let r = v.refract(n, 43690); // about 1/1.5
    assert_eq!(0, r.x());
    assert_eq!(0, r.y());
    assert_eq!(-ONE, r.z());
}

#[test]
fn random_range_with_a_single_value_returns_it() {
    let v = Vec3::random_range(5, 6);
    assert_eq!(5, v.x());
    assert_eq!(5, v.y());
    assert_eq!(5, v.z());
}

#[test]
fn random_samplers_stay_in_their_regions() {
    for _ in 0..100 {
        let v = Vec3::random();
        assert!(0 <= v.x() && v.x() < ONE);
        assert!(0 <= v.y() && v.y() < ONE);
        assert!(0 <= v.z() && v.z() < ONE);

        let s = Vec3::random_in_unit_sphere();
        assert!(s.length_squared() < ONE);

        let d = Vec3::random_in_unit_disk();
        assert_eq!(0, d.z());
        assert!(d.length_squared() < ONE);

        let u = Vec3::random_unit_vector();
        let ls = u.length_squared();
        // Unit length up to fixed-point rounding.
        assert!(3 * (ONE / 4) < ls && ls < ONE + ONE / 4, "squared length {ls}");
    }
}

#[test]
fn scale_by_half_halves() {
    let v = Vec3::new(6 * ONE, -3 * ONE, ONE);
    let h = v.scale(HALF);
    assert_eq!(3 * ONE, h.x());
    assert_eq!(-3 * HALF, h.y());
    assert_eq!(HALF, h.z());
}
