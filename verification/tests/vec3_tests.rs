use raytracer::ray::Ray;
use raytracer::scalar::Scalar;
use raytracer::vec3::{Point3, Vector3};

fn s(x: f64) -> Scalar {
    Scalar::from_bits(x.to_bits())
}

fn f(x: Scalar) -> f64 {
    f64::from_bits(x.to_bits())
}

fn v(x: f64, y: f64, z: f64) -> Vector3 {
    Vector3::new(s(x), s(y), s(z))
}

#[test]
fn coordinate_correctly() {
    let x = 1.0;
    let y = 2.0;
    let z = 3.0;
    let vec = Vector3::new(s(x), s(y), s(z));

    assert_eq!(f(vec.x()), x);
    assert_eq!(f(vec.y()), y);
    assert_eq!(f(vec.z()), z);
}

#[test]
fn default_vector_is_zero() {
    let zero = Vector3::new_default();
    assert_eq!(zero.x().to_bits(), 0.0f64.to_bits());
    assert_eq!(zero.y().to_bits(), 0.0f64.to_bits());
    assert_eq!(zero.z().to_bits(), 0.0f64.to_bits());
}

#[test]
fn negation_flips_every_sign() {
    let n = v(1.0, -2.5, 0.0).neg();
    assert_eq!(n.x().to_bits(), (-1.0f64).to_bits());
    assert_eq!(n.y().to_bits(), 2.5f64.to_bits());
    assert_eq!(n.z().to_bits(), (-0.0f64).to_bits());
    let twice = n.neg();
    assert_eq!(twice.x().to_bits(), 1.0f64.to_bits());
    assert_eq!(twice.y().to_bits(), (-2.5f64).to_bits());
    assert_eq!(twice.z().to_bits(), 0.0f64.to_bits());
}

#[test]
fn near_zero_needs_every_component_small() {
    assert!(v(0.0, 0.0, 0.0).near_zero());
    assert!(v(9.9e-9, -9.9e-9, 0.0).near_zero());
    assert!(v(-0.0, 5e-324, -1e-300).near_zero());
    assert!(!v(1e-8, 0.0, 0.0).near_zero());
    assert!(!v(0.0, -1e-8, 0.0).near_zero());
    assert!(!v(0.0, 0.0, 1.0).near_zero());
    assert!(!v(f64::NAN, 0.0, 0.0).near_zero());
    assert!(!v(0.0, f64::INFINITY, 0.0).near_zero());
}

#[test]
fn near_zero_matches_the_machine() {
    let values = [0.0, 1e-8, -1e-8, 9.999999999999999e-9, 1.0000000000000002e-8, 1e-9, -3.0];
    for &a in &values {
        for &b in &values {
            for &c in &values {
                let want = f64::abs(a) < 1e-8 && f64::abs(b) < 1e-8 && f64::abs(c) < 1e-8;
                assert_eq!(v(a, b, c).near_zero(), want);
            }
        }
    }
}

#[test]
fn normalizable_from_the_bound_on() {
    assert!(Vector3::normalizable(s(1e-160)));
    assert!(Vector3::normalizable(s(14.0)));
    assert!(Vector3::normalizable(s(f64::INFINITY)));
    assert!(!Vector3::normalizable(s(9.999999999999999e-161)));
    assert!(!Vector3::normalizable(s(0.0)));
    assert!(!Vector3::normalizable(s(-1.0)));
    // A squared length that is no number is not below the bound.
    assert!(Vector3::normalizable(s(f64::NAN)));
}

#[test]
fn unit_ball_keeps_what_is_neither_too_short_nor_outside() {
    assert!(Vector3::in_unit_ball(s(0.25)));
    assert!(Vector3::in_unit_ball(s(1.0)));
    assert!(Vector3::in_unit_ball(s(1e-160)));
    assert!(!Vector3::in_unit_ball(s(1.0000000000000002)));
    assert!(!Vector3::in_unit_ball(s(3.0)));
    assert!(!Vector3::in_unit_ball(s(0.0)));
    assert!(!Vector3::in_unit_ball(s(1e-161)));
}

#[test]
fn unit_disk_is_open() {
    assert!(Vector3::in_unit_disk(s(0.0)));
    assert!(Vector3::in_unit_disk(s(0.9999999999999999)));
    assert!(!Vector3::in_unit_disk(s(1.0)));
    assert!(!Vector3::in_unit_disk(s(2.0)));
    assert!(!Vector3::in_unit_disk(s(f64::NAN)));
}

#[test]
fn toward_negates_under_a_negative_product_only() {
    let a = v(1.0, 2.0, 3.0);
    let kept = a.toward(s(0.5));
    assert_eq!(f(kept.x()), 1.0);
    assert_eq!(f(kept.y()), 2.0);
    assert_eq!(f(kept.z()), 3.0);
    let level = a.toward(s(0.0));
    assert_eq!(f(level.x()), 1.0);
    let turned = a.toward(s(-0.5));
    assert_eq!(f(turned.x()), -1.0);
    assert_eq!(f(turned.y()), -2.0);
    assert_eq!(f(turned.z()), -3.0);
    let undecided = a.toward(s(f64::NAN));
    assert_eq!(f(undecided.x()), 1.0);
}

#[test]
fn vectors_compare_by_value() {
    assert!(v(1.0, 2.0, 3.0) == v(1.0, 2.0, 3.0));
    assert!(v(0.0, 2.0, 3.0) == v(-0.0, 2.0, 3.0));
    assert!(v(1.0, 2.0, 3.0) != v(1.0, 2.0, 3.5));
    assert!(v(f64::NAN, 2.0, 3.0) != v(f64::NAN, 2.0, 3.0));
    assert!(s(0.0) == s(-0.0));
    assert!(s(f64::NAN) != s(f64::NAN));
    assert!(s(1.0) != s(2.0));
}

#[test]
fn ray_keeps_origin_and_direction() {
    let origin = Point3::new(s(1.0), s(2.0), s(3.0));
    let direction = v(0.0, 0.0, -1.0);
    let ray = Ray::new(&origin, &direction);
    assert!(*ray.origin() == origin);
    assert!(*ray.direction() == direction);
    let still = Ray::new_default();
    assert!(*still.origin() == Vector3::new_default());
    assert!(*still.direction() == Vector3::new_default());
    assert_eq!(still.direction().z().to_bits(), 0);
}
