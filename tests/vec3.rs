use raytracer::fixed::ONE;
use raytracer::ray::Ray;
use raytracer::vec3::{Color3, Point3, Vec3};

fn fx(v: f64) -> i64 {
    (v * ONE as f64).round() as i64
}

fn v3(x: f64, y: f64, z: f64) -> Vec3 {
    Vec3(fx(x), fx(y), fx(z))
}

#[test]
fn general() {
    let ray = Ray {
        origin: v3(1.0, 2.0, 3.0),
        direction: v3(1.0, 2.0, 3.0),
    };
    assert_eq!(ray.at(fx(0.0)), v3(1.0, 2.0, 3.0));
    assert_eq!(ray.at(fx(1.0)), v3(2.0, 4.0, 6.0));
}

#[test]
fn coorditates() {
    let v = v3(1.0, 2.0, 3.0);
    assert_eq!(v.x(), fx(1.0));
    assert_eq!(v.y(), fx(2.0));
    assert_eq!(v.z(), fx(3.0));
}

#[test]
fn alias() {
    let p: Point3 = v3(1.0, 2.0, 3.0);
    assert_eq!(p.x(), fx(1.0));

    let c: Color3 = v3(1.0, 2.0, 3.0);
    assert_eq!(c.x(), fx(1.0));
}

#[test]
fn add_f64() {
    let v1 = v3(1.0, 2.0, 3.0);
    let v2 = v3(4.0, 5.0, 6.0);
    let v3_ = v1.add(v2);
    assert_eq!(v3_.x(), fx(5.0));
    assert_eq!(v3_.y(), fx(7.0));
    assert_eq!(v3_.z(), fx(9.0));
}

#[test]
fn add_assign() {
    let mut v = v3(1.0, 2.0, 3.0);
    v.add_assign_scalar(fx(1.0));
    assert_eq!(v, v3(2.0, 3.0, 4.0));
    v.add_assign(v3(1.0, 2.0, 3.0));
    assert_eq!(v, v3(3.0, 5.0, 7.0));
}

#[test]
fn subtract_f64() {
    let v1 = v3(1.0, 2.0, 3.0);
    let v2 = v3(4.0, 5.0, 6.0);
    let d = v1.sub(v2);
    assert_eq!(d.x(), fx(-3.0));
    assert_eq!(d.y(), fx(-3.0));
    assert_eq!(d.z(), fx(-3.0));
}

#[test]
fn mul_f64_scalar() {
    let v = v3(1.0, 2.0, 3.0);
    let u = v.mul_scalar(fx(2.0));
    assert_eq!(u, v3(2.0, 4.0, 6.0));
}

#[test]
fn mul_f64_vector() {
    let v = v3(1.0, 2.0, 3.0);
    let u = v3(2.0, 4.0, 6.0);
    assert_eq!(v.mul(u), v3(2.0, 8.0, 18.0));
}

#[test]
fn div_f64_vector() {
    let v = v3(1.0, 2.0, 6.0);
    let u = v3(2.0, 4.0, 6.0);
    assert_eq!(v.div(u), v3(0.5, 0.5, 1.0));
}

#[test]
fn index() {
    let v = v3(1.0, 2.0, 3.0);
    assert_eq!(v.index(0), fx(1.0));
    assert_eq!(v.index(1), fx(2.0));
    assert_eq!(v.index(2), fx(3.0));
}

#[test]
fn index_mut() {
    let mut v = v3(1.0, 2.0, 3.0);
    v.set_index(0, fx(4.0));
    assert_eq!(v.index(0), fx(4.0));
    assert_eq!(v.index(1), fx(2.0));
    assert_eq!(v.index(2), fx(3.0));
}

#[test]
fn eq() {
    assert_eq!(v3(1.0, 2.0, 3.0), v3(1.0, 2.0, 3.0));
    assert_ne!(v3(1.0, 2.0, 3.0), v3(1.0, 2.0, 4.0));
}

#[test]
fn length() {
    let v = v3(1.0, 2.0, 2.0);
    assert_eq!(v.length(), fx(3.));
}

#[test]
fn to_unit() {
    let v = v3(1.0, 2.0, 2.0);
    assert_eq!(v.to_unit().length(), fx(1.))
}

#[test]
fn is_close() {
    let v = v3(1.0, 2.0, 2.0);
    let u = v3(1.0, 2.0, 2.0);
    assert!(v.is_close(u));
    assert!(!v.is_close(u.add_scalar(fx(1.))));

    let v = v3(0., 0., 0.);
    assert!(v.is_close_scalar(fx(0.)));
    assert!(!v.is_close_scalar(fx(1.)))
}

#[test]
fn scalar_shift() {
    assert_eq!(v3(1.0, 2.0, 3.0).sub_scalar(fx(0.5)), v3(0.5, 1.5, 2.5));
    assert_eq!(v3(1.0, 2.0, 3.0).add_scalar(fx(0.5)), v3(1.5, 2.5, 3.5));
    assert_eq!(Vec3::new(1, 2, 3), Vec3(1, 2, 3));
}

#[test]
fn neg_and_cross() {
    assert_eq!(v3(1.0, -2.0, 0.5).neg(), v3(-1.0, 2.0, -0.5));
    let x = v3(1.0, 0.0, 0.0);
    let y = v3(0.0, 1.0, 0.0);
    assert_eq!(raytracer::vec3::cross(&x, &y), v3(0.0, 0.0, 1.0));
    assert_eq!(raytracer::vec3::dot(&v3(1.0, 2.0, 3.0), &v3(4.0, 5.0, 6.0)), fx(32.0));
}

#[test]
fn saturates_instead_of_overflowing() {
    let big = Vec3(i64::MAX, 0, 0);
    assert_eq!(big.add(big).x(), i64::MAX);
    assert_eq!(big.neg().x(), -i64::MAX);
    assert_eq!(raytracer::fixed::div_fixed(fx(1.0), 0), i64::MAX);
    assert_eq!(raytracer::fixed::div_fixed(fx(-1.0), 0), -i64::MAX);
}

#[test]
fn square_root_is_truncated() {
    assert_eq!(raytracer::fixed::sqrt_fixed(fx(4.0)), fx(2.0));
    assert_eq!(raytracer::fixed::sqrt_fixed(fx(2.0)), 92681);
    assert_eq!(raytracer::fixed::sqrt_fixed(fx(-1.0)), 0);
}
