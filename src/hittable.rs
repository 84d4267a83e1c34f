//! Spheres and the ray-sphere intersection test.
use vstd::prelude::*;
use crate::fixed::{
    lemma_add_neg, lemma_isqrt_exists, lemma_isqrt_le, lemma_mul_neg, lemma_quot_nonpos,
    lemma_square_nonneg, fx_add, fx_mul, fx_neg, fx_quot, fx_sub, in_range, int_sqrt, isqrt, is_isqrt,
    lemma_isqrt_unique, lemma_product_bound, lemma_wide_sqrt_bound, mul_fixed, quot_wide,
    sub_fixed, MAXV,
};
use crate::materials::Material;
use crate::ray::{ray_at, Ray};
use crate::vec3::{dot, vdot, vneg, vshrink, vsub, Point3, Vec3};

verus! {

/// What a ray meets at an accepted intersection.
#[derive(Clone, Copy, Debug, PartialEq, Eq, Structural)]
pub struct HitRecord {
    pub p: Point3,
    /// The surface normal, turned to face the incoming ray.
    pub normal: Vec3,
    pub material: Material,
    pub t: i64,
    /// Whether the ray meets the surface from outside.
    pub front_face: bool,
}

#[derive(Clone, Copy, Debug, PartialEq, Eq, Structural)]
pub struct Sphere {
    pub center: Point3,
    pub radius: i64,
    pub material: Material,
}

/// `dot(d, d)` of the quadratic in `t`.
pub open spec fn quad_a(s: Sphere, r: Ray) -> i64 {
    vdot(r.direction, r.direction)
}

/// Half of the linear coefficient: `dot(origin - center, d)`.
pub open spec fn quad_half_b(s: Sphere, r: Ray) -> i64 {
    vdot(vsub(r.origin, s.center), r.direction)
}

/// `dot(oc, oc) - radius^2`: positive when the origin lies outside.
pub open spec fn quad_c(s: Sphere, r: Ray) -> i64 {
    let oc = vsub(r.origin, s.center);
    fx_sub(vdot(oc, oc), fx_mul(s.radius, s.radius))
}

/// The quarter discriminant `half_b^2 - a c`, exact, in squared raw units.
pub open spec fn quad_disc(s: Sphere, r: Ray) -> int {
    let hb = quad_half_b(s, r) as int;
    hb * hb - (quad_a(s, r) as int) * (quad_c(s, r) as int)
}

pub open spec fn near_root(s: Sphere, r: Ray) -> i64 {
    fx_quot(-(quad_half_b(s, r) as int) - isqrt(quad_disc(s, r)), quad_a(s, r))
}

pub open spec fn far_root(s: Sphere, r: Ray) -> i64 {
    fx_quot(-(quad_half_b(s, r) as int) + isqrt(quad_disc(s, r)), quad_a(s, r))
}

/// The normal `(p - center) / radius`, pointing out of the sphere.
pub open spec fn outward_normal(s: Sphere, r: Ray, t: i64) -> Vec3 {
    vshrink(vsub(ray_at(r, t), s.center), s.radius)
}

/// The record of the intersection at parameter `t`.
pub open spec fn record_at(s: Sphere, r: Ray, t: i64) -> HitRecord {
    let outward = outward_normal(s, r, t);
    let front_face = vdot(r.direction, outward) < 0;
    HitRecord {
        p: ray_at(r, t),
        normal: if front_face {
            outward
        } else {
            vneg(outward)
        },
        material: s.material,
        t,
        front_face,
    }
}

/// The nearer root within `[t_min, t_max]`, if either root lies there.
#[verifier::opaque]
pub open spec fn sphere_hit(s: Sphere, r: Ray, t_min: i64, t_max: i64) -> Option<HitRecord> {
    if quad_disc(s, r) < 0 {
        None
    } else if t_min <= near_root(s, r) <= t_max {
        Some(record_at(s, r, near_root(s, r)))
    } else if t_min <= far_root(s, r) <= t_max {
        Some(record_at(s, r, far_root(s, r)))
    } else {
        None
    }
}

proof fn lemma_disc_fits(s: Sphere, r: Ray)
    ensures
        -0x7fff_ffff_ffff_ffff_ffff_ffff_ffff_ffff <= quad_disc(s, r)
            <= 0x7fff_ffff_ffff_ffff_ffff_ffff_ffff_ffff,
{
    let hb = quad_half_b(s, r);
    let a = quad_a(s, r);
    let c = quad_c(s, r);
    lemma_product_bound(hb, hb);
    lemma_product_bound(a, c);
}

/// The components of a vector quotient stay in range.
proof fn lemma_shrink_in_range(v: Vec3, k: i64)
    ensures
        in_range(vshrink(v, k).0),
        in_range(vshrink(v, k).1),
        in_range(vshrink(v, k).2),
{
}

/// Negating the second vector of a dot product negates the product, when the
/// second vector's components are in range.
pub proof fn lemma_dot_neg(d: Vec3, n: Vec3)
    requires
        in_range(n.0),
        in_range(n.1),
        in_range(n.2),
    ensures
        vdot(d, vneg(n)) == -vdot(d, n),
{
    lemma_mul_neg(d.0, n.0);
    lemma_mul_neg(d.1, n.1);
    lemma_mul_neg(d.2, n.2);
    let m0 = fx_mul(d.0, n.0);
    let m1 = fx_mul(d.1, n.1);
    let m2 = fx_mul(d.2, n.2);
    lemma_add_neg(m0, m1);
    lemma_add_neg(fx_add(m0, m1), m2);
}

/// The dot product of a vector with itself is not negative.
pub proof fn lemma_dot_self_nonneg(v: Vec3)
    ensures
        vdot(v, v) >= 0,
{
    lemma_square_nonneg(v.0);
    lemma_square_nonneg(v.1);
    lemma_square_nonneg(v.2);
}

/// A ray whose origin lies strictly outside a sphere and whose direction
/// does not point toward the center meets the sphere at no positive
/// parameter.
pub proof fn lemma_receding_ray_misses(s: Sphere, r: Ray, t_min: i64, t_max: i64)
    requires
        quad_c(s, r) > 0,
        quad_half_b(s, r) >= 0,
        t_min > 0,
    ensures
        sphere_hit(s, r, t_min, t_max) is None,
{
    reveal(sphere_hit);
    let a = quad_a(s, r) as int;
    let hb = quad_half_b(s, r) as int;
    let c = quad_c(s, r) as int;
    let disc = quad_disc(s, r);
    lemma_dot_self_nonneg(r.direction);
    assert(a * c >= 0) by (nonlinear_arith)
        requires
            a >= 0,
            c > 0,
    ;
    if disc >= 0 {
        lemma_isqrt_exists(disc);
        let sq = isqrt(disc);
        lemma_isqrt_le(disc, sq, hb);
        lemma_quot_nonpos(-hb - sq, quad_a(s, r));
        lemma_quot_nonpos(-hb + sq, quad_a(s, r));
    }
}

/// The recorded normal never points along the ray: its dot product with the
/// direction is zero only where the ray grazes the surface, and negative
/// otherwise; `front_face` says whether the outward normal already faced
/// the ray.
pub proof fn lemma_normal_faces_ray(s: Sphere, r: Ray, t_min: i64, t_max: i64)
    ensures
        match sphere_hit(s, r, t_min, t_max) {
            Some(h) => {
                &&& vdot(r.direction, h.normal) <= 0
                &&& (vdot(r.direction, h.normal) == 0 <==> vdot(
                    r.direction,
                    outward_normal(s, r, h.t),
                ) == 0)
                &&& (h.front_face <==> vdot(r.direction, outward_normal(s, r, h.t)) < 0)
            },
            None => true,
        },
{
    reveal(sphere_hit);
    match sphere_hit(s, r, t_min, t_max) {
        Some(h) => {
            let n = outward_normal(s, r, h.t);
            lemma_shrink_in_range(vsub(ray_at(r, h.t), s.center), s.radius);
            lemma_dot_neg(r.direction, n);
        },
        None => {},
    }
}

/// Something a ray can meet.
pub trait Hittable {
    /// The hit with an accepted parameter in `[t_min, t_max]`, if any.
    spec fn hit_spec(&self, ray: Ray, t_min: i64, t_max: i64) -> Option<HitRecord>;

    fn hit(&self, ray: &Ray, t_min: i64, t_max: i64) -> (r: Option<HitRecord>)
        ensures
            r == self.hit_spec(*ray, t_min, t_max),
    ;
}

/// An accepted hit lies within the range it was asked for.
pub proof fn lemma_hit_in_range(s: Sphere, r: Ray, t_min: i64, t_max: i64)
    requires
        sphere_hit(s, r, t_min, t_max) is Some,
    ensures
        t_min <= sphere_hit(s, r, t_min, t_max)->0.t <= t_max,
{
    reveal(sphere_hit);
}

/// A hit carries the material of the sphere it was found on.
pub proof fn lemma_hit_material(s: Sphere, r: Ray, t_min: i64, t_max: i64)
    requires
        sphere_hit(s, r, t_min, t_max) is Some,
    ensures
        sphere_hit(s, r, t_min, t_max)->0.material == s.material,
{
    reveal(sphere_hit);
}

impl Hittable for Sphere {
    open spec fn hit_spec(&self, ray: Ray, t_min: i64, t_max: i64) -> Option<HitRecord> {
        sphere_hit(*self, ray, t_min, t_max)
    }

    /// Intersects the ray with the sphere, accepting parameters in
    /// `[t_min, t_max]` and preferring the nearer root.
    fn hit(&self, ray: &Ray, t_min: i64, t_max: i64) -> (r: Option<HitRecord>) {
        reveal(sphere_hit);
        let oc = ray.origin.sub(self.center);
        let a = dot(&ray.direction, &ray.direction);
        let half_b = dot(&oc, &ray.direction);
        let c = sub_fixed(dot(&oc, &oc), mul_fixed(self.radius, self.radius));
        proof {
            lemma_disc_fits(*self, *ray);
            lemma_product_bound(half_b, half_b);
            lemma_product_bound(a, c);
        }
        let discriminant: i128 = (half_b as i128) * (half_b as i128) - (a as i128) * (c as i128);
        if discriminant < 0 {
            return None;
        }
        let sqrtd = int_sqrt(discriminant);
        proof {
            lemma_isqrt_unique(discriminant as int, sqrtd as int, isqrt(discriminant as int));
            lemma_wide_sqrt_bound(discriminant as int, sqrtd as int);
        }
        let mut root = quot_wide(-(half_b as i128) - sqrtd, a);
        if root < t_min || t_max < root {
            root = quot_wide(-(half_b as i128) + sqrtd, a);
            if root < t_min || t_max < root {
                return None;
            }
        }
        let p = ray.at(root);
        let mut normal = p.sub(self.center).div_scalar(self.radius);
        let front_face = dot(&ray.direction, &normal) < 0;
        if !front_face {
            normal = normal.neg();
        }
        Some(HitRecord { t: root, p, material: self.material, normal, front_face })
    }
}

} // verus!
