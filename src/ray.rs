//! Rays, and the mirror and Snell directions at a surface.
use vstd::prelude::*;
use crate::fixed::{fx_min, fx_neg, fx_sqrt, fx_sub, min_fixed, neg_fixed, sqrt_fixed, sub_fixed, ONE, TWO};
use crate::vec3::{dot, vadd, vdot, vneg, vscale, vsub, Point3, Vec3};

verus! {

pub struct Ray {
    pub origin: Point3,
    pub direction: Vec3,
}

pub open spec fn ray_at(r: Ray, t: i64) -> Point3 {
    vadd(r.origin, vscale(r.direction, t))
}

/// Mirror image of `v` about the plane with normal `n`: `v - 2 (v . n) n`.
pub open spec fn reflect_spec(v: Vec3, n: Vec3) -> Vec3 {
    vsub(v, vscale(vscale(n, vdot(v, n)), TWO))
}

/// Snell's law in vector form, for a unit incident direction `uv`, a unit
/// normal `n` against it, and the ratio of refractive indices `eta`.
pub open spec fn refract_spec(uv: Vec3, n: Vec3, eta: i64) -> Vec3 {
    let cos_theta = fx_min(vdot(vneg(uv), n), ONE);
    let perp = vscale(vadd(uv, vscale(n, cos_theta)), eta);
    let parallel = vscale(n, fx_neg(fx_sqrt(fx_sub(ONE, vdot(perp, perp)))));
    vadd(perp, parallel)
}

impl Ray {
    /// The point at parameter `t` along the ray: `origin + t * direction`.
    pub fn at(&self, t: i64) -> (r: Point3)
        ensures
            r == ray_at(*self, t),
    {
        self.origin.add(self.direction.mul_scalar(t))
    }
}

pub fn reflect(v: &Vec3, n: &Vec3) -> (r: Vec3)
    ensures
        r == reflect_spec(*v, *n),
{
    v.sub(n.mul_scalar(dot(v, n)).mul_scalar(TWO))
}

pub fn refract(uv: &Vec3, n: &Vec3, etai_over_etat: i64) -> (r: Vec3)
    ensures
        r == refract_spec(*uv, *n, etai_over_etat),
{
    let cos_theta = min_fixed(dot(&uv.neg(), n), ONE);
    let r_out_perp = uv.add(n.mul_scalar(cos_theta)).mul_scalar(etai_over_etat);
    let r_out_parallel = n.mul_scalar(
        neg_fixed(sqrt_fixed(sub_fixed(ONE, dot(&r_out_perp, &r_out_perp)))),
    );
    r_out_perp.add(r_out_parallel)
}

} // verus!
