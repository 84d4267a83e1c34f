//! Surface materials: how a ray that reaches a surface scatters or is
//! absorbed.
use vstd::prelude::*;
use crate::fixed::{
    add_fixed, div_fixed, fx_add, fx_div, fx_min, fx_mul, fx_sqrt, fx_sub, is_isqrt, isqrt,
    lemma_isqrt_exists, lemma_isqrt_le, lemma_square_nonneg, min_fixed, mul_fixed, sqrt_fixed,
    sub_fixed, ONE,
};
use crate::hittable::HitRecord;
use crate::ray::{reflect, reflect_spec, refract, refract_spec, Ray};
use crate::vec3::{dot, splat, vadd, vclose, vdot, vneg, vscale, vunit, Color3, Vec3};

verus! {

/// A diffuse surface.
#[derive(Clone, Copy, Debug, PartialEq, Eq, Structural)]
pub struct Lambertian {
    pub albedo: Color3,
}

/// A specular surface; `fuzz` (between 0 and 1) roughens the reflection.
#[derive(Clone, Copy, Debug, PartialEq, Eq, Structural)]
pub struct Metal {
    pub albedo: Color3,
    pub fuzz: i64,
}

/// A clear refractive surface with refractive index `ir`.
#[derive(Clone, Copy, Debug, PartialEq, Eq, Structural)]
pub struct Dielectric {
    pub ir: i64,
}

/// The closed set of materials a surface can have.
#[derive(Clone, Copy, Debug, PartialEq, Eq, Structural)]
pub enum Material {
    Lambertian(Lambertian),
    Metal(Metal),
    Dielectric(Dielectric),
}

/// The attenuation of a clear surface: it absorbs nothing.
pub open spec fn clear() -> Color3 {
    Vec3(ONE, ONE, ONE)
}

/// Normal plus the sample, or the normal alone where that sum is
/// numerically zero.
pub open spec fn lambertian_direction(normal: Vec3, unit_sample: Vec3) -> Vec3 {
    let d = vadd(normal, unit_sample);
    if vclose(d, splat(0)) {
        normal
    } else {
        d
    }
}

/// The mirror direction of the unit incoming direction, perturbed by
/// `fuzz` times the sample.
pub open spec fn metal_direction(m: Metal, ray_in: Ray, rec: HitRecord, unit_sample: Vec3) -> Vec3 {
    vadd(reflect_spec(vunit(ray_in.direction), rec.normal), vscale(unit_sample, m.fuzz))
}

/// `x^5`.
pub open spec fn pow5(x: i64) -> i64 {
    fx_mul(fx_mul(fx_mul(fx_mul(x, x), x), x), x)
}

/// Schlick's approximation of the reflectance at a given cosine.
pub open spec fn reflectance_spec(cosine: i64, ref_idx: i64) -> i64 {
    let r0 = fx_div(fx_sub(ONE, ref_idx), fx_add(ONE, ref_idx));
    let r0 = fx_mul(r0, r0);
    fx_add(r0, fx_mul(fx_sub(ONE, r0), pow5(fx_sub(ONE, cosine))))
}

/// `1 / ir` entering the medium, `ir` leaving it.
pub open spec fn refraction_ratio(d: Dielectric, rec: HitRecord) -> i64 {
    if rec.front_face {
        fx_div(ONE, d.ir)
    } else {
        d.ir
    }
}

pub open spec fn cos_theta(ray_in: Ray, rec: HitRecord) -> i64 {
    fx_min(vdot(vneg(vunit(ray_in.direction)), rec.normal), ONE)
}

pub open spec fn sin_theta(ray_in: Ray, rec: HitRecord) -> i64 {
    let c = cos_theta(ray_in, rec);
    fx_sqrt(fx_sub(ONE, fx_mul(c, c)))
}

/// Snell's law has no solution: the ray must reflect.
pub open spec fn cannot_refract(d: Dielectric, ray_in: Ray, rec: HitRecord) -> bool {
    fx_mul(refraction_ratio(d, rec), sin_theta(ray_in, rec)) > ONE
}

/// Reflection under total internal reflection or when the uniform `draw`
/// falls below the reflectance; refraction otherwise.
pub open spec fn dielectric_direction(d: Dielectric, ray_in: Ray, rec: HitRecord, draw: i64) -> Vec3 {
    let unit = vunit(ray_in.direction);
    let ratio = refraction_ratio(d, rec);
    if cannot_refract(d, ray_in, rec) || reflectance_spec(cos_theta(ray_in, rec), ratio) > draw {
        reflect_spec(unit, rec.normal)
    } else {
        refract_spec(unit, rec.normal, ratio)
    }
}

/// What a material does with a ray at a hit, given a direction sample of
/// the unit ball and a uniform draw from `[0, 1)`.
pub open spec fn material_scatter(
    m: Material,
    ray_in: Ray,
    rec: HitRecord,
    unit_sample: Vec3,
    draw: i64,
) -> Option<(Color3, Ray)> {
    match m {
        Material::Lambertian(l) => Some(
            (l.albedo, Ray { origin: rec.p, direction: lambertian_direction(rec.normal, unit_sample) }),
        ),
        Material::Metal(mt) => {
            let dir = metal_direction(mt, ray_in, rec, unit_sample);
            if vdot(dir, rec.normal) > 0 {
                Some((mt.albedo, Ray { origin: rec.p, direction: dir }))
            } else {
                None
            }
        },
        Material::Dielectric(d) => Some(
            (clear(), Ray { origin: rec.p, direction: dielectric_direction(d, ray_in, rec, draw) }),
        ),
    }
}

impl Lambertian {
    /// Scatters about the normal; a diffuse surface never absorbs the ray.
    pub fn scatter(&self, ray_in: &Ray, rec: &HitRecord, unit_sample: Vec3) -> (r: Option<
        (Color3, Ray),
    >)
        ensures
            r == material_scatter(Material::Lambertian(*self), *ray_in, *rec, unit_sample, 0),
            r is Some,
    {
        let mut scatter_direction = rec.normal.add(unit_sample);
        if scatter_direction.is_close_scalar(0) {
            scatter_direction = rec.normal;
        }
        let scattered = Ray { origin: rec.p, direction: scatter_direction };
        Some((self.albedo, scattered))
    }
}

impl Metal {
    /// Reflects about the normal, perturbed by `fuzz`; absorbs the ray when
    /// the result does not leave the surface.
    pub fn scatter(&self, ray_in: &Ray, rec: &HitRecord, unit_sample: Vec3) -> (r: Option<
        (Color3, Ray),
    >)
        ensures
            r == material_scatter(Material::Metal(*self), *ray_in, *rec, unit_sample, 0),
    {
        let reflected = reflect(&ray_in.direction.to_unit(), &rec.normal);
        let scattered = Ray {
            origin: rec.p,
            direction: reflected.add(unit_sample.mul_scalar(self.fuzz)),
        };
        if dot(&scattered.direction, &rec.normal) > 0 {
            Some((self.albedo, scattered))
        } else {
            None
        }
    }
}

impl Dielectric {
    /// Schlick's approximation of the reflectance.
    pub fn reflectance(cosine: i64, ref_idx: i64) -> (r: i64)
        ensures
            r == reflectance_spec(cosine, ref_idx),
    {
        let r0 = div_fixed(sub_fixed(ONE, ref_idx), add_fixed(ONE, ref_idx));
        let r0 = mul_fixed(r0, r0);
        let x = sub_fixed(ONE, cosine);
        let x5 = mul_fixed(mul_fixed(mul_fixed(mul_fixed(x, x), x), x), x);
        add_fixed(r0, mul_fixed(sub_fixed(ONE, r0), x5))
    }

    /// Reflects or refracts, choosing by the uniform `draw` from `[0, 1)`;
    /// a clear surface never absorbs the ray.
    pub fn scatter(&self, ray_in: &Ray, rec: &HitRecord, draw: i64) -> (r: Option<(Color3, Ray)>)
        ensures
            r == material_scatter(Material::Dielectric(*self), *ray_in, *rec, Vec3(0, 0, 0), draw),
            r is Some,
    {
        let attenuation = Vec3(ONE, ONE, ONE);
        let refraction_ratio = if rec.front_face {
            div_fixed(ONE, self.ir)
        } else {
            self.ir
        };
        let unit_direction = ray_in.direction.to_unit();
        let cos_theta = min_fixed(dot(&unit_direction.neg(), &rec.normal), ONE);
        let sin_theta = sqrt_fixed(sub_fixed(ONE, mul_fixed(cos_theta, cos_theta)));
        let cannot_refract = mul_fixed(refraction_ratio, sin_theta) > ONE;
        let direction = if cannot_refract || Dielectric::reflectance(cos_theta, refraction_ratio)
            > draw {
            reflect(&unit_direction, &rec.normal)
        } else {
            refract(&unit_direction, &rec.normal, refraction_ratio)
        };
        Some((attenuation, Ray { origin: rec.p, direction }))
    }
}

impl Material {
    /// Scatters by the material's own rule, given a direction sample of the
    /// unit ball and a uniform draw from `[0, 1)`.
    pub fn scatter(&self, ray_in: &Ray, rec: &HitRecord, unit_sample: Vec3, draw: i64) -> (r:
        Option<(Color3, Ray)>)
        ensures
            r == material_scatter(*self, *ray_in, *rec, unit_sample, draw),
    {
        match self {
            Material::Lambertian(l) => l.scatter(ray_in, rec, unit_sample),
            Material::Metal(m) => m.scatter(ray_in, rec, unit_sample),
            Material::Dielectric(d) => d.scatter(ray_in, rec, draw),
        }
    }
}

/// A metal without fuzz sends the ray exactly along the mirror direction of
/// the unit incoming direction.
pub proof fn lemma_smooth_metal_mirrors(m: Metal, ray_in: Ray, rec: HitRecord, unit_sample: Vec3)
    requires
        m.fuzz == 0,
    ensures
        metal_direction(m, ray_in, rec, unit_sample) == reflect_spec(
            vunit(ray_in.direction),
            rec.normal,
        ),
{
}

/// A dielectric whose index is 1 keeps the refraction ratio at 1 and never
/// meets total internal reflection, so whenever the draw does not fall
/// below the reflectance it refracts with ratio 1.
pub proof fn lemma_matched_index_refracts(d: Dielectric, ray_in: Ray, rec: HitRecord, draw: i64)
    requires
        d.ir == ONE,
        reflectance_spec(cos_theta(ray_in, rec), ONE) <= draw,
    ensures
        refraction_ratio(d, rec) == ONE,
        !cannot_refract(d, ray_in, rec),
        dielectric_direction(d, ray_in, rec, draw) == refract_spec(
            vunit(ray_in.direction),
            rec.normal,
            ONE,
        ),
{
    let c = cos_theta(ray_in, rec);
    lemma_square_nonneg(c);
    let x = fx_sub(ONE, fx_mul(c, c));
    if x > 0 {
        let n = (x as int) * (ONE as int);
        assert(n <= (ONE as int) * (ONE as int)) by (nonlinear_arith)
            requires
                0 < x <= ONE,
                n == (x as int) * (ONE as int),
        ;
        lemma_isqrt_exists(n);
        lemma_isqrt_le(n, isqrt(n), ONE as int);
    }
    assert(0 <= sin_theta(ray_in, rec) <= ONE);
}

} // verus!
