//! The demonstration scene: a ground sphere, a grid of small random spheres
//! and three large ones.
use vstd::prelude::*;
use crate::common::{random_range, random_unit};
use crate::fixed::{add_fixed, lemma_unit_product, mul_fixed, HALF, ONE};
use crate::hittable::Sphere;
use crate::hittable_list::HittableList;
use crate::materials::{Dielectric, Lambertian, Material, Metal};
use crate::vec3::{Vec3, vlength, vsub};

verus! {

/// Height of the ground sphere's center, -1000.
pub const GROUND_Y: i64 = -65536000;

/// Radius of the ground sphere, 1000.
pub const GROUND_RADIUS: i64 = 65536000;

/// Where the matte sphere stands along x, -4.
pub const MATTE_X: i64 = -262144;

/// Where the mirror sphere stands along x, 4.
pub const MIRROR_X: i64 = 262144;

/// Radius of the small spheres, 0.2.
pub const SMALL_RADIUS: i64 = 13107;

/// How far, 0.9, a small sphere may stray from its grid corner along x and z.
pub const CELL_SPREAD: i64 = 58982;

/// Smallest distance between a small sphere and the point `(4, 0.2, 0)`
/// that keeps it, 0.9.
pub const CLEARANCE: i64 = 58982;

/// Fraction of small spheres that are diffuse, 0.8.
pub const DIFFUSE_SHARE: i64 = 52429;

/// Fraction of small spheres that are diffuse or metal, 0.95.
pub const OPAQUE_SHARE: i64 = 62259;

/// Refractive index of glass, 1.5.
pub const GLASS_IR: i64 = 98304;

pub open spec fn ground() -> Sphere {
    Sphere {
        center: Vec3(0, GROUND_Y, 0),
        radius: GROUND_RADIUS,
        material: Material::Lambertian(Lambertian { albedo: Vec3(32768, 32768, 32768) }),
    }
}

pub open spec fn glass_sphere() -> Sphere {
    Sphere {
        center: Vec3(0, ONE, 0),
        radius: ONE,
        material: Material::Dielectric(Dielectric { ir: GLASS_IR }),
    }
}

pub open spec fn matte_sphere() -> Sphere {
    Sphere {
        center: Vec3(MATTE_X, ONE, 0),
        radius: ONE,
        material: Material::Lambertian(Lambertian { albedo: Vec3(26214, 13107, 6554) }),
    }
}

pub open spec fn mirror_sphere() -> Sphere {
    Sphere {
        center: Vec3(MIRROR_X, ONE, 0),
        radius: ONE,
        material: Material::Metal(Metal { albedo: Vec3(45875, 39322, 32768), fuzz: 0 }),
    }
}

/// The material of a small sphere for the uniform draw `choose`: diffuse
/// with albedo `diffuse` (a product of two uniform colors), metal with
/// albedo `metal` and fuzz `fuzz`, or glass.
pub open spec fn small_material_spec(choose: i64, diffuse: Vec3, metal: Vec3, fuzz: i64) -> Material {
    if choose < DIFFUSE_SHARE {
        Material::Lambertian(Lambertian { albedo: diffuse })
    } else if choose < OPAQUE_SHARE {
        Material::Metal(Metal { albedo: metal, fuzz })
    } else {
        Material::Dielectric(Dielectric { ir: GLASS_IR })
    }
}

pub fn small_material(choose: i64, diffuse: Vec3, metal: Vec3, fuzz: i64) -> (r: Material)
    ensures
        r == small_material_spec(choose, diffuse, metal, fuzz),
{
    if choose < DIFFUSE_SHARE {
        Material::Lambertian(Lambertian { albedo: diffuse })
    } else if choose < OPAQUE_SHARE {
        Material::Metal(Metal { albedo: metal, fuzz })
    } else {
        Material::Dielectric(Dielectric { ir: GLASS_IR })
    }
}

/// Whether a small sphere at `center` keeps clear of the large metal
/// sphere's spot.
pub open spec fn keeps_clear(center: Vec3) -> bool {
    vlength(vsub(center, Vec3(MIRROR_X, SMALL_RADIUS, 0))) > CLEARANCE
}

/// A small sphere of the grid: radius and height 0.2, clear of the mirror
/// sphere's spot, and diffuse with an albedo in `[0, 1]`, metal with an
/// albedo in `[0.5, 1)` and a fuzz in `[0, 0.5)`, or glass.
pub open spec fn small_sphere_ok(s: Sphere) -> bool {
    &&& s.radius == SMALL_RADIUS
    &&& s.center.1 == SMALL_RADIUS
    &&& keeps_clear(s.center)
    &&& match s.material {
        Material::Lambertian(l) => 0 <= l.albedo.0 <= ONE && 0 <= l.albedo.1 <= ONE && 0
            <= l.albedo.2 <= ONE,
        Material::Metal(m) => HALF <= m.albedo.0 < ONE && HALF <= m.albedo.1 < ONE && HALF
            <= m.albedo.2 < ONE && 0 <= m.fuzz < HALF,
        Material::Dielectric(d) => d.ir == GLASS_IR,
    }
}

fn random_color(lo: i64, hi: i64) -> (r: Vec3)
    requires
        lo < hi,
    ensures
        lo <= r.0 < hi && lo <= r.1 < hi && lo <= r.2 < hi,
{
    Vec3(random_range(lo, hi), random_range(lo, hi), random_range(lo, hi))
}

/// The scene: the ground first, then the small spheres of the grid that keep
/// clear, then the glass, matte and mirror spheres, in that order.
pub fn random_scene() -> (r: HittableList)
    ensures
        r.objects@.len() >= 4,
        r.objects@.len() <= 4 + 22 * 22,
        r.objects@[0] == ground(),
        r.objects@[r.objects@.len() - 3] == glass_sphere(),
        r.objects@[r.objects@.len() - 2] == matte_sphere(),
        r.objects@[r.objects@.len() - 1] == mirror_sphere(),
        forall|k: int| 1 <= k < r.objects@.len() - 3 ==> small_sphere_ok(#[trigger] r.objects@[k]),
{
    let mut world = HittableList::new();
    world.add(
        Sphere {
            center: Vec3(0, GROUND_Y, 0),
            radius: GROUND_RADIUS,
            material: Material::Lambertian(Lambertian { albedo: Vec3(32768, 32768, 32768) }),
        },
    );
    let mut a: i64 = -11;
    while a < 11
        invariant
            -11 <= a <= 11,
            1 <= world.objects@.len() <= 1 + (a + 11) * 22,
            world.objects@[0] == ground(),
            forall|k: int| 1 <= k < world.objects@.len() ==> small_sphere_ok(#[trigger] world.objects@[k]),
        decreases 11 - a,
    {
        let mut b: i64 = -11;
        while b < 11
            invariant
                -11 <= a < 11,
                -11 <= b <= 11,
                1 <= world.objects@.len() <= 1 + (a + 11) * 22 + (b + 11),
                world.objects@[0] == ground(),
                forall|k: int|
                    1 <= k < world.objects@.len() ==> small_sphere_ok(#[trigger] world.objects@[k]),
            decreases 11 - b,
        {
            let choose_mat = random_unit();
            let center = Vec3(
                add_fixed(a * ONE, mul_fixed(CELL_SPREAD, random_unit())),
                SMALL_RADIUS,
                add_fixed(b * ONE, mul_fixed(CELL_SPREAD, random_unit())),
            );
            if center.sub(Vec3(MIRROR_X, SMALL_RADIUS, 0)).length() > CLEARANCE {
                let c1 = random_color(0, ONE);
                let c2 = random_color(0, ONE);
                let diffuse = c1.mul(c2);
                proof {
                    lemma_unit_product(c1.0, c2.0);
                    lemma_unit_product(c1.1, c2.1);
                    lemma_unit_product(c1.2, c2.2);
                }
                let metal = random_color(HALF, ONE);
                let fuzz = random_range(0, HALF);
                let material = small_material(choose_mat, diffuse, metal, fuzz);
                world.add(Sphere { center, radius: SMALL_RADIUS, material });
            }
            b += 1;
        }
        a += 1;
    }
    world.add(
        Sphere {
            center: Vec3(0, ONE, 0),
            radius: ONE,
            material: Material::Dielectric(Dielectric { ir: GLASS_IR }),
        },
    );
    world.add(
        Sphere {
            center: Vec3(MATTE_X, ONE, 0),
            radius: ONE,
            material: Material::Lambertian(Lambertian { albedo: Vec3(26214, 13107, 6554) }),
        },
    );
    world.add(
        Sphere {
            center: Vec3(MIRROR_X, ONE, 0),
            radius: ONE,
            material: Material::Metal(Metal { albedo: Vec3(45875, 39322, 32768), fuzz: 0 }),
        },
    );
    world
}

} // verus!
