//! A thin-lens camera that maps image-plane coordinates to rays.
use vstd::prelude::*;
use crate::common::{in_unit_disk, random_in_unit_disk};
use crate::fixed::{div_fixed, fx_div, fx_mul, mul_fixed, TWO};
use crate::ray::Ray;
use crate::vec3::{cross, vadd, vcross, vscale, vshrink, vsub, vunit, Point3, Vec3};

verus! {

pub struct Camera {
    pub origin: Point3,
    pub lower_left_corner: Point3,
    pub horizontal: Vec3,
    pub vertical: Vec3,
    pub u: Vec3,
    pub v: Vec3,
    pub w: Vec3,
    pub lens_radius: i64,
}

/// The camera looking from `lookfrom` to `lookat` with up direction `vup`,
/// where `half_height` is the tangent of half the vertical field of view.
pub open spec fn camera_spec(
    lookfrom: Point3,
    lookat: Point3,
    vup: Vec3,
    half_height: i64,
    aspect_ratio: i64,
    aperture: i64,
    focus_dist: i64,
) -> Camera {
    let viewport_height = fx_mul(TWO, half_height);
    let viewport_width = fx_mul(aspect_ratio, viewport_height);
    let w = vunit(vsub(lookfrom, lookat));
    let u = vunit(vcross(vup, w));
    let v = vcross(w, u);
    let horizontal = vscale(vscale(u, viewport_width), focus_dist);
    let vertical = vscale(vscale(v, viewport_height), focus_dist);
    Camera {
        origin: lookfrom,
        lower_left_corner: vsub(
            vsub(vsub(lookfrom, vshrink(horizontal, TWO)), vshrink(vertical, TWO)),
            vscale(w, focus_dist),
        ),
        horizontal,
        vertical,
        u,
        v,
        w,
        lens_radius: fx_div(aperture, TWO),
    }
}

/// The ray through image-plane coordinates `(s, t)` from the lens point
/// `disk` (a point of the unit disk, scaled by the lens radius).
pub open spec fn ray_through(c: Camera, s: i64, t: i64, disk: Vec3) -> Ray {
    let rd = vscale(disk, c.lens_radius);
    let offset = vadd(vscale(c.u, rd.0), vscale(c.v, rd.1));
    Ray {
        origin: vadd(c.origin, offset),
        direction: vsub(
            vsub(
                vadd(vadd(c.lower_left_corner, vscale(c.horizontal, s)), vscale(c.vertical, t)),
                c.origin,
            ),
            offset,
        ),
    }
}

impl Camera {
    /// Builds the camera basis. `half_height` is `tan(vfov / 2)` for the
    /// vertical field of view `vfov`.
    pub fn new(
        lookfrom: Point3,
        lookat: Point3,
        vup: Vec3,
        half_height: i64,
        aspect_ratio: i64,
        aperture: i64,
        focus_dist: i64,
    ) -> (r: Camera)
        ensures
            r == camera_spec(lookfrom, lookat, vup, half_height, aspect_ratio, aperture, focus_dist),
    {
        let viewport_height = mul_fixed(TWO, half_height);
        let viewport_width = mul_fixed(aspect_ratio, viewport_height);
        let w = lookfrom.sub(lookat).to_unit();
        let u = cross(&vup, &w).to_unit();
        let v = cross(&w, &u);
        let origin = lookfrom;
        let horizontal = u.mul_scalar(viewport_width).mul_scalar(focus_dist);
        let vertical = v.mul_scalar(viewport_height).mul_scalar(focus_dist);
        let lower_left_corner = origin.sub(horizontal.div_scalar(TWO)).sub(
            vertical.div_scalar(TWO),
        ).sub(w.mul_scalar(focus_dist));
        let lens_radius = div_fixed(aperture, TWO);
        Camera { origin, lower_left_corner, horizontal, vertical, u, v, w, lens_radius }
    }

    /// The ray through `(s, t)` that leaves the lens at `disk`.
    pub fn ray_from_lens(&self, s: i64, t: i64, disk: Vec3) -> (r: Ray)
        ensures
            r == ray_through(*self, s, t, disk),
    {
        let rd = disk.mul_scalar(self.lens_radius);
        let offset = self.u.mul_scalar(rd.x()).add(self.v.mul_scalar(rd.y()));
        Ray {
            origin: self.origin.add(offset),
            direction: self.lower_left_corner.add(self.horizontal.mul_scalar(s)).add(
                self.vertical.mul_scalar(t),
            ).sub(self.origin).sub(offset),
        }
    }

    /// The ray through image-plane coordinates `(s, t)` in `[0, 1]`, leaving
    /// the lens at a random point.
    pub fn get_ray(&self, s: i64, t: i64) -> (r: Ray)
        ensures
            exists|disk: Vec3| in_unit_disk(disk) && r == ray_through(*self, s, t, disk),
    {
        let disk = random_in_unit_disk();
        self.ray_from_lens(s, t, disk)
    }
}

} // verus!
