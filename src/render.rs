//! The recursive radiance estimator, one full-frame sample pass, and the
//! reduction of sample frames into 8-bit pixels.
use vstd::prelude::*;
use crate::camera::{ray_through, Camera};
use crate::common::{
    in_unit_disk, is_ball_direction, near_unit, random_in_unit_disk, random_in_unit_sphere,
    random_range, random_unit,
};
use crate::hittable::{lemma_hit_material, sphere_hit, Sphere};
use crate::materials::Material;
use crate::materials::material_scatter;
use crate::fixed::{
    add_fixed, div_fixed, lemma_scale_down, lemma_unit_product, fx_add, fx_div, fx_mul, fx_sqrt, fx_sub, mul_fixed, sqrt_fixed,
    sub_fixed, HALF, MAXV, ONE,
};
use crate::hittable::Hittable;
use crate::hittable_list::{farther_before, lemma_scene_hit_is_nearest, scene_hit, HittableList};
use crate::ray::Ray;
use crate::vec3::{vadd, vmul, vscale, vunit, Color3, Vec3};

verus! {

/// Smallest accepted hit parameter; it keeps a scattered ray from meeting
/// the surface it leaves.
pub const T_MIN: i64 = 66;

/// The largest channel value before conversion to 8 bits, about 0.9999.
pub const CHANNEL_MAX: i64 = 65529;

/// The zenith color of the sky, `(0.5, 0.7, 1.0)`.
pub open spec fn sky_blue() -> Color3 {
    Vec3(32768, 45875, 65536)
}

pub open spec fn white() -> Color3 {
    Vec3(ONE, ONE, ONE)
}

pub open spec fn black() -> Color3 {
    Vec3(0, 0, 0)
}

/// The blend key of the sky along `r`: the unit direction's height mapped
/// from `[-1, 1]` onto `[0, 1]`, clamped there against rounding.
pub open spec fn sky_key(r: Ray) -> i64 {
    clamp_spec(fx_mul(fx_add(vunit(r.direction).1, ONE), HALF), 0, ONE)
}

/// The background seen along a ray that meets nothing: white blended into
/// sky blue as the unit direction turns from straight down to straight up.
pub open spec fn sky_color(r: Ray) -> Color3 {
    let t = sky_key(r);
    vadd(vscale(white(), fx_sub(ONE, t)), vscale(sky_blue(), t))
}

/// Every channel of `c` lies in `[0, 1]`.
pub open spec fn color_in_range(c: Color3) -> bool {
    0 <= c.0 <= ONE && 0 <= c.1 <= ONE && 0 <= c.2 <= ONE
}

/// Every material of the scene attenuates by channels of `[0, 1]`.
pub open spec fn attenuations_in_range(objs: Seq<Sphere>) -> bool {
    forall|k: int|
        0 <= k < objs.len() ==> match #[trigger] objs[k].material {
            Material::Lambertian(l) => color_in_range(l.albedo),
            Material::Metal(m) => color_in_range(m.albedo),
            Material::Dielectric(_) => true,
        }
}

/// The sky's channels lie in `[0, 1]`.
pub proof fn lemma_sky_in_range(r: Ray)
    ensures
        color_in_range(sky_color(r)),
{
    let t = sky_key(r);
    let s = fx_sub(ONE, t);
    lemma_scale_down(ONE, s);
    lemma_scale_down(32768, t);
    lemma_scale_down(45875, t);
    lemma_scale_down(ONE, t);
}

/// The background color along `ray`.
pub fn sky(ray: &Ray) -> (r: Color3)
    ensures
        r == sky_color(*ray),
{
    let unit_direction = ray.direction.to_unit();
    let t = clamp_scalar(mul_fixed(add_fixed(unit_direction.y(), ONE), HALF), 0, ONE);
    Vec3(ONE, ONE, ONE).mul_scalar(sub_fixed(ONE, t)).add(
        Vec3(32768, 45875, 65536).mul_scalar(t),
    )
}

/// A direction sample the integrator may be handed.
pub open spec fn valid_sample(u: Vec3) -> bool {
    near_unit(u) && (is_ball_direction(u) || u == Vec3(0, 0, ONE))
}

/// `c` is a color that `ray_color` may return for `ray` with `depth`
/// bounces left, over some valid samples: black once the bounces run out,
/// the sky on a miss, and on a hit either black (the ray is absorbed) or
/// the attenuation times a possible color of the scattered ray with one
/// bounce fewer.
#[verifier::opaque]
pub open spec fn possible_color(objs: Seq<Sphere>, ray: Ray, depth: nat, c: Color3) -> bool
    decreases depth,
{
    if depth == 0 {
        c == black()
    } else {
        match scene_hit(objs, ray, T_MIN, MAXV) {
            None => c == sky_color(ray),
            Some(h) => exists|u: Vec3, w: i64|
                valid_sample(u) && 0 <= w < ONE && match #[trigger] material_scatter(
                    h.material,
                    ray,
                    h,
                    u,
                    w,
                ) {
                    Some((attenuation, scattered)) => exists|incoming: Color3|
                        possible_color(objs, scattered, (depth - 1) as nat, incoming) && c
                            == vmul(attenuation, incoming),
                    None => c == black(),
                },
        }
    }
}

/// Every possible color lies in `[0, 1]` when every attenuation of the scene
/// does.
pub proof fn lemma_possible_color_in_range(objs: Seq<Sphere>, ray: Ray, depth: nat, c: Color3)
    requires
        attenuations_in_range(objs),
        possible_color(objs, ray, depth, c),
    ensures
        color_in_range(c),
    decreases depth,
{
    reveal_with_fuel(possible_color, 1);
    if depth > 0 {
        match scene_hit(objs, ray, T_MIN, MAXV) {
            None => {
                lemma_sky_in_range(ray);
            },
            Some(h) => {
                lemma_scene_hit_is_nearest(objs, ray, T_MIN, MAXV);
                let i = choose|i: int|
                    0 <= i < objs.len() && sphere_hit(#[trigger] objs[i], ray, T_MIN, MAXV)
                        == scene_hit(objs, ray, T_MIN, MAXV) && farther_before(
                        objs,
                        i,
                        ray,
                        T_MIN,
                        MAXV,
                        h.t,
                    );
                lemma_hit_material(objs[i], ray, T_MIN, MAXV);
                assert(h.material == objs[i].material);
                let (u, w) = choose|u: Vec3, w: i64|
                    valid_sample(u) && 0 <= w < ONE && match #[trigger] material_scatter(
                        h.material,
                        ray,
                        h,
                        u,
                        w,
                    ) {
                        Some((attenuation, scattered)) => exists|incoming: Color3|
                            possible_color(objs, scattered, (depth - 1) as nat, incoming) && c
                                == vmul(attenuation, incoming),
                        None => c == black(),
                    };
                match material_scatter(h.material, ray, h, u, w) {
                    Some((a, sc)) => {
                        let inc = choose|inc: Color3|
                            possible_color(objs, sc, (depth - 1) as nat, inc) && c == vmul(a, inc);
                        lemma_possible_color_in_range(objs, sc, (depth - 1) as nat, inc);
                        assert(color_in_range(a));
                        lemma_unit_product(a.0, inc.0);
                        lemma_unit_product(a.1, inc.1);
                        lemma_unit_product(a.2, inc.2);
                    },
                    None => {},
                }
            },
        }
    }
}

/// The radiance carried back along `ray`, following at most `depth`
/// scattering events.
pub fn ray_color(ray: &Ray, world: &HittableList, depth: u32) -> (r: Color3)
    ensures
        possible_color(world.objects@, *ray, depth as nat, r),
        depth == 0 ==> r == black(),
        depth > 0 && scene_hit(world.objects@, *ray, T_MIN, MAXV) is None ==> r == sky_color(
            *ray,
        ),
        attenuations_in_range(world.objects@) ==> color_in_range(r),
{
    let r = shade(ray, world, depth);
    proof {
        if attenuations_in_range(world.objects@) {
            lemma_possible_color_in_range(world.objects@, *ray, depth as nat, r);
        }
    }
    r
}

/// One step of `ray_color`: the color for `ray` with `depth` bounces left.
fn shade(ray: &Ray, world: &HittableList, depth: u32) -> (r: Color3)
    ensures
        possible_color(world.objects@, *ray, depth as nat, r),
        depth == 0 ==> r == black(),
        depth > 0 && scene_hit(world.objects@, *ray, T_MIN, MAXV) is None ==> r == sky_color(
            *ray,
        ),
    decreases depth,
{
    reveal_with_fuel(possible_color, 1);
    if depth == 0 {
        return Vec3(0, 0, 0);
    }
    match world.hit(ray, T_MIN, MAXV) {
        Some(hit) => {
            let unit_sample = random_in_unit_sphere();
            let draw = random_unit();
            let scattered_result = hit.material.scatter(ray, &hit, unit_sample, draw);
            match scattered_result {
                Some((attenuation, scattered)) => {
                    let incoming = shade(&scattered, world, depth - 1);
                    let r = attenuation.mul(incoming);
                    proof {
                        assert(possible_color(
                            world.objects@,
                            scattered,
                            (depth - 1) as nat,
                            incoming,
                        ));
                        assert(valid_sample(unit_sample) && 0 <= draw < ONE && match material_scatter(
                            hit.material,
                            *ray,
                            hit,
                            unit_sample,
                            draw,
                        ) {
                            Some((a, sc)) => exists|inc: Color3|
                                possible_color(world.objects@, sc, (depth - 1) as nat, inc) && r
                                    == vmul(a, inc),
                            None => r == black(),
                        });
                    }
                    r
                },
                None => {
                    let r = Vec3(0, 0, 0);
                    assert(valid_sample(unit_sample) && 0 <= draw < ONE && material_scatter(
                        hit.material,
                        *ray,
                        hit,
                        unit_sample,
                        draw,
                    ) is None);
                    r
                },
            }
        },
        None => sky(ray),
    }
}

/// The image-plane coordinate of pixel index `i`, moved by `jitter`, over
/// an image with `extent` pixels along that axis.
pub open spec fn pixel_coord_spec(i: u32, jitter: i64, extent: u32) -> i64 {
    fx_div(fx_add((i * ONE) as i64, jitter), ((extent - 1) * ONE) as i64)
}

pub fn pixel_coord(i: u32, jitter: i64, extent: u32) -> (r: i64)
    requires
        extent >= 1,
    ensures
        r == pixel_coord_spec(i, jitter, extent),
{
    div_fixed(add_fixed(i as i64 * ONE, jitter), (extent as i64 - 1) * ONE)
}

/// `c` is a color that a sample pass may give the pixel in column `i` of
/// row `j` (counted from the bottom): a possible color, with `depth`
/// bounces, of a camera ray through that pixel jittered by less than half a
/// pixel along each axis, leaving the lens at a point of the unit disk.
pub open spec fn possible_pixel(
    objs: Seq<Sphere>,
    cam: Camera,
    width: u32,
    height: u32,
    depth: nat,
    i: u32,
    j: u32,
    c: Color3,
) -> bool {
    exists|du: i64, dv: i64, disk: Vec3|
        -HALF <= du < HALF && -HALF <= dv < HALF && in_unit_disk(disk) && possible_color(
            objs,
            ray_through(
                cam,
                pixel_coord_spec(i, du, width),
                pixel_coord_spec(j, dv, height),
                disk,
            ),
            depth,
            c,
        )
}

/// One sample pass over the whole frame: rows from the top down, each row
/// left to right, every pixel jittered by up to half a pixel.
pub fn render_single(world: &HittableList, cam: &Camera, width: u32, height: u32, max_depth: u32) -> (r:
    Vec<Color3>)
    requires
        width >= 1,
        height >= 1,
        (width as int) * (height as int) <= usize::MAX,
    ensures
        r@.len() == (width as int) * (height as int),
        forall|row: int, i: int|
            0 <= row < height && 0 <= i < width ==> possible_pixel(
                world.objects@,
                *cam,
                width,
                height,
                max_depth as nat,
                i as u32,
                (height - 1 - row) as u32,
                #[trigger] r@[row * width + i],
            ),
        max_depth == 0 ==> forall|k: int| 0 <= k < r@.len() ==> r@[k] == black(),
{
    let mut image: Vec<Color3> = Vec::new();
    let mut j: u32 = height;
    while j > 0
        invariant
            j <= height,
            image@.len() == ((height - j) as int) * (width as int),
            (width as int) * (height as int) <= usize::MAX,
            width >= 1,
            height >= 1,
            forall|row: int, i: int|
                0 <= row < height - j && 0 <= i < width ==> possible_pixel(
                    world.objects@,
                    *cam,
                    width,
                    height,
                    max_depth as nat,
                    i as u32,
                    (height - 1 - row) as u32,
                    #[trigger] image@[row * width + i],
                ),
            max_depth == 0 ==> forall|k: int| 0 <= k < image@.len() ==> image@[k] == black(),
        decreases j,
    {
        j -= 1;
        let ghost row_now: int = (height - 1 - j) as int;
        let mut i: u32 = 0;
        while i < width
            invariant
                j < height,
                row_now == height - 1 - j,
                i <= width,
                image@.len() == row_now * (width as int) + i,
                (width as int) * (height as int) <= usize::MAX,
                width >= 1,
                height >= 1,
                forall|row: int, q: int|
                    0 <= row < row_now && 0 <= q < width ==> possible_pixel(
                        world.objects@,
                        *cam,
                        width,
                        height,
                        max_depth as nat,
                        q as u32,
                        (height - 1 - row) as u32,
                        #[trigger] image@[row * width + q],
                    ),
                forall|q: int|
                    0 <= q < i ==> possible_pixel(
                        world.objects@,
                        *cam,
                        width,
                        height,
                        max_depth as nat,
                        q as u32,
                        j,
                        #[trigger] image@[row_now * width + q],
                    ),
                max_depth == 0 ==> forall|k: int| 0 <= k < image@.len() ==> image@[k] == black(),
            decreases width - i,
        {
            proof {
                assert(row_now * (width as int) + i < (width as int) * (height as int)) by (
                nonlinear_arith)
                    requires
                        0 <= row_now < height,
                        i < width,
                ;
            }
            let du = random_range(-HALF, HALF);
            let dv = random_range(-HALF, HALF);
            let u = pixel_coord(i, du, width);
            let v = pixel_coord(j, dv, height);
            let disk = random_in_unit_disk();
            let ray = cam.ray_from_lens(u, v, disk);
            let pixel_color = ray_color(&ray, world, max_depth);
            let ghost before = image@;
            image.push(pixel_color);
            proof {
                assert(possible_pixel(
                    world.objects@,
                    *cam,
                    width,
                    height,
                    max_depth as nat,
                    i,
                    j,
                    pixel_color,
                ));
                assert forall|row: int, q: int|
                    0 <= row < row_now && 0 <= q < width implies #[trigger] image@[row * width
                    + q] == before[row * width + q] by {
                    assert(row * (width as int) + q < row_now * (width as int)) by (
                    nonlinear_arith)
                        requires
                            0 <= row < row_now,
                            0 <= q < width,
                    ;
                }
            }
            i += 1;
        }
        proof {
            assert(row_now * (width as int) + width == ((height - j) as int) * (width as int))
                by (nonlinear_arith)
                requires
                    row_now == height - 1 - j,
            ;
        }
    }
    assert((height as int) * (width as int) == (width as int) * (height as int)) by (
    nonlinear_arith);
    image
}

/// A frame of `n` black pixels.
pub fn new_frame(n: usize) -> (r: Vec<Color3>)
    ensures
        r@ == Seq::new(n as nat, |k: int| black()),
{
    let mut frame: Vec<Color3> = Vec::new();
    while frame.len() < n
        invariant
            frame@.len() <= n,
            forall|k: int| 0 <= k < frame@.len() ==> frame@[k] == black(),
        decreases n - frame@.len(),
    {
        frame.push(Vec3(0, 0, 0));
    }
    assert(frame@ =~= Seq::new(n as nat, |k: int| black()));
    frame
}

/// The pixel-wise sum of two frames of equal size.
pub open spec fn frame_sum(acc: Seq<Color3>, frame: Seq<Color3>) -> Seq<Color3> {
    Seq::new(acc.len(), |k: int| vadd(acc[k], frame[k]))
}

/// Adds a sample frame into the accumulator, pixel by pixel.
pub fn accumulate(acc: &mut Vec<Color3>, frame: &Vec<Color3>)
    requires
        old(acc)@.len() == frame@.len(),
    ensures
        final(acc)@ == frame_sum(old(acc)@, frame@),
{
    let n = acc.len();
    let mut k: usize = 0;
    while k < n
        invariant
            n == acc@.len(),
            n == frame@.len(),
            k <= n,
            forall|q: int| 0 <= q < k ==> acc@[q] == vadd(old(acc)@[q], frame@[q]),
            forall|q: int| k <= q < n ==> acc@[q] == old(acc)@[q],
        decreases n - k,
    {
        let sum = acc[k].add(frame[k]);
        acc.set(k, sum);
        k += 1;
    }
    assert(acc@ =~= frame_sum(old(acc)@, frame@));
}

/// No channel of any pixel is negative.
pub open spec fn non_negative(frame: Seq<Color3>) -> bool {
    forall|k: int| 0 <= k < frame.len() ==> frame[k].0 >= 0 && frame[k].1 >= 0 && frame[k].2 >= 0
}

proof fn lemma_add_swap(x: i64, a: i64, b: i64)
    requires
        x >= 0,
        a >= 0,
        b >= 0,
    ensures
        fx_add(fx_add(x, a), b) == fx_add(fx_add(x, b), a),
        fx_add(x, a) >= 0,
{
}

/// Frames of non-negative colors can be accumulated in either order with
/// the same result, so the reduction does not depend on which worker
/// finishes first.
pub proof fn lemma_accumulate_commutes(acc: Seq<Color3>, f1: Seq<Color3>, f2: Seq<Color3>)
    requires
        acc.len() == f1.len(),
        acc.len() == f2.len(),
        non_negative(acc),
        non_negative(f1),
        non_negative(f2),
    ensures
        frame_sum(frame_sum(acc, f1), f2) == frame_sum(frame_sum(acc, f2), f1),
        non_negative(frame_sum(acc, f1)),
{
    assert forall|k: int| 0 <= k < acc.len() implies vadd(vadd(acc[k], f1[k]), f2[k]) == vadd(
        vadd(acc[k], f2[k]),
        f1[k],
    ) && vadd(acc[k], f1[k]).0 >= 0 && vadd(acc[k], f1[k]).1 >= 0 && vadd(acc[k], f1[k]).2 >= 0 by {
        lemma_add_swap(acc[k].0, f1[k].0, f2[k].0);
        lemma_add_swap(acc[k].1, f1[k].1, f2[k].1);
        lemma_add_swap(acc[k].2, f1[k].2, f2[k].2);
    }
    assert(frame_sum(frame_sum(acc, f1), f2) =~= frame_sum(frame_sum(acc, f2), f1));
}

pub open spec fn clamp_spec(input: i64, min: i64, max: i64) -> i64 {
    if input < min {
        min
    } else if input > max {
        max
    } else {
        input
    }
}

/// Relies on num::clamp: `min` when the input is below it, `max` when it
/// is above it, the input otherwise.
#[verifier::external_body]
fn clamp_scalar(input: i64, min: i64, max: i64) -> (r: i64)
    requires
        min <= max,
    ensures
        r == clamp_spec(input, min, max),
{
    num::clamp(input, min, max)
}

/// One 8-bit channel of the average of `samples` summed values: square-root
/// gamma, clamped to `[0, 0.9999]`, scaled by 256.
pub open spec fn channel_byte(sum: i64, samples: u32) -> u8 {
    let c = clamp_spec(fx_sqrt(fx_div(sum, (samples * ONE) as i64)), 0, CHANNEL_MAX);
    (c * 256 / (ONE as int)) as u8
}

fn to_byte(sum: i64, samples: u32) -> (r: u8)
    ensures
        r == channel_byte(sum, samples),
{
    let c = clamp_scalar(sqrt_fixed(div_fixed(sum, samples as i64 * ONE)), 0, CHANNEL_MAX);
    (c * 256 / ONE) as u8
}

/// The 8-bit color of a pixel whose channels hold the sum of `samples`
/// sample values.
pub fn float_to_rgb_vec(r: i64, g: i64, b: i64, samples: u32) -> (res: (u8, u8, u8))
    ensures
        res == (channel_byte(r, samples), channel_byte(g, samples), channel_byte(b, samples)),
{
    (to_byte(r, samples), to_byte(g, samples), to_byte(b, samples))
}

} // verus!
