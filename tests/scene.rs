use raytracer::camera::Camera;
use raytracer::common::{
    ball_candidate, disk_candidate, random_in_unit_disk, random_in_unit_sphere, random_unit,
};
use raytracer::fixed::ONE;
use raytracer::hittable::{HitRecord, Hittable, Sphere};
use raytracer::hittable_list::HittableList;
use raytracer::materials::{Dielectric, Lambertian, Material, Metal};
use raytracer::ray::Ray;
use raytracer::render::{accumulate, float_to_rgb_vec, new_frame, ray_color, render_single};
use raytracer::scene::{random_scene, small_material};
use raytracer::vec3::{dot, Vec3};

fn fx(v: f64) -> i64 {
    (v * ONE as f64).round() as i64
}

fn v3(x: f64, y: f64, z: f64) -> Vec3 {
    Vec3(fx(x), fx(y), fx(z))
}

fn to_f64(v: i64) -> f64 {
    v as f64 / ONE as f64
}

fn close(a: i64, b: f64, tol: f64) -> bool {
    (to_f64(a) - b).abs() < tol
}

fn grey() -> Material {
    Material::Lambertian(Lambertian { albedo: v3(0.5, 0.5, 0.5) })
}

fn ray(o: Vec3, d: Vec3) -> Ray {
    Ray { origin: o, direction: d }
}

fn record(p: Vec3, normal: Vec3, front_face: bool, material: Material) -> HitRecord {
    HitRecord { p, normal, material, t: fx(1.0), front_face }
}

#[test]
fn ray_at_center_hits_at_distance_minus_radius() {
    let s = Sphere { center: v3(0.0, 0.0, -5.0), radius: fx(1.0), material: grey() };
    let r = ray(v3(0.0, 0.0, 0.0), v3(0.0, 0.0, -1.0));
    let h = s.hit(&r, fx(0.001), i64::MAX).unwrap();
    assert_eq!(h.t, fx(4.0));
    assert_eq!(h.p, v3(0.0, 0.0, -4.0));
    assert_eq!(h.normal, v3(0.0, 0.0, 1.0));
    assert!(h.front_face);
}

#[test]
fn receding_ray_from_outside_misses() {
    let s = Sphere { center: v3(0.0, 0.0, -5.0), radius: fx(1.0), material: grey() };
    let r = ray(v3(0.0, 0.0, 0.0), v3(0.0, 0.3, 1.0));
    assert!(s.hit(&r, fx(0.001), i64::MAX).is_none());
}

#[test]
fn hit_outside_range_is_rejected() {
    let s = Sphere { center: v3(0.0, 0.0, -5.0), radius: fx(1.0), material: grey() };
    let r = ray(v3(0.0, 0.0, 0.0), v3(0.0, 0.0, -1.0));
    assert!(s.hit(&r, fx(0.001), fx(3.0)).is_none());
    let far = s.hit(&r, fx(5.0), i64::MAX).unwrap();
    assert_eq!(far.t, fx(6.0));
    assert!(!far.front_face);
}

#[test]
fn normal_from_inside_faces_the_ray() {
    let s = Sphere { center: v3(0.0, 0.0, 0.0), radius: fx(2.0), material: grey() };
    let r = ray(v3(0.0, 0.0, 0.0), v3(0.0, 0.0, -1.0));
    let h = s.hit(&r, fx(0.001), i64::MAX).unwrap();
    assert_eq!(h.t, fx(2.0));
    assert!(!h.front_face);
    assert_eq!(h.normal, v3(0.0, 0.0, 1.0));
    assert!(dot(&r.direction, &h.normal) < 0);
    assert_eq!(h.normal.length(), fx(1.0));
}

#[test]
fn equal_distances_keep_the_first_sphere() {
    let metal = Material::Metal(Metal { albedo: v3(0.9, 0.9, 0.9), fuzz: 0 });
    let mut world = HittableList::new();
    world.add(Sphere { center: v3(0.0, 0.0, -5.0), radius: fx(1.0), material: grey() });
    world.add(Sphere { center: v3(0.0, 0.0, -5.0), radius: fx(1.0), material: metal });
    let r = ray(v3(0.0, 0.0, 0.0), v3(0.0, 0.0, -1.0));
    let h = world.hit(&r, fx(0.001), i64::MAX).unwrap();
    assert_eq!(h.material, grey());
}

#[test]
fn nearest_sphere_wins_in_any_order() {
    let metal = Material::Metal(Metal { albedo: v3(0.9, 0.9, 0.9), fuzz: 0 });
    let near = Sphere { center: v3(0.0, 0.0, -3.0), radius: fx(1.0), material: metal };
    let far = Sphere { center: v3(0.0, 0.0, -8.0), radius: fx(1.0), material: grey() };
    let r = ray(v3(0.0, 0.0, 0.0), v3(0.0, 0.0, -1.0));
    let mut a = HittableList::new();
    a.add(far);
    a.add(near);
    let mut b = HittableList::new();
    b.add(near);
    b.add(far);
    assert_eq!(a.hit(&r, fx(0.001), i64::MAX).unwrap().t, fx(2.0));
    assert_eq!(b.hit(&r, fx(0.001), i64::MAX).unwrap().t, fx(2.0));
    assert!(HittableList::new().hit(&r, fx(0.001), i64::MAX).is_none());
}

#[test]
fn lambertian_always_scatters() {
    let l = Lambertian { albedo: v3(0.2, 0.4, 0.6) };
    let rec = record(v3(0.0, 0.0, 0.0), v3(0.0, 1.0, 0.0), true, Material::Lambertian(l));
    let r = ray(v3(0.0, 1.0, 0.0), v3(0.0, -1.0, 0.0));
    let (att, out) = l.scatter(&r, &rec, v3(1.0, 0.0, 0.0)).unwrap();
    assert_eq!(att, v3(0.2, 0.4, 0.6));
    assert_eq!(out.origin, v3(0.0, 0.0, 0.0));
    assert_eq!(out.direction, v3(1.0, 1.0, 0.0));
    let (_, degenerate) = l.scatter(&r, &rec, v3(0.0, -1.0, 0.0)).unwrap();
    assert_eq!(degenerate.direction, v3(0.0, 1.0, 0.0));
}

#[test]
fn smooth_metal_mirrors_normal_incidence() {
    let m = Metal { albedo: v3(0.8, 0.8, 0.8), fuzz: 0 };
    let rec = record(v3(0.0, 0.0, 0.0), v3(0.0, 0.0, 1.0), true, Material::Metal(m));
    let r = ray(v3(0.0, 0.0, 3.0), v3(0.0, 0.0, -2.0));
    let (att, out) = m.scatter(&r, &rec, v3(0.6, 0.0, 0.8)).unwrap();
    assert_eq!(att, v3(0.8, 0.8, 0.8));
    assert_eq!(out.direction, v3(0.0, 0.0, 1.0));
}

#[test]
fn fuzzy_metal_absorbs_rays_sent_into_the_surface() {
    let m = Metal { albedo: v3(0.8, 0.8, 0.8), fuzz: fx(1.0) };
    let rec = record(v3(0.0, 0.0, 0.0), v3(0.0, 0.0, 1.0), true, Material::Metal(m));
    let r = ray(v3(-1.0, 0.0, 0.0), v3(1.0, 0.0, 0.0));
    assert!(m.scatter(&r, &rec, v3(0.0, 0.0, -1.0)).is_none());
}

#[test]
fn matched_index_glass_does_not_bend() {
    let d = Dielectric { ir: fx(1.0) };
    let rec = record(v3(0.0, 0.0, 0.0), v3(0.0, 0.0, 1.0), true, Material::Dielectric(d));
    let straight = ray(v3(0.0, 0.0, 1.0), v3(0.0, 0.0, -1.0));
    let (att, out) = d.scatter(&straight, &rec, fx(0.5)).unwrap();
    assert_eq!(att, v3(1.0, 1.0, 1.0));
    assert_eq!(out.direction, v3(0.0, 0.0, -1.0));
    let slanted = ray(v3(-0.6, 0.0, 0.8), v3(0.6, 0.0, -0.8));
    let (_, bent) = d.scatter(&slanted, &rec, fx(0.99)).unwrap();
    assert!(close(bent.direction.x(), 0.6, 1e-3));
    assert!(close(bent.direction.y(), 0.0, 1e-3));
    assert!(close(bent.direction.z(), -0.8, 1e-3));
}

#[test]
fn glass_reflects_under_total_internal_reflection() {
    let d = Dielectric { ir: fx(1.5) };
    let rec = record(v3(0.0, 0.0, 0.0), v3(0.0, 0.0, -1.0), false, Material::Dielectric(d));
    let r = ray(v3(-0.8, 0.0, -0.6), v3(0.8, 0.0, 0.6));
    let (_, out) = d.scatter(&r, &rec, fx(0.99)).unwrap();
    assert!(close(out.direction.x(), 0.8, 1e-3));
    assert!(close(out.direction.z(), -0.6, 1e-3));
}

#[test]
fn schlick_reflectance_values() {
    assert!(close(Dielectric::reflectance(fx(1.0), fx(1.5)), 0.04, 1e-4));
    assert!(close(Dielectric::reflectance(fx(0.0), fx(1.5)), 1.0, 1e-4));
    assert_eq!(Dielectric::reflectance(fx(1.0), fx(1.0)), 0);
}

#[test]
fn zero_depth_is_black() {
    let mut world = HittableList::new();
    world.add(Sphere { center: v3(0.0, 0.0, -1.0), radius: fx(0.5), material: grey() });
    let r = ray(v3(0.0, 0.0, 0.0), v3(0.0, 0.0, -1.0));
    assert_eq!(ray_color(&r, &world, 0), v3(0.0, 0.0, 0.0));
}

#[test]
fn ground_only_scene_shows_sky_at_the_horizon() {
    let mut world = HittableList::new();
    world.add(Sphere { center: v3(0.0, -100.5, -1.0), radius: fx(100.0), material: grey() });
    let r = ray(v3(0.0, 0.0, 0.0), v3(0.0, 0.0, -1.0));
    let c = ray_color(&r, &world, 50);
    assert!(close(c.x(), 0.75, 1e-4));
    assert!(close(c.y(), 0.85, 1e-4));
    assert!(close(c.z(), 1.0, 1e-4));
    let up = ray_color(&ray(v3(0.0, 0.0, 0.0), v3(0.0, 1.0, 0.0)), &world, 1);
    assert_eq!(up, v3(0.5, 0.7, 1.0));
}

#[test]
fn pinhole_camera_looks_down_negative_z() {
    let cam = Camera::new(
        v3(0.0, 0.0, 0.0),
        v3(0.0, 0.0, -1.0),
        v3(0.0, 1.0, 0.0),
        fx(1.0),
        fx(1.0),
        0,
        fx(1.0),
    );
    assert_eq!(cam.lower_left_corner, v3(-1.0, -1.0, -1.0));
    let r = cam.get_ray(fx(0.5), fx(0.5));
    assert_eq!(r.origin, v3(0.0, 0.0, 0.0));
    assert_eq!(r.direction, v3(0.0, 0.0, -1.0));
    let corner = cam.ray_from_lens(fx(1.0), fx(1.0), v3(0.5, 0.5, 0.0));
    assert_eq!(corner.direction, v3(1.0, 1.0, -1.0));
}

#[test]
fn sample_pass_fills_the_frame() {
    let mut world = HittableList::new();
    world.add(Sphere { center: v3(0.0, -100.5, -1.0), radius: fx(100.0), material: grey() });
    let cam = Camera::new(
        v3(0.0, 0.0, 0.0),
        v3(0.0, 0.0, -1.0),
        v3(0.0, 1.0, 0.0),
        fx(1.0),
        fx(1.5),
        0,
        fx(1.0),
    );
    let frame = render_single(&world, &cam, 6, 4, 5);
    assert_eq!(frame.len(), 24);
    for c in &frame {
        assert!(c.x() >= 0 && c.z() <= fx(1.0));
    }
    let dark = render_single(&world, &cam, 3, 2, 0);
    assert_eq!(dark, vec![v3(0.0, 0.0, 0.0); 6]);
}

#[test]
fn frames_accumulate_in_any_order() {
    let f1 = vec![v3(0.25, 0.5, 1.0), v3(0.0, 0.1, 0.2)];
    let f2 = vec![v3(0.5, 0.25, 0.0), v3(1.0, 1.0, 1.0)];
    let mut a = new_frame(2);
    assert_eq!(a, vec![v3(0.0, 0.0, 0.0); 2]);
    accumulate(&mut a, &f1);
    accumulate(&mut a, &f2);
    let mut b = new_frame(2);
    accumulate(&mut b, &f2);
    accumulate(&mut b, &f1);
    assert_eq!(a, b);
    assert_eq!(a[0], v3(0.75, 0.75, 1.0));
}

#[test]
fn averaged_sums_become_gamma_corrected_bytes() {
    let rgb = float_to_rgb_vec(fx(1.0), fx(40.0), fx(-1.0), 4);
    assert_eq!(rgb, (128, 255, 0));
    assert_eq!(float_to_rgb_vec(fx(1.0), fx(0.0), fx(0.25), 1), (255, 0, 128));
}

#[test]
fn random_samples_stay_in_their_domains() {
    for _ in 0..200 {
        let u = random_unit();
        assert!(0 <= u && u < ONE);
        let s = random_in_unit_sphere();
        assert!((s.length() - ONE).abs() <= 16);
        let d = random_in_unit_disk();
        assert_eq!(d.z(), 0);
        assert!(dot(&d, &d) < ONE);
    }
}

#[test]
fn demonstration_scene_layout() {
    let world = random_scene();
    let n = world.objects.len();
    assert!(n >= 4 && n <= 4 + 22 * 22);
    assert_eq!(world.objects[0].radius, fx(1000.0));
    assert_eq!(world.objects[0].center, v3(0.0, -1000.0, 0.0));
    assert_eq!(world.objects[n - 3].material, Material::Dielectric(Dielectric { ir: fx(1.5) }));
    assert_eq!(world.objects[n - 1].center, v3(4.0, 1.0, 0.0));
    for s in &world.objects[1..n - 3] {
        assert_eq!(s.radius, 13107);
        assert!(s.center.sub(v3(4.0, 0.2, 0.0)).length() > fx(0.9));
    }
}

#[test]
fn small_sphere_material_follows_the_draw() {
    let a = v3(0.1, 0.2, 0.3);
    let b = v3(0.6, 0.7, 0.8);
    assert_eq!(small_material(fx(0.5), a, b, fx(0.25)), Material::Lambertian(Lambertian { albedo: a }));
    assert_eq!(small_material(fx(0.9), a, b, fx(0.25)), Material::Metal(Metal { albedo: b, fuzz: fx(0.25) }));
    assert_eq!(small_material(fx(0.97), a, b, fx(0.25)), Material::Dielectric(Dielectric { ir: fx(1.5) }));
}

#[test]
fn ball_candidates_are_normalised_or_rejected() {
    assert_eq!(ball_candidate(v3(0.0, 0.0, 0.5)), Some(v3(0.0, 0.0, 1.0)));
    let u = ball_candidate(v3(0.3, -0.4, 0.0)).unwrap();
    assert!(close(u.x(), 0.6, 1e-4) && close(u.y(), -0.8, 1e-4) && u.z() == 0);
    assert!(ball_candidate(v3(0.9, 0.9, 0.0)).is_none());
    assert!(ball_candidate(Vec3(100, -50, 20)).is_none());
    assert!(ball_candidate(v3(0.0, 0.0, 0.0)).is_none());
}

#[test]
fn disk_candidates_must_lie_in_the_disk() {
    assert_eq!(disk_candidate(v3(0.5, -0.5, 0.0)), Some(v3(0.5, -0.5, 0.0)));
    assert!(disk_candidate(v3(0.8, 0.8, 0.0)).is_none());
    assert!(disk_candidate(v3(0.1, 0.1, 0.1)).is_none());
}

#[test]
fn single_pixel_frame() {
    let world = HittableList::new();
    let cam = Camera::new(
        v3(0.0, 0.0, 0.0),
        v3(0.0, 0.0, -1.0),
        v3(0.0, 1.0, 0.0),
        fx(1.0),
        fx(1.0),
        0,
        fx(1.0),
    );
    let frame = render_single(&world, &cam, 1, 1, 3);
    assert_eq!(frame.len(), 1);
    assert!(frame[0].z() == fx(1.0));
}
