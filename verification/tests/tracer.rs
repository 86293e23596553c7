use fxtracer::fixed::{SCALE, mul_fx, div_fx, sqrt_fx, isqrt};
use fxtracer::vec3::Vec3;
use fxtracer::ray::{Ray, T_INF};
use fxtracer::texture::Texture;
use fxtracer::material::{Lambertian, Metal, Dielectric, Isotropic, Material};
use fxtracer::hittable::{HitRecord, Sphere, Hittable};
use fxtracer::moving_sphere::Moving_sphere;
use fxtracer::constant_medium::ConstantMedium;
use fxtracer::hittable_list::HittableList;
use fxtracer::camera::Camera;
use fxtracer::integrator::{ray_color, sky_color, hit_sphere, T_EPS};
use fxtracer::sampler::{random_fraction, sample_unit_exponential, random_in_unit_sphere, EXP_CAP};
use fxtracer::aabb::AABB;

fn v(x: i64, y: i64, z: i64) -> Vec3 {
    Vec3 { x, y, z }
}

fn gray() -> Material {
    Material::Lambertian(Lambertian::new(v(32768, 32768, 32768)))
}

#[test]
fn fixed_arithmetic_exact() {
    assert_eq!(mul_fx(131072, 98304), 196608); // 2 * 1.5 == 3
    assert_eq!(mul_fx(-131072, 98304), -196608);
    assert_eq!(div_fx(196608, 131072), 98304); // 3 / 2 == 1.5
    assert_eq!(div_fx(-196608, 131072), -98304);
    assert_eq!(sqrt_fx(262144), 131072); // sqrt 4 == 2
    assert_eq!(sqrt_fx(0), 0);
    assert_eq!(isqrt(17), 4);
    assert_eq!(isqrt(16), 4);
}

#[test]
fn sphere_intersection_unit_sphere_from_minus_five() {
    // A sphere at the origin with radius one, a ray from (0,0,-5) toward
    // (0,0,1): the nearest hit is at t = 4, point (0,0,-1), normal (0,0,-1).
    let s = Sphere::new(v(0, 0, 0), SCALE, gray());
    let r = Ray::new(v(0, 0, -5 * SCALE), v(0, 0, SCALE), 0);
    let rec = s.hit(&r, T_EPS, T_INF).expect("the ray must hit");
    assert_eq!(rec.t, 4 * SCALE);
    assert_eq!(rec.p, v(0, 0, -SCALE));
    assert_eq!(rec.normal, v(0, 0, -SCALE));
    assert!(rec.front_face);
}

#[test]
fn hit_sphere_nearest_root() {
    let r = Ray::new(v(0, 0, -5 * SCALE), v(0, 0, SCALE), 0);
    assert_eq!(hit_sphere(v(0, 0, 0), SCALE, r), Some(4 * SCALE));
    let miss = Ray::new(v(0, 5 * SCALE, -5 * SCALE), v(0, 0, SCALE), 0);
    assert_eq!(hit_sphere(v(0, 0, 0), SCALE, miss), None);
}

#[test]
fn front_face_rule_orients_normal_against_ray() {
    let r = Ray::new(v(0, 0, 0), v(0, 0, SCALE), 0);
    let mut rec = HitRecord::new();
    rec.set_face_normal(&r, v(0, 0, SCALE));
    assert!(!rec.front_face);
    assert_eq!(rec.normal, v(0, 0, -SCALE));
    let mut rec2 = HitRecord::new();
    rec2.set_face_normal(&r, v(0, 0, -SCALE));
    assert!(rec2.front_face);
    assert_eq!(rec2.normal, v(0, 0, -SCALE));
}

#[test]
fn no_hit_when_both_roots_outside_range() {
    // The same geometry as the t = 4 hit, but the range ends at t = 2:
    // both roots (4 and 6) fall outside, so there is no hit at all.
    let s = Sphere::new(v(0, 0, 0), SCALE, gray());
    let r = Ray::new(v(0, 0, -5 * SCALE), v(0, 0, SCALE), 0);
    assert!(s.hit(&r, T_EPS, 2 * SCALE).is_none());
    // And a range that opens after both roots.
    assert!(s.hit(&r, 7 * SCALE, T_INF).is_none());
}

#[test]
fn metal_absorbs_when_fuzz_pushes_into_surface() {
    let m = Metal::new(v(SCALE, SCALE, SCALE), SCALE);
    let r_in = Ray::new(v(0, 0, SCALE), v(0, 0, -SCALE), 0);
    let mut rec = HitRecord::new();
    rec.p = v(0, 0, 0);
    rec.normal = v(0, 0, SCALE);
    rec.front_face = true;
    // The mirror reflection is (0,0,1); a fuzz sample of (0,0,-1) at fuzz 1
    // cancels it, so the outgoing direction no longer points away from the
    // surface and the ray is absorbed.
    assert!(m.scatter_with(&r_in, &rec, v(0, 0, -SCALE)).is_none());
    // Without fuzz the same ray reflects straight back out.
    let m0 = Metal::new(v(SCALE, SCALE, SCALE), 0);
    let (att, sc) = m0.scatter_with(&r_in, &rec, v(0, 0, 0)).expect("must scatter");
    assert_eq!(att, v(SCALE, SCALE, SCALE));
    assert_eq!(sc.direction, v(0, 0, SCALE));
    assert_eq!(sc.origin, v(0, 0, 0));
}

#[test]
fn metal_new_clamps_fuzz() {
    assert_eq!(Metal::new(v(0, 0, 0), 3 * SCALE).fuzz, SCALE);
    assert_eq!(Metal::new(v(0, 0, 0), -5).fuzz, 0);
    assert_eq!(Metal::new(v(0, 0, 0), 100).fuzz, 100);
}

#[test]
fn dielectric_total_internal_reflection() {
    // ir = 1.5, leaving the material at a grazing angle: the ratio times
    // the sine exceeds one, so every draw reflects, never refracts.
    let d = Dielectric::new(98304);
    let r_in = Ray::new(v(0, 0, 0), v(SCALE, 0, 0), 0);
    let mut rec = HitRecord::new();
    rec.p = v(0, 0, 0);
    rec.normal = v(0, 0, SCALE);
    rec.front_face = false;
    for draw in [0, 1, 32768, SCALE - 1] {
        let (att, sc) = d.scatter_with(&r_in, &rec, draw);
        assert_eq!(att, v(SCALE, SCALE, SCALE));
        assert_eq!(sc.direction, v(SCALE, 0, 0));
    }
    // The stochastic entry point must reflect the same way.
    let mat = Material::Dielectric(d);
    let (_, sc) = mat.scatter(&r_in, &rec).expect("a dielectric always scatters");
    assert_eq!(sc.direction, v(SCALE, 0, 0));
}

#[test]
fn dielectric_reflectance_exact() {
    assert_eq!(Dielectric::reflectance(SCALE, 98304), 2621);
}

#[test]
fn lambertian_falls_back_to_normal_on_degenerate_sample() {
    let l = Lambertian::new(v(32768, 16384, 8192));
    let r_in = Ray::new(v(0, 0, SCALE), v(0, 0, -SCALE), 7);
    let mut rec = HitRecord::new();
    rec.p = v(1, 2, 3);
    rec.normal = v(0, 0, SCALE);
    let (att, sc) = l.scatter_with(&r_in, &rec, v(0, 0, -SCALE));
    assert_eq!(att, v(32768, 16384, 8192));
    assert_eq!(sc.direction, v(0, 0, SCALE));
    assert_eq!(sc.origin, v(1, 2, 3));
    assert_eq!(sc.time, 7);
}

#[test]
fn lambertian_new_by_pointer_keeps_texture() {
    let t = Texture::new_solid(v(1, 2, 3));
    let l = Lambertian::new_by_pointer(t);
    assert_eq!(l.albedo, Texture::SolidColor { color: v(1, 2, 3) });
}

#[test]
fn texture_value_is_the_solid_color() {
    let t = Texture::new_solid(v(9, 8, 7));
    assert_eq!(t.value(0, 0, &v(5, 5, 5)), v(9, 8, 7));
}

#[test]
fn isotropic_scatters_along_sample() {
    let i = Isotropic::new_by_color(v(100, 200, 300));
    let r_in = Ray::new(v(0, 0, 0), v(0, 0, SCALE), 11);
    let mut rec = HitRecord::new();
    rec.p = v(4, 5, 6);
    let (att, sc) = i.scatter_with(&r_in, &rec, v(7, 8, 9));
    assert_eq!(att, v(100, 200, 300));
    assert_eq!(sc.direction, v(7, 8, 9));
    assert_eq!(sc.origin, v(4, 5, 6));
    assert_eq!(sc.time, 11);
}

#[test]
fn recursion_budget_zero_is_black() {
    let world = HittableList::new_default();
    let r = Ray::new(v(0, 0, 0), v(0, 0, SCALE), 0);
    assert_eq!(ray_color(&r, &world, 0), v(0, 0, 0));
    assert_eq!(ray_color(&r, &world, -3), v(0, 0, 0));
}

#[test]
fn sky_gradient_exact_values() {
    // A horizontal ray sits halfway up the gradient: 0.5*white + 0.5*blue.
    let c = sky_color(v(0, 0, SCALE));
    assert_eq!(c.x, 49152);
    assert_eq!(c.y, 55705);
    assert_eq!(c.z, SCALE);
    let world = HittableList::new_default();
    let r = Ray::new(v(0, 0, 0), v(0, 0, SCALE), 0);
    assert_eq!(ray_color(&r, &world, 5), c);
    // Straight up is pure sky blue.
    let top = sky_color(v(0, SCALE, 0));
    assert_eq!(top, v(32768, 45875, SCALE));
}

#[test]
fn radiance_is_bounded_for_a_scene() {
    let mut world = HittableList::new_default();
    world.add(Hittable::Sphere(Sphere::new(v(0, 0, -2 * SCALE), SCALE, gray())));
    world.add(Hittable::Sphere(Sphere::new(
        v(0, -1000 * SCALE, 0),
        999 * SCALE,
        Material::Metal(Metal::new(v(52428, 39321, 26214), 6553)),
    )));
    world.add(Hittable::Sphere(Sphere::new(
        v(2 * SCALE, 0, -2 * SCALE),
        SCALE,
        Material::Dielectric(Dielectric::new(98304)),
    )));
    for k in 0..20i64 {
        let r = Ray::new(v(0, 0, SCALE), v(k * 1000 - 10000, -3000, SCALE), 0);
        let c = ray_color(&r, &world, 8);
        assert!(0 <= c.x && c.x <= SCALE);
        assert!(0 <= c.y && c.y <= SCALE);
        assert!(0 <= c.z && c.z <= SCALE);
    }
}

#[test]
fn aggregate_returns_strictly_smaller_t() {
    // Two overlapping spheres along the ray's path: the nearer wins.
    let s1 = Sphere::new(v(0, 0, 3 * SCALE), SCALE, gray());
    let s2 = Sphere::new(v(0, 0, 4 * SCALE), SCALE, gray());
    let r = Ray::new(v(0, 0, 0), v(0, 0, SCALE), 0);
    let mut world = HittableList::new_default();
    world.add(Hittable::Sphere(s1));
    world.add(Hittable::Sphere(s2));
    let rec = world.hit(&r, T_EPS, T_INF).expect("must hit");
    assert_eq!(rec.t, 2 * SCALE);
    // The same members in the other order give the same nearest hit.
    let mut world2 = HittableList::new_default();
    world2.add(Hittable::Sphere(s2));
    world2.add(Hittable::Sphere(s1));
    let rec2 = world2.hit(&r, T_EPS, T_INF).expect("must hit");
    assert_eq!(rec2.t, 2 * SCALE);
}

#[test]
fn empty_aggregate_never_hits() {
    let world = HittableList::new_default();
    let r = Ray::new(v(0, 0, 0), v(0, 0, SCALE), 0);
    assert!(world.hit(&r, T_EPS, T_INF).is_none());
}

#[test]
fn moving_sphere_interpolates_center() {
    let m = Moving_sphere::new(v(0, 0, 0), v(SCALE, 0, 0), 0, SCALE, SCALE, gray());
    assert_eq!(m.center(0), v(0, 0, 0));
    assert_eq!(m.center(SCALE), v(SCALE, 0, 0));
    assert_eq!(m.center(32768), v(32768, 0, 0));
}

#[test]
fn moving_sphere_hit_at_start_time() {
    let m = Moving_sphere::new(
        v(0, 0, 0),
        v(100 * SCALE, 0, 0),
        0,
        SCALE,
        SCALE,
        gray(),
    );
    // At the shutter-open time the sphere still sits at the origin.
    let r = Ray::new(v(0, 0, -5 * SCALE), v(0, 0, SCALE), 0);
    let rec = m.hit(&r, T_EPS, T_INF).expect("must hit");
    assert_eq!(rec.t, 4 * SCALE);
    // At the far end of the shutter it has moved out of the ray's path.
    let r1 = Ray::new(v(0, 0, -5 * SCALE), v(0, 0, SCALE), SCALE);
    assert!(m.hit(&r1, T_EPS, T_INF).is_none());
}

#[test]
fn constant_medium_core_is_exact_for_a_given_draw() {
    let boundary = Hittable::Sphere(Sphere::new(v(0, 0, 0), SCALE, gray()));
    let cm = ConstantMedium::new_by_color(Box::new(boundary), SCALE, v(100, 100, 100));
    assert_eq!(cm.inv_density, SCALE);
    let r = Ray::new(v(0, 0, 0), v(0, 0, SCALE), 0);
    // Boundary interval [2, 4], a unit exponential draw of exactly one:
    // scattering happens one unit past the entry point.
    let rec = cm
        .hit_core(&r, T_EPS, T_INF, 2 * SCALE, 4 * SCALE, SCALE)
        .expect("the draw lands inside");
    assert_eq!(rec.t, 3 * SCALE);
    assert_eq!(rec.p, v(0, 0, 3 * SCALE));
    assert!(rec.front_face);
    assert_eq!(rec.normal, v(SCALE, 0, 0));
    // A draw longer than the traversal leaves the medium unscattered.
    assert!(cm.hit_core(&r, T_EPS, T_INF, 2 * SCALE, 4 * SCALE, 3 * SCALE).is_none());
}

#[test]
fn aabb_slab_test() {
    let b = AABB::new(v(-SCALE, -SCALE, -SCALE), v(SCALE, SCALE, SCALE));
    let r = Ray::new(v(0, 0, -5 * SCALE), v(0, 0, SCALE), 0);
    assert!(b.hit(&r, T_EPS, T_INF));
    // The box spans t in [4, 6]; a range ending at t = 2 misses it.
    assert!(!b.hit(&r, T_EPS, 2 * SCALE));
    let away = Ray::new(v(0, 5 * SCALE, -5 * SCALE), v(0, 0, SCALE), 0);
    assert!(!b.hit(&away, T_EPS, T_INF));
}

#[test]
fn aabb_surrounding_box_merges_corners() {
    let a = AABB::new(v(-1, -2, -3), v(1, 2, 3));
    let b = AABB::new(v(-5, 0, -1), v(0, 5, 10));
    let s = AABB::surrounding_box(&a, &b);
    assert_eq!(s.minimum, v(-5, -2, -3));
    assert_eq!(s.maximum, v(1, 5, 10));
}

#[test]
fn bounding_boxes_of_surfaces() {
    let s = Hittable::Sphere(Sphere::new(v(0, 0, 0), SCALE, gray()));
    let b = s.bounding_box(0, SCALE).expect("a sphere is bounded");
    assert_eq!(b.minimum, v(-SCALE, -SCALE, -SCALE));
    assert_eq!(b.maximum, v(SCALE, SCALE, SCALE));
    let mut world = HittableList::new_default();
    world.add(Hittable::Sphere(Sphere::new(v(0, 0, 0), SCALE, gray())));
    world.add(Hittable::Sphere(Sphere::new(v(3 * SCALE, 0, 0), SCALE, gray())));
    let wb = world.bounding_box(0, SCALE).expect("all members bounded");
    assert_eq!(wb.minimum, v(-SCALE, -SCALE, -SCALE));
    assert_eq!(wb.maximum, v(4 * SCALE, SCALE, SCALE));
    assert!(HittableList::new_default().bounding_box(0, SCALE).is_none());
}

#[test]
fn camera_pinhole_center_ray() {
    let cam = Camera::new(
        v(0, 0, SCALE),
        v(0, 0, 0),
        v(0, SCALE, 0),
        SCALE,
        SCALE,
        0,
        SCALE,
        0,
        SCALE,
    );
    assert_eq!(cam.origin, v(0, 0, SCALE));
    assert_eq!(cam.lens_radius, 0);
    let r = cam.get_ray_with(32768, 32768, v(0, 0, 0), 0);
    assert_eq!(r.origin, v(0, 0, SCALE));
    assert_eq!(r.direction, v(0, 0, -SCALE));
    assert_eq!(r.time, 0);
    // The drawn entry point keeps the time inside the shutter interval.
    let r2 = cam.get_ray(16384, 49152);
    assert!(0 <= r2.time && r2.time <= SCALE);
}

#[test]
fn sampler_ranges() {
    for _ in 0..200 {
        let f = random_fraction();
        assert!(0 <= f && f < SCALE);
        let e = sample_unit_exponential();
        assert!(0 <= e && e <= EXP_CAP);
        let p = random_in_unit_sphere();
        let ls = p.squared_length();
        assert!(ls < SCALE);
    }
}

#[test]
fn scattered_radiance_stays_bounded_through_a_diffuse_bounce() {
    let mut world = HittableList::new_default();
    world.add(Hittable::Sphere(Sphere::new(
        v(0, 0, 2 * SCALE),
        SCALE,
        Material::Lambertian(Lambertian::new(v(65536, 32768, 16384))),
    )));
    let r = Ray::new(v(0, 0, 0), v(0, 0, SCALE), 0);
    for _ in 0..20 {
        let c = ray_color(&r, &world, 4);
        assert!(0 <= c.x && c.x <= SCALE);
        assert!(0 <= c.y && c.y <= SCALE);
        assert!(0 <= c.z && c.z <= SCALE);
    }
}

#[test]
fn empty_record_carries_black_diffuse_material() {
    let rec = HitRecord::new();
    assert_eq!(rec.mat_ptr, Material::Lambertian(Lambertian::new(v(0, 0, 0))));
    assert_eq!(rec.p, v(0, 0, 0));
    assert_eq!(rec.t, 0);
}

#[test]
fn metal_without_fuzz_always_scatters_outward() {
    // With fuzz zero the sample is ignored: the dispatcher must scatter,
    // and the direction is exactly the mirror reflection.
    let m = Material::Metal(Metal::new(v(SCALE, 32768, 16384), 0));
    let r_in = Ray::new(v(0, 0, SCALE), v(0, 0, -SCALE), 0);
    let mut rec = HitRecord::new();
    rec.p = v(0, 0, 0);
    rec.normal = v(0, 0, SCALE);
    rec.front_face = true;
    for _ in 0..20 {
        let (att, sc) = m.scatter(&r_in, &rec).expect("fuzz zero cannot absorb here");
        assert_eq!(att, v(SCALE, 32768, 16384));
        assert_eq!(sc.direction, v(0, 0, SCALE));
    }
}

#[test]
fn dense_medium_always_scatters_inside_its_boundary() {
    // Density 100: even the capped exponential draw ends well inside the
    // boundary, so the medium scatters on every query.
    let boundary = Hittable::Sphere(Sphere::new(v(0, 0, 3 * SCALE), 2 * SCALE, gray()));
    let cm = ConstantMedium::new_by_color(Box::new(boundary), 100 * SCALE, v(100, 100, 100));
    let medium = Hittable::Medium(cm);
    let r = Ray::new(v(0, 0, 0), v(0, 0, SCALE), 0);
    for _ in 0..20 {
        let rec = medium.hit(&r, T_EPS, T_INF).expect("a dense medium must scatter");
        assert!(SCALE <= rec.t && rec.t <= 2 * SCALE);
        assert!(rec.front_face);
        assert_eq!(rec.normal, v(SCALE, 0, 0));
        assert!(matches!(rec.mat_ptr, Material::Isotropic(_)));
    }
}

#[test]
fn medium_with_missed_boundary_never_hits() {
    let boundary = Hittable::Sphere(Sphere::new(v(0, 0, 3 * SCALE), SCALE, gray()));
    let cm = ConstantMedium::new_by_color(Box::new(boundary), SCALE, v(100, 100, 100));
    let medium = Hittable::Medium(cm);
    let away = Ray::new(v(0, 5 * SCALE, 0), v(0, 0, SCALE), 0);
    assert!(medium.hit(&away, T_EPS, T_INF).is_none());
}

#[test]
fn missed_scene_yields_the_sky_gradient() {
    // A non-empty, fully deterministic world the ray flies past: the
    // integrator must return exactly the sky gradient.
    let mut world = HittableList::new_default();
    world.add(Hittable::Sphere(Sphere::new(v(0, 0, -3 * SCALE), SCALE, gray())));
    let r = Ray::new(v(0, 0, 0), v(0, 0, SCALE), 0);
    assert_eq!(ray_color(&r, &world, 6), sky_color(v(0, 0, SCALE)));
}
