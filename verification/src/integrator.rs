//! The recursive Monte-Carlo radiance estimator.

use vstd::prelude::*;
use crate::fixed::{SCALE, fxmul, mul_fx, div_fx, sqrt_fx, lemma_fxmul_bound, lemma_fxmul_unit, lemma_tdiv_mag};
use crate::vec3::{Vec3, Point3, Color, v3, V3, v3_unit, v3_dot, v3_bounded, color_ok, lemma_v3_dot_bound, lemma_v3_dot_bound2};
use crate::ray::{Ray, ray_wf, POS_LIM, DIR_LIM, T_INF};
use crate::hittable::{sphere_disc, sphere_root1};
use crate::hittable_list::{HittableList, hittable_list_wf, all_det, list_hit_min};

verus! {

/// The lower end of the hit interval: suppresses self-intersection of a
/// scattered ray with its own originating surface.
pub const T_EPS: i64 = 66;

/// The sky-dome radiance for a direction: a vertical gradient from white to
/// sky blue over the normalized vertical component, clamped against
/// rounding.
pub open spec fn sky_color_spec(d: V3) -> V3 {
    let u = v3_unit(d);
    let yy = if u.y > SCALE as int {
        SCALE as int
    } else if u.y < -(SCALE as int) {
        -(SCALE as int)
    } else {
        u.y
    };
    let t = (yy + SCALE as int) / 2;
    V3 {
        x: SCALE as int - t + fxmul(t, 32768),
        y: SCALE as int - t + fxmul(t, 45875),
        z: SCALE as int - t + fxmul(t, SCALE as int),
    }
}

/// Evaluates the sky gradient.
pub fn sky_color(d: Vec3) -> (c: Color)
    requires
        v3_bounded(v3(d), DIR_LIM as int),
        v3_dot(v3(d), v3(d)) >= 1,
    ensures
        v3(c) == sky_color_spec(v3(d)),
        color_ok(c),
{
    let u = d.unit();
    let yy = if u.y > SCALE {
        SCALE
    } else if u.y < -SCALE {
        -SCALE
    } else {
        u.y
    };
    let t = (((yy + SCALE) as u64) / 2) as i64;
    proof {
        lemma_fxmul_unit(t as int, 32768);
        lemma_fxmul_unit(t as int, 45875);
        lemma_fxmul_unit(t as int, SCALE as int);
    }
    Vec3 {
        x: SCALE - t + mul_fx(t, 32768),
        y: SCALE - t + mul_fx(t, 45875),
        z: SCALE - t + mul_fx(t, SCALE),
    }
}

/// The nearest quadratic root of a sphere, ignoring any range: negative or
/// absent when the ray misses.
pub open spec fn hit_sphere_spec(center: V3, radius: int, r: Ray) -> Option<int> {
    if sphere_disc(center, radius, r) < 0 {
        None
    } else {
        Some(sphere_root1(center, radius, r))
    }
}

/// Solves the sphere quadratic for the nearest root, with no range test.
pub fn hit_sphere(center: Point3, radius: i64, r: Ray) -> (res: Option<i64>)
    requires
        ray_wf(r),
        v3_bounded(v3(center), POS_LIM as int),
        1 <= radius <= POS_LIM,
    ensures
        match res {
            Some(t) => hit_sphere_spec(v3(center), radius as int, r) == Some(t as int),
            None => hit_sphere_spec(v3(center), radius as int, r) is None,
        },
{
    let oc = r.origin.sub(center);
    let a = Vec3::dot(r.direction, r.direction);
    proof {
        lemma_v3_dot_bound(v3(r.direction), v3(r.direction), DIR_LIM as int);
        lemma_v3_dot_bound2(v3(oc), v3(r.direction), 0x2000_0000, 0x40_0000);
        lemma_v3_dot_bound(v3(oc), v3(oc), 0x2000_0000);
        lemma_fxmul_bound(radius as int, radius as int, POS_LIM as int, POS_LIM as int);
    }
    let half_b = Vec3::dot(oc, r.direction);
    let c2 = oc.squared_length() - mul_fx(radius, radius);
    proof {
        lemma_fxmul_bound(half_b as int, half_b as int, 0x18_0000_0000, 0x18_0000_0000);
        lemma_fxmul_bound(a as int, c2 as int, 0x3000_0000, 0x1_0000_0000_0000);
    }
    let delta = mul_fx(half_b, half_b) - mul_fx(a, c2);
    if delta < 0 {
        return None;
    }
    let sqrtd = sqrt_fx(delta);
    proof {
        crate::fixed::lemma_sqrt_floor(((delta as int) * SCALE as int) as nat);
        if sqrtd as int > 0x80_0000_0000 {
            assert(sqrtd as int * sqrtd as int > 0x80_0000_0000int * 0x80_0000_0000)
                by (nonlinear_arith)
                requires
                    sqrtd as int > 0x80_0000_0000,
            ;
        }
        lemma_tdiv_mag(
            (-half_b - sqrtd) as int * SCALE as int,
            a as int,
            0x100_0000_0000int * 0x10000,
        );
    }
    Some(div_fx(-half_b - sqrtd, a))
}

/// The recursive radiance estimate for a ray in a scene.
///
/// At zero depth the estimate is black; a miss contributes the sky
/// gradient; a hit recurses on the scattered ray and multiplies by the
/// attenuation. For every well-formed scene the result is a well-formed
/// color: componentwise within `[0, 1]`, so radiance never turns negative
/// and never blows up.
pub fn ray_color(r: &Ray, world: &HittableList, depth: i32) -> (c: Color)
    requires
        hittable_list_wf(*world),
    ensures
        color_ok(c),
        depth <= 0 ==> c == (Vec3 { x: 0, y: 0, z: 0 }),
        (depth > 0 && crate::ray::ray_wf(*r) && all_det(world.objects@) && list_hit_min(
            world.objects@,
            *r,
            T_EPS as int,
            T_INF as int,
        ) is None) ==> v3(c) == sky_color_spec(v3(r.direction)),
    decreases depth,
{
    if depth <= 0 {
        return Vec3 { x: 0, y: 0, z: 0 };
    }
    if !(-POS_LIM <= r.origin.x && r.origin.x <= POS_LIM && -POS_LIM <= r.origin.y && r.origin.y
        <= POS_LIM && -POS_LIM <= r.origin.z && r.origin.z <= POS_LIM) {
        return Vec3 { x: 0, y: 0, z: 0 };
    }
    if !(-DIR_LIM <= r.direction.x && r.direction.x <= DIR_LIM && -DIR_LIM <= r.direction.y
        && r.direction.y <= DIR_LIM && -DIR_LIM <= r.direction.z && r.direction.z <= DIR_LIM) {
        return Vec3 { x: 0, y: 0, z: 0 };
    }
    if !(-T_INF <= r.time && r.time <= T_INF) {
        return Vec3 { x: 0, y: 0, z: 0 };
    }
    let ls = r.direction.squared_length();
    if ls < 1 {
        return Vec3 { x: 0, y: 0, z: 0 };
    }
    match world.hit(r, T_EPS, T_INF) {
        None => sky_color(r.direction),
        Some(rec) => {
            match rec.mat_ptr.scatter(r, &rec) {
                None => Vec3 { x: 0, y: 0, z: 0 },
                Some((att, scattered)) => {
                    let sub = ray_color(&scattered, world, depth - 1);
                    proof {
                        lemma_fxmul_unit(att.x as int, sub.x as int);
                        lemma_fxmul_unit(att.y as int, sub.y as int);
                        lemma_fxmul_unit(att.z as int, sub.z as int);
                    }
                    att.mul_comp(sub)
                },
            }
        },
    }
}

} // verus!
