//! A sphere whose center moves linearly between two times: motion blur.

use vstd::prelude::*;
use crate::fixed::{fxmul, fxdiv, mul_fx, div_fx, lemma_fxmul_bound, lemma_tdiv_ratio};
use crate::vec3::{Vec3, Point3, v3, V3, v3_bounded};
use crate::ray::{Ray, ray_at, ray_wf, POS_LIM, T_INF};
use crate::material::{Material, material_wf};
use crate::hittable::{HitRecord, hitrec_wf, sphere_hit, sphere_hit_impl};

verus! {

/// A sphere interpolating its center from `center0` at `time0` to `center1`
/// at `time1`.
#[allow(non_camel_case_types)]
#[derive(Clone, Copy, PartialEq, Eq, Structural, Debug)]
pub struct Moving_sphere {
    pub center0: Point3,
    pub center1: Point3,
    pub time0: i64,
    pub time1: i64,
    pub radius: i64,
    pub mat_ptr: Material,
}

/// A well-formed moving sphere: centers in range, a positive radius, a
/// non-degenerate shutter interval, and a well-formed material.
pub open spec fn moving_sphere_wf(m: Moving_sphere) -> bool {
    &&& v3_bounded(v3(m.center0), POS_LIM as int)
    &&& v3_bounded(v3(m.center1), POS_LIM as int)
    &&& 1 <= m.radius <= POS_LIM
    &&& material_wf(m.mat_ptr)
    &&& -T_INF <= m.time0 < m.time1 <= T_INF
    &&& m.time1 - m.time0 >= 1024
}

/// The interpolated center at the given time:
/// `center0 + (center1 - center0) * (time - time0) / (time1 - time0)`.
pub open spec fn moving_center(m: Moving_sphere, time: int) -> V3 {
    let dt = time - m.time0 as int;
    let span = m.time1 as int - m.time0 as int;
    V3 {
        x: m.center0.x as int + fxdiv(fxmul(dt, m.center1.x as int - m.center0.x as int), span),
        y: m.center0.y as int + fxdiv(fxmul(dt, m.center1.y as int - m.center0.y as int), span),
        z: m.center0.z as int + fxdiv(fxmul(dt, m.center1.z as int - m.center0.z as int), span),
    }
}

/// The accepted parameter of a moving-sphere intersection: the static
/// quadratic at the interpolated center, or no hit when the interpolated
/// center has left the tracer's range.
pub open spec fn moving_sphere_hit(m: Moving_sphere, r: Ray, t_min: int, t_max: int) -> Option<
    int,
> {
    let c = moving_center(m, r.time as int);
    if v3_bounded(c, POS_LIM as int) {
        sphere_hit(c, m.radius as int, r, t_min, t_max)
    } else {
        None
    }
}

impl Moving_sphere {
    pub fn new(
        cen0: Point3,
        cen1: Point3,
        _time0: i64,
        _time1: i64,
        r: i64,
        m: Material,
    ) -> (s: Moving_sphere)
        ensures
            s == (Moving_sphere {
                center0: cen0,
                center1: cen1,
                time0: _time0,
                time1: _time1,
                radius: r,
                mat_ptr: m,
            }),
    {
        Moving_sphere { center0: cen0, center1: cen1, time0: _time0, time1: _time1, radius: r, mat_ptr: m }
    }

    /// The degenerate placeholder: zeroed geometry and a black diffuse
    /// material.
    pub fn default_new() -> (s: Moving_sphere)
        ensures
            s.center0 == (Vec3 { x: 0, y: 0, z: 0 }),
            s.center1 == (Vec3 { x: 0, y: 0, z: 0 }),
            s.time0 == 0,
            s.time1 == 0,
            s.radius == 0,
    {
        Moving_sphere {
            center0: Vec3 { x: 0, y: 0, z: 0 },
            center1: Vec3 { x: 0, y: 0, z: 0 },
            time0: 0,
            time1: 0,
            radius: 0,
            mat_ptr: Material::Lambertian(
                crate::material::Lambertian::new(Vec3 { x: 0, y: 0, z: 0 }),
            ),
        }
    }

    /// The interpolated center at the given time.
    pub fn center(&self, time: i64) -> (c: Point3)
        requires
            moving_sphere_wf(*self),
            -T_INF <= time <= T_INF,
        ensures
            v3(c) == moving_center(*self, time as int),
    {
        let dt = time - self.time0;
        let span = self.time1 - self.time0;
        proof {
            lemma_fxmul_bound(
                dt as int,
                self.center1.x as int - self.center0.x as int,
                0x200_0000_0000,
                0x2000_0000,
            );
            lemma_fxmul_bound(
                dt as int,
                self.center1.y as int - self.center0.y as int,
                0x200_0000_0000,
                0x2000_0000,
            );
            lemma_fxmul_bound(
                dt as int,
                self.center1.z as int - self.center0.z as int,
                0x200_0000_0000,
                0x2000_0000,
            );
            lemma_tdiv_ratio(
                fxmul(dt as int, self.center1.x as int - self.center0.x as int) * 0x10000,
                span as int,
                0x1000_0000_0000_0000,
            );
            lemma_tdiv_ratio(
                fxmul(dt as int, self.center1.y as int - self.center0.y as int) * 0x10000,
                span as int,
                0x1000_0000_0000_0000,
            );
            lemma_tdiv_ratio(
                fxmul(dt as int, self.center1.z as int - self.center0.z as int) * 0x10000,
                span as int,
                0x1000_0000_0000_0000,
            );
        }
        let ox = div_fx(mul_fx(dt, self.center1.x - self.center0.x), span);
        let oy = div_fx(mul_fx(dt, self.center1.y - self.center0.y), span);
        let oz = div_fx(mul_fx(dt, self.center1.z - self.center0.z), span);
        Vec3 { x: self.center0.x + ox, y: self.center0.y + oy, z: self.center0.z + oz }
    }

    /// The closest moving-sphere intersection in `(t_min, t_max)`.
    pub fn hit(&self, r: &Ray, t_min: i64, t_max: i64) -> (res: Option<HitRecord>)
        requires
            ray_wf(*r),
            moving_sphere_wf(*self),
            -T_INF <= t_min <= T_INF,
            -T_INF <= t_max <= T_INF,
        ensures
            match res {
                Some(rec) => {
                    &&& moving_sphere_hit(*self, *r, t_min as int, t_max as int) == Some(
                        rec.t as int,
                    )
                    &&& t_min < rec.t < t_max
                    &&& v3(rec.p) == ray_at(*r, rec.t as int)
                    &&& rec.front_face == (crate::vec3::v3_dot(
                        v3(r.direction),
                        crate::hittable::sphere_outward(
                            moving_center(*self, r.time as int),
                            self.radius as int,
                            ray_at(*r, rec.t as int),
                        ),
                    ) < 0)
                    &&& v3(rec.normal) == (if rec.front_face {
                        crate::hittable::sphere_outward(
                            moving_center(*self, r.time as int),
                            self.radius as int,
                            ray_at(*r, rec.t as int),
                        )
                    } else {
                        crate::vec3::v3_neg(
                            crate::hittable::sphere_outward(
                                moving_center(*self, r.time as int),
                                self.radius as int,
                                ray_at(*r, rec.t as int),
                            ),
                        )
                    })
                    &&& crate::vec3::v3_dot(v3(r.direction), v3(rec.normal)) <= 0
                    &&& rec.mat_ptr == self.mat_ptr
                    &&& hitrec_wf(rec)
                },
                None => moving_sphere_hit(*self, *r, t_min as int, t_max as int) is None,
            },
    {
        let c = self.center(r.time);
        if !(-POS_LIM <= c.x && c.x <= POS_LIM && -POS_LIM <= c.y && c.y <= POS_LIM && -POS_LIM
            <= c.z && c.z <= POS_LIM) {
            return None;
        }
        sphere_hit_impl(c, self.radius, &self.mat_ptr, r, t_min, t_max)
    }
}

} // verus!
