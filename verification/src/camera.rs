//! The camera: turns normalized image-plane coordinates and a lens sample
//! into a ray, modeling field of view, aspect ratio, depth of field and a
//! shutter interval.

use vstd::prelude::*;
use crate::fixed::{SCALE, fxmul, mul_fx, lemma_fxmul_bound, lemma_tdiv_nonneg};
use crate::vec3::{Vec3, Point3, v3, V3, v3_add, v3_sub, v3_scale, v3_cross, v3_unit, v3_dot, v3_bounded};
use crate::ray::{Ray, T_INF};
use crate::sampler::{random_fraction, random_in_unit_disk};

verus! {

/// A camera fixed for the duration of a render.
#[derive(Clone, Copy, PartialEq, Eq, Structural, Debug)]
pub struct Camera {
    pub origin: Point3,
    pub lower_left_corner: Point3,
    pub horizontal: Vec3,
    pub vertical: Vec3,
    pub u: Vec3,
    pub v: Vec3,
    pub w: Vec3,
    pub lens_radius: i64,
    pub time0: i64,
    pub time1: i64,
}

/// The ranges `get_ray` needs of a camera's fields.
pub open spec fn camera_wf(c: Camera) -> bool {
    &&& v3_bounded(v3(c.origin), 0x100_0000)
    &&& v3_bounded(v3(c.lower_left_corner), 0x20_0000_0000)
    &&& v3_bounded(v3(c.horizontal), 0x10_0000_0000)
    &&& v3_bounded(v3(c.vertical), 0x10_0000_0000)
    &&& v3_bounded(v3(c.u), 0x8_0000)
    &&& v3_bounded(v3(c.v), 0x8_0000)
    &&& v3_bounded(v3(c.w), 0x8_0000)
    &&& 0 <= c.lens_radius <= 0x10_0000
    &&& -T_INF <= c.time0 <= c.time1 <= T_INF
}

/// The ray for image-plane coordinates `(s, t)` once the lens offset and
/// shutter time are fixed.
pub open spec fn camera_ray(c: Camera, s: int, t: int, disk: Vec3, tfrac: int) -> Ray {
    let rd = v3_scale(c.lens_radius as int, v3(disk));
    let offset = v3_add(v3_scale(rd.x, v3(c.u)), v3_scale(rd.y, v3(c.v)));
    Ray {
        origin: Vec3 {
            x: (v3(c.origin).x + offset.x) as i64,
            y: (v3(c.origin).y + offset.y) as i64,
            z: (v3(c.origin).z + offset.z) as i64,
        },
        direction: {
            let d = v3_sub(
                v3_sub(
                    v3_add(
                        v3_add(v3(c.lower_left_corner), v3_scale(s, v3(c.horizontal))),
                        v3_scale(t, v3(c.vertical)),
                    ),
                    v3(c.origin),
                ),
                offset,
            );
            Vec3 { x: d.x as i64, y: d.y as i64, z: d.z as i64 }
        },
        time: (c.time0 as int + fxmul(tfrac, c.time1 as int - c.time0 as int)) as i64,
    }
}

impl Camera {
    /// Builds a camera from look-from/look-at/up, the tangent of half the
    /// vertical field of view, the aspect ratio, the aperture, the focus
    /// distance, and the shutter interval.
    pub fn new(
        lookfrom: Point3,
        lookat: Point3,
        vup: Vec3,
        half_tan_vfov: i64,
        aspect_ratio: i64,
        aperture: i64,
        focus_dist: i64,
        time0: i64,
        time1: i64,
    ) -> (c: Camera)
        requires
            v3_bounded(v3(lookfrom), 0x100_0000),
            v3_bounded(v3(lookat), 0x100_0000),
            v3_bounded(v3(vup), 2 * SCALE as int),
            v3_dot(v3_sub(v3(lookfrom), v3(lookat)), v3_sub(v3(lookfrom), v3(lookat))) >= 1,
            v3_bounded(v3_unit(v3_sub(v3(lookfrom), v3(lookat))), 2 * SCALE as int),
            v3_dot(
                v3_cross(v3(vup), v3_unit(v3_sub(v3(lookfrom), v3(lookat)))),
                v3_cross(v3(vup), v3_unit(v3_sub(v3(lookfrom), v3(lookat)))),
            ) >= 1,
            v3_bounded(
                v3_unit(v3_cross(v3(vup), v3_unit(v3_sub(v3(lookfrom), v3(lookat))))),
                2 * SCALE as int,
            ),
            1 <= half_tan_vfov <= 0x10_0000,
            1 <= aspect_ratio <= 0x10_0000,
            0 <= aperture <= 0x10_0000,
            1 <= focus_dist <= 0x100_0000,
            -T_INF <= time0 <= time1 <= T_INF,
        ensures
            camera_wf(c),
            c.origin == lookfrom,
            c.time0 == time0,
            c.time1 == time1,
            c.lens_radius as int == aperture as int / 2,
            v3(c.w) == v3_unit(v3_sub(v3(lookfrom), v3(lookat))),
            v3(c.u) == v3_unit(v3_cross(v3(vup), v3(c.w))),
            v3(c.v) == v3_cross(v3(c.w), v3(c.u)),
            v3(c.horizontal) == v3_scale(
                fxmul(fxmul(aspect_ratio as int, 2 * half_tan_vfov as int), focus_dist as int),
                v3(c.u),
            ),
            v3(c.vertical) == v3_scale(
                fxmul(2 * half_tan_vfov as int, focus_dist as int),
                v3(c.v),
            ),
            v3(c.lower_left_corner) == v3_sub(
                v3_sub(
                    v3_sub(v3(lookfrom), v3_scale(32768, v3(c.horizontal))),
                    v3_scale(32768, v3(c.vertical)),
                ),
                v3_scale(focus_dist as int, v3(c.w)),
            ),
    {
        let viewport_height: i64 = 2 * half_tan_vfov;
        proof {
            assert((0x10_0000int * 0x20_0000) / SCALE as int == 0x200_0000) by (nonlinear_arith);
            lemma_fxmul_bound(aspect_ratio as int, viewport_height as int, 0x10_0000, 0x20_0000);
        }
        let viewport_width: i64 = mul_fx(aspect_ratio, viewport_height);
        let dirv = lookfrom.sub(lookat);
        let w = dirv.unit();
        let cu = Vec3::cross(vup, w);
        proof {
            lemma_fxmul_bound(vup.y as int, w.z as int, 2 * SCALE as int, 2 * SCALE as int);
            lemma_fxmul_bound(vup.z as int, w.y as int, 2 * SCALE as int, 2 * SCALE as int);
            lemma_fxmul_bound(vup.z as int, w.x as int, 2 * SCALE as int, 2 * SCALE as int);
            lemma_fxmul_bound(vup.x as int, w.z as int, 2 * SCALE as int, 2 * SCALE as int);
            lemma_fxmul_bound(vup.x as int, w.y as int, 2 * SCALE as int, 2 * SCALE as int);
            lemma_fxmul_bound(vup.y as int, w.x as int, 2 * SCALE as int, 2 * SCALE as int);
        }
        proof {
            assert(((2 * SCALE as int) * (2 * SCALE as int)) / SCALE as int == 262144)
                by (nonlinear_arith);
        }
        let u = cu.unit();
        let v = Vec3::cross(w, u);
        proof {
            assert(((2 * SCALE as int) * (2 * SCALE as int)) / SCALE as int == 262144)
                by (nonlinear_arith);
            lemma_fxmul_bound(w.y as int, u.z as int, 2 * SCALE as int, 2 * SCALE as int);
            lemma_fxmul_bound(w.z as int, u.y as int, 2 * SCALE as int, 2 * SCALE as int);
            lemma_fxmul_bound(w.z as int, u.x as int, 2 * SCALE as int, 2 * SCALE as int);
            lemma_fxmul_bound(w.x as int, u.z as int, 2 * SCALE as int, 2 * SCALE as int);
            lemma_fxmul_bound(w.x as int, u.y as int, 2 * SCALE as int, 2 * SCALE as int);
            lemma_fxmul_bound(w.y as int, u.x as int, 2 * SCALE as int, 2 * SCALE as int);
        }
        proof {
            assert((0x200_0000int * 0x100_0000) / SCALE as int == 0x2_0000_0000)
                by (nonlinear_arith);
            assert((0x20_0000int * 0x100_0000) / SCALE as int == 0x2000_0000) by (nonlinear_arith);
            lemma_fxmul_bound(viewport_width as int, focus_dist as int, 0x200_0000, 0x100_0000);
            lemma_fxmul_bound(viewport_height as int, focus_dist as int, 0x20_0000, 0x100_0000);
        }
        let hscale = mul_fx(viewport_width, focus_dist);
        let vscale = mul_fx(viewport_height, focus_dist);
        proof {
            assert((0x2_0000_0000int * 0x8_0000) / SCALE as int == 0x10_0000_0000)
                by (nonlinear_arith);
            lemma_fxmul_bound(hscale as int, u.x as int, 0x2_0000_0000, 0x8_0000);
            lemma_fxmul_bound(hscale as int, u.y as int, 0x2_0000_0000, 0x8_0000);
            lemma_fxmul_bound(hscale as int, u.z as int, 0x2_0000_0000, 0x8_0000);
            lemma_fxmul_bound(vscale as int, v.x as int, 0x2_0000_0000, 0x8_0000);
            lemma_fxmul_bound(vscale as int, v.y as int, 0x2_0000_0000, 0x8_0000);
            lemma_fxmul_bound(vscale as int, v.z as int, 0x2_0000_0000, 0x8_0000);
        }
        let horizontal = u.scale(hscale);
        let vertical = v.scale(vscale);
        proof {
            assert((32768int * 0x10_0000_0000) / SCALE as int == 0x8_0000_0000)
                by (nonlinear_arith);
            assert((0x100_0000int * 0x8_0000) / SCALE as int == 0x800_0000) by (nonlinear_arith);
            lemma_fxmul_bound(32768, horizontal.x as int, 32768, 0x10_0000_0000);
            lemma_fxmul_bound(32768, horizontal.y as int, 32768, 0x10_0000_0000);
            lemma_fxmul_bound(32768, horizontal.z as int, 32768, 0x10_0000_0000);
            lemma_fxmul_bound(32768, vertical.x as int, 32768, 0x10_0000_0000);
            lemma_fxmul_bound(32768, vertical.y as int, 32768, 0x10_0000_0000);
            lemma_fxmul_bound(32768, vertical.z as int, 32768, 0x10_0000_0000);
            lemma_fxmul_bound(focus_dist as int, w.x as int, 0x100_0000, 0x8_0000);
            lemma_fxmul_bound(focus_dist as int, w.y as int, 0x100_0000, 0x8_0000);
            lemma_fxmul_bound(focus_dist as int, w.z as int, 0x100_0000, 0x8_0000);
        }
        let half_h = horizontal.scale(32768);
        let half_v = vertical.scale(32768);
        let wf = w.scale(focus_dist);
        let lower_left_corner = lookfrom.sub(half_h).sub(half_v).sub(wf);
        let lens_radius = ((aperture as u64) / 2) as i64;
        Camera {
            origin: lookfrom,
            lower_left_corner,
            horizontal,
            vertical,
            u,
            v,
            w,
            lens_radius,
            time0,
            time1,
        }
    }

    /// The ray for image-plane coordinates `(s, t)`, its lens offset and
    /// shutter time already drawn.
    pub fn get_ray_with(&self, s: i64, t: i64, disk: Vec3, tfrac: i64) -> (r: Ray)
        requires
            camera_wf(*self),
            0 <= s <= SCALE,
            0 <= t <= SCALE,
            v3_bounded(v3(disk), SCALE as int),
            0 <= tfrac < SCALE,
        ensures
            r == camera_ray(*self, s as int, t as int, disk, tfrac as int),
            self.time0 <= r.time <= self.time1,
    {
        proof {
            assert((0x10_0000int * 0x1_0000) / SCALE as int == 0x10_0000) by (nonlinear_arith);
            lemma_fxmul_bound(self.lens_radius as int, disk.x as int, 0x10_0000, SCALE as int);
            lemma_fxmul_bound(self.lens_radius as int, disk.y as int, 0x10_0000, SCALE as int);
            lemma_fxmul_bound(self.lens_radius as int, disk.z as int, 0x10_0000, SCALE as int);
        }
        let rd = disk.scale(self.lens_radius);
        proof {
            assert((0x10_0000int * 0x8_0000) / SCALE as int == 0x80_0000) by (nonlinear_arith);
            lemma_fxmul_bound(rd.x as int, self.u.x as int, 0x10_0000, 0x8_0000);
            lemma_fxmul_bound(rd.x as int, self.u.y as int, 0x10_0000, 0x8_0000);
            lemma_fxmul_bound(rd.x as int, self.u.z as int, 0x10_0000, 0x8_0000);
            lemma_fxmul_bound(rd.y as int, self.v.x as int, 0x10_0000, 0x8_0000);
            lemma_fxmul_bound(rd.y as int, self.v.y as int, 0x10_0000, 0x8_0000);
            lemma_fxmul_bound(rd.y as int, self.v.z as int, 0x10_0000, 0x8_0000);
        }
        let offset = self.u.scale(rd.x).add(self.v.scale(rd.y));
        proof {
            assert((0x1_0000int * 0x10_0000_0000) / SCALE as int == 0x10_0000_0000)
                by (nonlinear_arith);
            assert((0x1_0000int * 0x200_0000_0000) / SCALE as int == 0x200_0000_0000)
                by (nonlinear_arith);
            lemma_fxmul_bound(s as int, self.horizontal.x as int, SCALE as int, 0x10_0000_0000);
            lemma_fxmul_bound(s as int, self.horizontal.y as int, SCALE as int, 0x10_0000_0000);
            lemma_fxmul_bound(s as int, self.horizontal.z as int, SCALE as int, 0x10_0000_0000);
            lemma_fxmul_bound(t as int, self.vertical.x as int, SCALE as int, 0x10_0000_0000);
            lemma_fxmul_bound(t as int, self.vertical.y as int, SCALE as int, 0x10_0000_0000);
            lemma_fxmul_bound(t as int, self.vertical.z as int, SCALE as int, 0x10_0000_0000);
            lemma_fxmul_bound(
                tfrac as int,
                self.time1 as int - self.time0 as int,
                SCALE as int,
                0x200_0000_0000,
            );
            lemma_fxmul_unit_interval(tfrac as int, self.time1 as int - self.time0 as int);
        }
        let sh = self.horizontal.scale(s);
        let tv = self.vertical.scale(t);
        let direction = self.lower_left_corner.add(sh).add(tv).sub(self.origin).sub(offset);
        let time = self.time0 + mul_fx(tfrac, self.time1 - self.time0);
        Ray { origin: self.origin.add(offset), direction, time }
    }

    /// The ray for image-plane coordinates `(s, t)`: a fresh lens-disk
    /// sample and a fresh shutter time are drawn, and the ray's time lies in
    /// the shutter interval whatever was drawn.
    pub fn get_ray(&self, s: i64, t: i64) -> (r: Ray)
        requires
            camera_wf(*self),
            0 <= s <= SCALE,
            0 <= t <= SCALE,
        ensures
            self.time0 <= r.time <= self.time1,
            exists|disk: Vec3, tfrac: i64|
                #![auto]
                v3_bounded(v3(disk), SCALE as int) && 0 <= tfrac < SCALE && r == camera_ray(
                    *self,
                    s as int,
                    t as int,
                    disk,
                    tfrac as int,
                ),
    {
        let disk = random_in_unit_disk();
        let tfrac = random_fraction();
        self.get_ray_with(s, t, disk, tfrac)
    }
}

/// A fraction of a non-negative span stays within the span.
proof fn lemma_fxmul_unit_interval(f: int, span: int)
    requires
        0 <= f < SCALE as int,
        0 <= span,
    ensures
        0 <= fxmul(f, span) <= span,
{
    assert(0 <= f * span <= SCALE as int * span) by (nonlinear_arith)
        requires
            0 <= f < SCALE as int,
            0 <= span,
    ;
    lemma_tdiv_nonneg(f * span, SCALE as int);
    assert((SCALE as int * span) / SCALE as int == span) by (nonlinear_arith);
    if f * span > 0 {
        assert((f * span) / SCALE as int <= (SCALE as int * span) / SCALE as int)
            by (nonlinear_arith)
            requires
                0 <= f * span <= SCALE as int * span,
        ;
    }
}

} // verus!
