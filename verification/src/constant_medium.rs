//! A homogeneous participating medium inside a boundary surface.
//!
//! A ray entering the boundary scatters after an exponentially distributed
//! free path; the draw is an explicit argument of the deterministic core, so
//! the core is verified for every value the sampler can produce.

use vstd::prelude::*;
use crate::fixed::{SCALE, fxmul, fxdiv, mul_fx, div_fx, lemma_fxmul_bound, lemma_tdiv_mag, lemma_tdiv_nonneg, lemma_fxdiv_fxmul, lemma_sqrt_floor};
use crate::vec3::{Vec3, Color, v3, V3, v3_len, v3_dot, v3_bounded, lemma_v3_dot_bound, lemma_v3_dot_self_nonneg};
use crate::ray::{Ray, ray_at, ray_wf, DIR_LIM, T_INF};
use crate::material::{Material, Isotropic, material_wf};
use crate::hittable::{Hittable, HitRecord, hitrec_wf};
use crate::sampler::EXP_CAP;

verus! {

/// A constant-density medium: a boundary, an isotropic phase function, and
/// the reciprocal of the density.
pub struct ConstantMedium {
    pub boundary: Box<Hittable>,
    pub phase_function: Material,
    pub inv_density: i64,
}

/// The scatter parameter of a medium traversal: clip the boundary interval
/// `[t1, t2]` to `[t_min, t_max]`, clamp its start at zero, and scatter at
/// the sampled free path if it ends inside the interval.
pub open spec fn medium_hit_t(
    inv_density: int,
    ray_len: int,
    t_min: int,
    t_max: int,
    t1: int,
    t2: int,
    draw: int,
) -> Option<int> {
    let a = if t1 < t_min {
        t_min
    } else {
        t1
    };
    let b = if t2 > t_max {
        t_max
    } else {
        t2
    };
    if a >= b {
        None
    } else {
        let a0 = if a < 0 {
            0
        } else {
            a
        };
        if a0 >= b {
            None
        } else {
            let dist = fxmul(b - a0, ray_len);
            let hd = fxmul(inv_density, draw);
            if hd > dist {
                None
            } else {
                Some(a0 + fxdiv(hd, ray_len))
            }
        }
    }
}

/// Shrinking the free-path draw can only keep or create a scatter: every
/// rejection of `medium_hit_t` other than the free-path test is independent
/// of the draw, and the sampled distance grows with it.
pub proof fn lemma_medium_hit_monotone(
    inv: int,
    ray_len: int,
    t_min: int,
    t_max: int,
    t1: int,
    t2: int,
    draw: int,
    cap: int,
)
    requires
        0 <= inv,
        0 <= draw <= cap,
        medium_hit_t(inv, ray_len, t_min, t_max, t1, t2, cap) is Some,
    ensures
        medium_hit_t(inv, ray_len, t_min, t_max, t1, t2, draw) is Some,
{
    assert(0 <= inv * draw <= inv * cap) by (nonlinear_arith)
        requires
            0 <= inv,
            0 <= draw <= cap,
    ;
    lemma_tdiv_nonneg(inv * draw, SCALE as int);
    lemma_tdiv_nonneg(inv * cap, SCALE as int);
    if inv * draw > 0 {
        assert((inv * draw) / SCALE as int <= (inv * cap) / SCALE as int) by (nonlinear_arith)
            requires
                0 < inv * draw <= inv * cap,
        ;
    }
}

impl ConstantMedium {
    /// Builds a medium of the given density around a boundary, with an
    /// isotropic phase function of the given color.
    pub fn new_by_color(b: Box<Hittable>, d: i64, c: Color) -> (cm: ConstantMedium)
        requires
            1 <= d,
        ensures
            cm.boundary == b,
            cm.inv_density as int == fxdiv(SCALE as int, d as int),
            0 <= cm.inv_density <= 0x1_0000_0000,
            cm.phase_function == Material::Isotropic(
                Isotropic { albedo: crate::texture::Texture::SolidColor { color: c } },
            ),
    {
        proof {
            lemma_tdiv_nonneg((SCALE as int) * (SCALE as int), d as int);
        }
        let inv = div_fx(SCALE, d);
        ConstantMedium {
            boundary: b,
            phase_function: Material::Isotropic(Isotropic::new_by_color(c)),
            inv_density: inv,
        }
    }

    /// The medium traversal, given the boundary's entry and exit parameters
    /// and the exponential draw. Exact for every draw.
    pub fn hit_core(
        &self,
        r: &Ray,
        t_min: i64,
        t_max: i64,
        t1: i64,
        t2: i64,
        draw: i64,
    ) -> (res: Option<HitRecord>)
        requires
            ray_wf(*r),
            -T_INF <= t_min <= T_INF,
            -T_INF <= t_max <= T_INF,
            -T_INF <= t1 <= T_INF,
            -T_INF <= t2 <= T_INF,
            0 <= draw <= EXP_CAP,
            0 <= self.inv_density <= 0x1_0000_0000,
            material_wf(self.phase_function),
        ensures
            match res {
                Some(rec) => {
                    &&& medium_hit_t(
                        self.inv_density as int,
                        v3_len(v3(r.direction)),
                        t_min as int,
                        t_max as int,
                        t1 as int,
                        t2 as int,
                        draw as int,
                    ) == Some(rec.t as int)
                    &&& t_min <= rec.t <= t_max
                    &&& v3(rec.p) == ray_at(*r, rec.t as int)
                    &&& rec.mat_ptr == self.phase_function
                    &&& rec.front_face == true
                    &&& rec.normal == (Vec3 { x: SCALE, y: 0, z: 0 })
                    &&& hitrec_wf(rec)
                },
                None => medium_hit_t(
                    self.inv_density as int,
                    v3_len(v3(r.direction)),
                    t_min as int,
                    t_max as int,
                    t1 as int,
                    t2 as int,
                    draw as int,
                ) is None,
            },
    {
        let a = if t1 < t_min {
            t_min
        } else {
            t1
        };
        let b = if t2 > t_max {
            t_max
        } else {
            t2
        };
        if a >= b {
            return None;
        }
        let a0 = if a < 0 {
            0
        } else {
            a
        };
        if a0 >= b {
            return None;
        }
        proof {
            lemma_v3_dot_bound(v3(r.direction), v3(r.direction), DIR_LIM as int);
            lemma_v3_dot_self_nonneg(v3(r.direction));
        }
        let ray_length = r.direction.length();
        proof {
            let ls = v3_dot(v3(r.direction), v3(r.direction));
            lemma_sqrt_floor((ls * SCALE as int) as nat);
            if ray_length == 0 {
                assert((ray_length as int + 1) * (ray_length as int + 1) == 1) by (nonlinear_arith)
                    requires
                        ray_length as int == 0,
                ;
            }
            assert(ray_length >= 1);
            lemma_fxmul_bound(
                (b - a0) as int,
                ray_length as int,
                0x200_0000_0000,
                0x1_0000_0000,
            );
            lemma_fxmul_bound(self.inv_density as int, draw as int, 0x1_0000_0000, EXP_CAP as int);
            assert(self.inv_density as int * draw as int >= 0) by (nonlinear_arith)
                requires
                    self.inv_density as int >= 0,
                    draw as int >= 0,
            ;
            lemma_tdiv_nonneg(self.inv_density as int * draw as int, SCALE as int);
        }
        let distance_inside = mul_fx(b - a0, ray_length);
        let hit_distance = mul_fx(self.inv_density, draw);
        if hit_distance > distance_inside {
            return None;
        }
        proof {
            lemma_fxdiv_fxmul((b - a0) as int, ray_length as int, hit_distance as int);
            lemma_tdiv_mag(
                (hit_distance as int) * SCALE as int,
                ray_length as int,
                0x40_0000_0000_0000int * 0x10000,
            );
        }
        let t = a0 + div_fx(hit_distance, ray_length);
        proof {
            lemma_fxmul_bound(t as int, r.direction.x as int, T_INF as int, DIR_LIM as int);
            lemma_fxmul_bound(t as int, r.direction.y as int, T_INF as int, DIR_LIM as int);
            lemma_fxmul_bound(t as int, r.direction.z as int, T_INF as int, DIR_LIM as int);
        }
        let p = r.at(t);
        Some(
            HitRecord {
                p,
                normal: Vec3 { x: SCALE, y: 0, z: 0 },
                front_face: true,
                t,
                u: 0,
                v: 0,
                mat_ptr: self.phase_function,
            },
        )
    }
}

} // verus!
