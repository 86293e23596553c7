//! Scattering models.
//!
//! Each material has a deterministic core that takes its random draws as
//! arguments and is pinned down exactly; `Material::scatter` makes the draws
//! and states what holds of every outcome.

use vstd::prelude::*;
use crate::fixed::{SCALE, fxmul, fxdiv, fxsqrt, mul_fx, div_fx, sqrt_fx};
use crate::fixed::{lemma_tdiv_nonneg, lemma_tdiv_ratio, lemma_tdiv_lower, lemma_fxmul_bound, lemma_sqrt_floor};
use crate::vec3::{Vec3, Color, v3, V3, v3_add, v3_neg, v3_scale, v3_reflect, v3_refract, v3_unit, v3_zero, v3_dot, v3_bounded, color_ok, lemma_v3_dot_bound, lemma_v3_dot_neg};
use crate::ray::{Ray, DIR_LIM, NORM_LIM};
use crate::texture::{Texture, texture_value, texture_wf};
use crate::hittable::{HitRecord, hitrec_wf};
use crate::sampler::{random_fraction, random_unit_vector, random_in_unit_sphere};

verus! {

/// A diffuse surface with a textured albedo.
#[derive(Clone, Copy, PartialEq, Eq, Structural, Debug)]
pub struct Lambertian {
    pub albedo: Texture,
}

impl Lambertian {
    pub fn new(a: Color) -> (l: Lambertian)
        ensures
            l.albedo == (Texture::SolidColor { color: a }),
    {
        Lambertian { albedo: Texture::SolidColor { color: a } }
    }

    pub fn new_by_pointer(a: Texture) -> (l: Lambertian)
        ensures
            l.albedo == a,
    {
        Lambertian { albedo: a }
    }

    /// The diffuse scatter law, given the sampled unit direction: scatter
    /// toward `normal + sample`, falling back to the normal when the sum
    /// vanishes. Always scatters.
    pub fn scatter_with(&self, r_in: &Ray, rec: &HitRecord, sample: Vec3) -> (res: (Color, Ray))
        requires
            hitrec_wf(*rec),
            v3_bounded(v3(sample), 2 * SCALE as int),
        ensures
            res.0 == texture_value(self.albedo, rec.u as int, rec.v as int, rec.p),
            res.1.origin == rec.p,
            res.1.time == r_in.time,
            v3(res.1.direction) == (if v3_add(v3(rec.normal), v3(sample)) == v3_zero() {
                v3(rec.normal)
            } else {
                v3_add(v3(rec.normal), v3(sample))
            }),
            v3_bounded(v3(res.1.direction), DIR_LIM as int),
            texture_wf(self.albedo) ==> color_ok(res.0),
    {
        let mut dir = rec.normal.add(sample);
        if dir.near_zero() {
            dir = rec.normal;
        }
        let att = self.albedo.value(rec.u, rec.v, &rec.p);
        (att, Ray { origin: rec.p, direction: dir, time: r_in.time })
    }
}

/// A reflective surface with color `albedo` and roughness `fuzz`.
#[derive(Clone, Copy, PartialEq, Eq, Structural, Debug)]
pub struct Metal {
    pub albedo: Color,
    pub fuzz: i64,
}

/// The metal scatter direction, given the sampled fuzz offset: the mirror
/// reflection of the normalized incoming direction, perturbed by
/// `fuzz * sample`. No direction when the normalized direction leaves the
/// tracer's range.
pub open spec fn metal_dir(m: Metal, r_in: Ray, rec: HitRecord, sample: Vec3) -> Option<V3> {
    let u = v3_unit(v3(r_in.direction));
    if !v3_bounded(u, 2 * SCALE as int) {
        None
    } else {
        Some(v3_add(v3_reflect(u, v3(rec.normal)), v3_scale(m.fuzz as int, v3(sample))))
    }
}

impl Metal {
    /// Builds a metal, clamping the fuzz factor into `[0, 1]`.
    pub fn new(a: Color, f: i64) -> (m: Metal)
        ensures
            m.albedo == a,
            m.fuzz as int == (if f > SCALE {
                SCALE as int
            } else if f < 0 {
                0int
            } else {
                f as int
            }),
    {
        let f1 = if f > SCALE {
            SCALE
        } else if f < 0 {
            0
        } else {
            f
        };
        Metal { albedo: a, fuzz: f1 }
    }

    /// The metal scatter law, given the fuzz sample: reflects, then accepts
    /// only a direction that still points away from the surface; otherwise
    /// the ray is absorbed.
    pub fn scatter_with(&self, r_in: &Ray, rec: &HitRecord, sample: Vec3) -> (res: Option<
        (Color, Ray),
    >)
        requires
            hitrec_wf(*rec),
            v3_bounded(v3(r_in.direction), DIR_LIM as int),
            v3_dot(v3(r_in.direction), v3(r_in.direction)) >= 1,
            v3_bounded(v3(sample), SCALE as int),
            0 <= self.fuzz <= SCALE,
        ensures
            (match res {
                Some(t2) => {
                    &&& metal_dir(*self, *r_in, *rec, sample) == Some(v3(t2.1.direction))
                    &&& v3_dot(v3(t2.1.direction), v3(rec.normal)) > 0
                    &&& t2.0 == self.albedo
                    &&& t2.1.origin == rec.p
                    &&& t2.1.time == r_in.time
                },
                None => metal_dir(*self, *r_in, *rec, sample) is None || v3_dot(
                    metal_dir(*self, *r_in, *rec, sample)->Some_0,
                    v3(rec.normal),
                ) <= 0,
            }),
    {
        let u = r_in.direction.unit();
        if !(-2 * SCALE <= u.x && u.x <= 2 * SCALE && -2 * SCALE <= u.y && u.y <= 2 * SCALE && -2
            * SCALE <= u.z && u.z <= 2 * SCALE) {
            return None;
        }
        proof {
            lemma_v3_dot_bound(v3(u), v3(rec.normal), 2 * SCALE as int);
            lemma_fxmul_bound(
                2 * v3_dot(v3(u), v3(rec.normal)),
                rec.normal.x as int,
                0x18_0000,
                NORM_LIM as int,
            );
            lemma_fxmul_bound(
                2 * v3_dot(v3(u), v3(rec.normal)),
                rec.normal.y as int,
                0x18_0000,
                NORM_LIM as int,
            );
            lemma_fxmul_bound(
                2 * v3_dot(v3(u), v3(rec.normal)),
                rec.normal.z as int,
                0x18_0000,
                NORM_LIM as int,
            );
            lemma_fxmul_bound(self.fuzz as int, sample.x as int, SCALE as int, SCALE as int);
            lemma_fxmul_bound(self.fuzz as int, sample.y as int, SCALE as int, SCALE as int);
            lemma_fxmul_bound(self.fuzz as int, sample.z as int, SCALE as int, SCALE as int);
        }
        let reflected = Vec3::reflect(u, rec.normal);
        let fz = sample.scale(self.fuzz);
        let dir = reflected.add(fz);
        proof {
            lemma_v3_dot_bound(v3(dir), v3(rec.normal), 0x40_0000);
        }
        let d = Vec3::dot(dir, rec.normal);
        if d > 0 {
            Some((self.albedo, Ray { origin: rec.p, direction: dir, time: r_in.time }))
        } else {
            None
        }
    }
}

/// A transparent dielectric with index of refraction `ir`.
#[derive(Clone, Copy, PartialEq, Eq, Structural, Debug)]
pub struct Dielectric {
    pub ir: i64,
}

/// Schlick's reflectance approximation over fixed-point scalars.
pub open spec fn reflectance_s(cosine: int, ref_idx: int) -> int {
    let r0 = fxdiv(SCALE as int - ref_idx, SCALE as int + ref_idx);
    let r0s = fxmul(r0, r0);
    let b = SCALE as int - cosine;
    let b2 = fxmul(b, b);
    r0s + fxmul(SCALE as int - r0s, fxmul(fxmul(b2, b2), b))
}

/// The refraction ratio: `1/ir` entering the surface, `ir` leaving it.
pub open spec fn dielectric_ratio(d: Dielectric, front_face: bool) -> int {
    if front_face {
        fxdiv(SCALE as int, d.ir as int)
    } else {
        d.ir as int
    }
}

/// The cosine of the incidence angle, clamped into `[-1, 1]`.
pub open spec fn dielectric_cos(r_in: Ray, rec: HitRecord) -> int {
    let u = v3_unit(v3(r_in.direction));
    let c = v3_dot(v3_neg(u), v3(rec.normal));
    if c > SCALE as int {
        SCALE as int
    } else if c < -(SCALE as int) {
        -(SCALE as int)
    } else {
        c
    }
}

/// The sine of the incidence angle, from the clamped cosine.
pub open spec fn dielectric_sin(r_in: Ray, rec: HitRecord) -> int {
    let cs = dielectric_cos(r_in, rec);
    let k = SCALE as int - fxmul(cs, cs);
    fxsqrt(
        if k < 0 {
            0
        } else {
            k
        },
    )
}

/// Total internal reflection: Snell's law has no solution when the ratio
/// times the sine exceeds one.
pub open spec fn dielectric_cannot_refract(d: Dielectric, r_in: Ray, rec: HitRecord) -> bool {
    fxmul(dielectric_ratio(d, rec.front_face), dielectric_sin(r_in, rec)) > SCALE as int
}

/// The dielectric scatter direction for a given reflectance draw: forced
/// mirror reflection under total internal reflection, else a stochastic
/// choice between reflection and Snell refraction.
pub open spec fn dielectric_dir(d: Dielectric, r_in: Ray, rec: HitRecord, draw: int) -> V3 {
    let u = v3_unit(v3(r_in.direction));
    if !v3_bounded(u, 2 * SCALE as int) {
        v3_reflect(v3(r_in.direction), v3(rec.normal))
    } else if dielectric_cannot_refract(d, r_in, rec) || reflectance_s(
        dielectric_cos(r_in, rec),
        dielectric_ratio(d, rec.front_face),
    ) > draw {
        v3_reflect(u, v3(rec.normal))
    } else {
        v3_refract(u, v3(rec.normal), dielectric_ratio(d, rec.front_face))
    }
}

/// Under total internal reflection the scattered direction is the mirror
/// reflection, whatever the random draw.
pub proof fn lemma_total_internal_reflection(d: Dielectric, r_in: Ray, rec: HitRecord, draw: int)
    requires
        v3_bounded(v3_unit(v3(r_in.direction)), 2 * SCALE as int),
        dielectric_cannot_refract(d, r_in, rec),
    ensures
        dielectric_dir(d, r_in, rec, draw) == v3_reflect(
            v3_unit(v3(r_in.direction)),
            v3(rec.normal),
        ),
{
}

impl Dielectric {
    pub fn new(i: i64) -> (d: Dielectric)
        ensures
            d.ir == i,
    {
        Dielectric { ir: i }
    }

    /// Schlick's reflectance approximation.
    pub fn reflectance(cosine: i64, ref_idx: i64) -> (r: i64)
        requires
            1 <= ref_idx <= 0x1000_0000,
            -SCALE <= cosine <= SCALE,
        ensures
            r as int == reflectance_s(cosine as int, ref_idx as int),
    {
        proof {
            assert(-((SCALE as int) * (SCALE as int + ref_idx as int)) <= (SCALE as int - ref_idx
                as int) * SCALE as int <= (SCALE as int) * (SCALE as int + ref_idx as int))
                by (nonlinear_arith)
                requires
                    1 <= ref_idx as int,
            ;
            lemma_tdiv_ratio(
                (SCALE as int - ref_idx as int) * SCALE as int,
                SCALE as int + ref_idx as int,
                SCALE as int,
            );
        }
        let r0 = div_fx(SCALE - ref_idx, SCALE + ref_idx);
        proof {
            lemma_fxmul_bound(r0 as int, r0 as int, SCALE as int, SCALE as int);
            assert(r0 as int * r0 as int >= 0) by (nonlinear_arith);
            lemma_tdiv_nonneg(r0 as int * r0 as int, SCALE as int);
        }
        let r0s = mul_fx(r0, r0);
        let base = SCALE - cosine;
        proof {
            lemma_fxmul_bound(base as int, base as int, 2 * SCALE as int, 2 * SCALE as int);
        }
        let b2 = mul_fx(base, base);
        proof {
            lemma_fxmul_bound(b2 as int, b2 as int, 4 * SCALE as int, 4 * SCALE as int);
        }
        let b4 = mul_fx(b2, b2);
        proof {
            lemma_fxmul_bound(b4 as int, base as int, 16 * SCALE as int, 2 * SCALE as int);
        }
        let b5 = mul_fx(b4, base);
        proof {
            lemma_fxmul_bound(SCALE as int - r0s as int, b5 as int, SCALE as int, 32 * SCALE as int);
        }
        let tail = mul_fx(SCALE - r0s, b5);
        r0s + tail
    }

    /// The dielectric scatter law, given the reflectance draw. Always
    /// scatters; attenuation is the unit color.
    pub fn scatter_with(&self, r_in: &Ray, rec: &HitRecord, draw: i64) -> (res: (Color, Ray))
        requires
            hitrec_wf(*rec),
            v3_bounded(v3(r_in.direction), DIR_LIM as int),
            v3_dot(v3(r_in.direction), v3(r_in.direction)) >= 1,
            16 <= self.ir <= 0x10_0000,
            0 <= draw < SCALE,
        ensures
            res.0.x == SCALE && res.0.y == SCALE && res.0.z == SCALE,
            res.1.origin == rec.p,
            res.1.time == r_in.time,
            v3(res.1.direction) == dielectric_dir(*self, *r_in, *rec, draw as int),
    {
        let ratio = if rec.front_face {
            proof {
                lemma_tdiv_ratio((SCALE as int) * (SCALE as int), self.ir as int, 0x1000_0000);
                lemma_tdiv_lower((SCALE as int) * (SCALE as int), self.ir as int, 1);
            }
            div_fx(SCALE, self.ir)
        } else {
            self.ir
        };
        let u = r_in.direction.unit();
        if !(-2 * SCALE <= u.x && u.x <= 2 * SCALE && -2 * SCALE <= u.y && u.y <= 2 * SCALE && -2
            * SCALE <= u.z && u.z <= 2 * SCALE) {
            let dir = Vec3::reflect(r_in.direction, rec.normal);
            return (Vec3::ones(), Ray { origin: rec.p, direction: dir, time: r_in.time });
        }
        let nu = u.neg();
        proof {
            lemma_v3_dot_bound(v3(nu), v3(rec.normal), 2 * SCALE as int);
        }
        let c0 = Vec3::dot(nu, rec.normal);
        let cos_theta = if c0 > SCALE {
            SCALE
        } else if c0 < -SCALE {
            -SCALE
        } else {
            c0
        };
        proof {
            lemma_fxmul_bound(cos_theta as int, cos_theta as int, SCALE as int, SCALE as int);
            assert(cos_theta as int * cos_theta as int >= 0) by (nonlinear_arith);
            lemma_tdiv_nonneg(cos_theta as int * cos_theta as int, SCALE as int);
        }
        let cc = mul_fx(cos_theta, cos_theta);
        let k = if SCALE >= cc {
            SCALE - cc
        } else {
            0
        };
        let sin_theta = sqrt_fx(k);
        proof {
            lemma_sqrt_floor(((k as int) * SCALE as int) as nat);
            if sin_theta as int > 0x1_0000 {
                assert(sin_theta as int * sin_theta as int > 0x1_0000int * 0x1_0000)
                    by (nonlinear_arith)
                    requires
                        sin_theta as int > 0x1_0000,
                ;
            }
            lemma_fxmul_bound(ratio as int, sin_theta as int, 0x1000_0000, 0x1_0000);
        }
        let cannot_refract = mul_fx(ratio, sin_theta) > SCALE;
        let dir = if cannot_refract || Dielectric::reflectance(cos_theta, ratio) > draw {
            Vec3::reflect(u, rec.normal)
        } else {
            Vec3::refract(u, rec.normal, ratio)
        };
        (Vec3::ones(), Ray { origin: rec.p, direction: dir, time: r_in.time })
    }
}

/// The phase function of a participating medium: scatters uniformly in all
/// directions.
#[derive(Clone, Copy, PartialEq, Eq, Structural, Debug)]
pub struct Isotropic {
    pub albedo: Texture,
}

impl Isotropic {
    pub fn new_by_color(c: Color) -> (i: Isotropic)
        ensures
            i.albedo == (Texture::SolidColor { color: c }),
    {
        Isotropic { albedo: Texture::SolidColor { color: c } }
    }

    /// The isotropic scatter law, given the sampled direction. Always
    /// scatters.
    pub fn scatter_with(&self, r_in: &Ray, rec: &HitRecord, sample: Vec3) -> (res: (Color, Ray))
        ensures
            res.0 == texture_value(self.albedo, rec.u as int, rec.v as int, rec.p),
            res.1.origin == rec.p,
            res.1.time == r_in.time,
            res.1.direction == sample,
            texture_wf(self.albedo) ==> color_ok(res.0),
    {
        let att = self.albedo.value(rec.u, rec.v, &rec.p);
        (att, Ray { origin: rec.p, direction: sample, time: r_in.time })
    }
}

/// The closed set of scattering models.
#[derive(Clone, Copy, PartialEq, Eq, Structural, Debug)]
pub enum Material {
    Lambertian(Lambertian),
    Metal(Metal),
    Dielectric(Dielectric),
    Isotropic(Isotropic),
}

/// Well-formedness of a material: colors in range, fuzz in `[0, 1]`, and a
/// refractive index within the tracer's range.
pub open spec fn material_wf(m: Material) -> bool {
    match m {
        Material::Lambertian(l) => texture_wf(l.albedo),
        Material::Metal(mt) => color_ok(mt.albedo) && 0 <= mt.fuzz <= SCALE,
        Material::Dielectric(d) => 16 <= d.ir <= 0x10_0000,
        Material::Isotropic(i) => texture_wf(i.albedo),
    }
}

impl Material {
    /// Asks the material to scatter the incoming ray at a hit. `None` means
    /// the ray was absorbed; only a metal absorbs. The scattered ray starts
    /// at the hit point at the incoming ray's time, the attenuation is a
    /// well-formed color, a metal's outgoing ray points away from the
    /// surface, and total internal reflection in a dielectric forces the
    /// mirror reflection whatever was drawn.
    pub fn scatter(&self, r_in: &Ray, rec: &HitRecord) -> (res: Option<(Color, Ray)>)
        requires
            material_wf(*self),
            hitrec_wf(*rec),
            v3_bounded(v3(r_in.direction), DIR_LIM as int),
            v3_dot(v3(r_in.direction), v3(r_in.direction)) >= 1,
        ensures
            (match res {
                Some(t2) => color_ok(t2.0) && t2.1.origin == rec.p && t2.1.time == r_in.time,
                None => self matches Material::Metal(_),
            }),
            !(self matches Material::Metal(_)) ==> res is Some,
            self matches Material::Metal(_) ==> (res matches Some(t2) ==> v3_dot(
                v3(t2.1.direction),
                v3(rec.normal),
            ) > 0),
            (self matches Material::Dielectric(d) && v3_bounded(
                v3_unit(v3(r_in.direction)),
                2 * SCALE as int,
            ) && dielectric_cannot_refract(*d, *r_in, *rec)) ==> (res matches Some(t2) && v3(
                t2.1.direction,
            ) == v3_reflect(v3_unit(v3(r_in.direction)), v3(rec.normal))),
            (self matches Material::Metal(m) && m.fuzz == 0 && v3_bounded(
                v3_unit(v3(r_in.direction)),
                2 * SCALE as int,
            ) && v3_dot(
                v3_reflect(v3_unit(v3(r_in.direction)), v3(rec.normal)),
                v3(rec.normal),
            ) > 0) ==> res is Some,
            self matches Material::Lambertian(l) ==> (res matches Some(t2) ==> t2.0
                == texture_value(l.albedo, rec.u as int, rec.v as int, rec.p)),
            self matches Material::Metal(m) ==> (res matches Some(t2) ==> t2.0 == m.albedo),
            self matches Material::Dielectric(_) ==> (res matches Some(t2) ==> t2.0 == (Vec3 {
                x: SCALE,
                y: SCALE,
                z: SCALE,
            })),
            self matches Material::Isotropic(i) ==> (res matches Some(t2) ==> t2.0
                == texture_value(i.albedo, rec.u as int, rec.v as int, rec.p)),
    {
        match self {
            Material::Lambertian(l) => {
                let sample = random_unit_vector();
                let (att, sc) = l.scatter_with(r_in, rec, sample);
                Some((att, sc))
            },
            Material::Metal(m) => {
                let sample = random_in_unit_sphere();
                let res = m.scatter_with(r_in, rec, sample);
                proof {
                    if m.fuzz == 0 {
                        assert(v3_scale(0, v3(sample)) == v3_zero());
                    }
                }
                res
            },
            Material::Dielectric(d) => {
                let draw = random_fraction();
                let (att, sc) = d.scatter_with(r_in, rec, draw);
                proof {
                    if v3_bounded(v3_unit(v3(r_in.direction)), 2 * SCALE as int)
                        && dielectric_cannot_refract(*d, *r_in, *rec) {
                        lemma_total_internal_reflection(*d, *r_in, *rec, draw as int);
                    }
                }
                Some((att, sc))
            },
            Material::Isotropic(i) => {
                let sample = random_in_unit_sphere();
                let (att, sc) = i.scatter_with(r_in, rec, sample);
                Some((att, sc))
            },
        }
    }
}

} // verus!
