//! Surfaces and intersections.
//!
//! `Hittable` is the closed set of surface variants; its `hit` method returns
//! the closest intersection whose parameter lies in the open interval
//! `(t_min, t_max)`. Deterministic variants are pinned down exactly by
//! `hittable_hit_spec`; the participating medium draws a random free path and
//! is specified by what holds of every draw.

use vstd::prelude::*;
use crate::fixed::{SCALE, fxmul, fxdiv, fxsqrt, mul_fx, div_fx, sqrt_fx};
use crate::fixed::{lemma_tdiv_mag, lemma_fxmul_bound};
use crate::vec3::{Vec3, Point3, v3, V3, v3_sub, v3_neg, v3_bounded, v3_dot, lemma_v3_dot_bound, lemma_v3_dot_neg};
use crate::ray::{Ray, ray_at, ray_wf, POS_LIM, DIR_LIM, NORM_LIM, T_INF, P_LIM};
use crate::material::{Material, material_wf};
use crate::moving_sphere::Moving_sphere;
use crate::constant_medium::ConstantMedium;
use crate::sampler::sample_unit_exponential;

verus! {

/// The result of a successful intersection.
#[derive(Clone, Copy, PartialEq, Eq, Structural, Debug)]
pub struct HitRecord {
    pub p: Point3,
    pub normal: Vec3,
    pub front_face: bool,
    pub t: i64,
    pub u: i64,
    pub v: i64,
    pub mat_ptr: Material,
}

/// A well-formed hit record: position and normal within range, material
/// well-formed.
pub open spec fn hitrec_wf(h: HitRecord) -> bool {
    &&& v3_bounded(v3(h.p), P_LIM as int)
    &&& v3_bounded(v3(h.normal), NORM_LIM as int)
    &&& material_wf(h.mat_ptr)
}

impl HitRecord {
    /// An empty record: zeroed fields and a black diffuse material.
    pub fn new() -> (r: HitRecord)
        ensures
            r.p == (Vec3 { x: 0, y: 0, z: 0 }),
            r.normal == (Vec3 { x: 0, y: 0, z: 0 }),
            r.front_face == false,
            r.t == 0,
            r.u == 0,
            r.v == 0,
            r.mat_ptr == Material::Lambertian(
                crate::material::Lambertian {
                    albedo: crate::texture::Texture::SolidColor {
                        color: Vec3 { x: 0, y: 0, z: 0 },
                    },
                },
            ),
            hitrec_wf(r),
    {
        HitRecord {
            p: Vec3 { x: 0, y: 0, z: 0 },
            normal: Vec3 { x: 0, y: 0, z: 0 },
            front_face: false,
            t: 0,
            u: 0,
            v: 0,
            mat_ptr: Material::Lambertian(
                crate::material::Lambertian::new(Vec3 { x: 0, y: 0, z: 0 }),
            ),
        }
    }

    /// Orients the stored normal against the incoming ray: the front-face
    /// rule. Afterwards the normal never points with the ray.
    pub fn set_face_normal(&mut self, r: &Ray, outward_normal: Vec3)
        requires
            v3_bounded(v3(r.direction), DIR_LIM as int),
            v3_bounded(v3(outward_normal), NORM_LIM as int),
        ensures
            final(self).front_face == (v3_dot(v3(r.direction), v3(outward_normal)) < 0),
            v3(final(self).normal) == (if v3_dot(v3(r.direction), v3(outward_normal)) < 0 {
                v3(outward_normal)
            } else {
                v3_neg(v3(outward_normal))
            }),
            v3_dot(v3(r.direction), v3(final(self).normal)) <= 0,
            v3_dot(v3(r.direction), v3(outward_normal)) != 0 ==> v3_dot(
                v3(r.direction),
                v3(final(self).normal),
            ) < 0,
            final(self).p == old(self).p,
            final(self).t == old(self).t,
            final(self).u == old(self).u,
            final(self).v == old(self).v,
            final(self).mat_ptr == old(self).mat_ptr,
            v3_bounded(v3(final(self).normal), NORM_LIM as int),
    {
        let d = Vec3::dot(r.direction, outward_normal);
        self.front_face = d < 0;
        if self.front_face {
            self.normal = outward_normal;
        } else {
            proof {
                lemma_v3_dot_neg(v3(r.direction), v3(outward_normal));
            }
            self.normal = outward_normal.neg();
        }
    }
}

/// A static sphere.
#[derive(Clone, Copy, PartialEq, Eq, Structural, Debug)]
pub struct Sphere {
    pub center: Point3,
    pub radius: i64,
    pub mat_ptr: Material,
}

/// A well-formed sphere: center in range, a positive radius, and a
/// well-formed material.
pub open spec fn sphere_wf(s: Sphere) -> bool {
    &&& v3_bounded(v3(s.center), POS_LIM as int)
    &&& 1 <= s.radius <= POS_LIM
    &&& material_wf(s.mat_ptr)
}

/// The discriminant of the sphere quadratic `|O + tD - C|^2 = r^2`, in
/// half-b form, over fixed-point arithmetic.
pub open spec fn sphere_disc(center: V3, radius: int, r: Ray) -> int {
    let oc = v3_sub(v3(r.origin), center);
    let a = v3_dot(v3(r.direction), v3(r.direction));
    let half_b = v3_dot(oc, v3(r.direction));
    let c = v3_dot(oc, oc) - fxmul(radius, radius);
    fxmul(half_b, half_b) - fxmul(a, c)
}

/// The smaller quadratic root.
pub open spec fn sphere_root1(center: V3, radius: int, r: Ray) -> int {
    let oc = v3_sub(v3(r.origin), center);
    let a = v3_dot(v3(r.direction), v3(r.direction));
    let half_b = v3_dot(oc, v3(r.direction));
    fxdiv(-half_b - fxsqrt(sphere_disc(center, radius, r)), a)
}

/// The larger quadratic root.
pub open spec fn sphere_root2(center: V3, radius: int, r: Ray) -> int {
    let oc = v3_sub(v3(r.origin), center);
    let a = v3_dot(v3(r.direction), v3(r.direction));
    let half_b = v3_dot(oc, v3(r.direction));
    fxdiv(-half_b + fxsqrt(sphere_disc(center, radius, r)), a)
}

/// The outward normal at `p`: `(p - center) / radius`.
pub open spec fn sphere_outward(center: V3, radius: int, p: V3) -> V3 {
    V3 {
        x: fxdiv(p.x - center.x, radius),
        y: fxdiv(p.y - center.y, radius),
        z: fxdiv(p.z - center.z, radius),
    }
}

/// Whether a root is accepted: parameter strictly inside `(t_min, t_max)`
/// and a hit point whose outward normal stays in range.
pub open spec fn sphere_root_ok(
    center: V3,
    radius: int,
    r: Ray,
    t_min: int,
    t_max: int,
    root: int,
) -> bool {
    &&& t_min < root < t_max
    &&& v3_bounded(v3_sub(ray_at(r, root), center), 0x4000_0000_0000)
    &&& v3_bounded(sphere_outward(center, radius, ray_at(r, root)), NORM_LIM as int)
}

/// The accepted parameter of a sphere intersection: the smaller root when it
/// qualifies, else the larger, else no hit.
pub open spec fn sphere_hit(center: V3, radius: int, r: Ray, t_min: int, t_max: int) -> Option<
    int,
> {
    if sphere_disc(center, radius, r) < 0 {
        None
    } else if sphere_root_ok(center, radius, r, t_min, t_max, sphere_root1(center, radius, r)) {
        Some(sphere_root1(center, radius, r))
    } else if sphere_root_ok(center, radius, r, t_min, t_max, sphere_root2(center, radius, r)) {
        Some(sphere_root2(center, radius, r))
    } else {
        None
    }
}

/// No hit outside the range: when neither quadratic root lies strictly
/// inside `(t_min, t_max)`, the sphere reports no hit, even though the ray
/// meets the sphere mathematically.
pub proof fn lemma_no_hit_outside_range(center: V3, radius: int, r: Ray, t_min: int, t_max: int)
    requires
        !(t_min < sphere_root1(center, radius, r) < t_max),
        !(t_min < sphere_root2(center, radius, r) < t_max),
    ensures
        sphere_hit(center, radius, r, t_min, t_max) is None,
{
}

/// Tries one root of the quadratic; shared by the static and moving spheres.
fn sphere_try_root(
    center: Point3,
    radius: i64,
    mat: &Material,
    r: &Ray,
    t_min: i64,
    t_max: i64,
    root: i64,
) -> (res: Option<HitRecord>)
    requires
        ray_wf(*r),
        v3_bounded(v3(center), POS_LIM as int),
        1 <= radius <= POS_LIM,
        -T_INF <= t_min <= T_INF,
        -T_INF <= t_max <= T_INF,
    ensures
        match res {
            Some(rec) => {
                &&& sphere_root_ok(v3(center), radius as int, *r, t_min as int, t_max as int, root as int)
                &&& rec.t == root
                &&& v3(rec.p) == ray_at(*r, root as int)
                &&& rec.front_face == (v3_dot(
                    v3(r.direction),
                    sphere_outward(v3(center), radius as int, ray_at(*r, root as int)),
                ) < 0)
                &&& v3(rec.normal) == (if rec.front_face {
                    sphere_outward(v3(center), radius as int, ray_at(*r, root as int))
                } else {
                    v3_neg(sphere_outward(v3(center), radius as int, ray_at(*r, root as int)))
                })
                &&& v3_dot(v3(r.direction), v3(rec.normal)) <= 0
                &&& rec.mat_ptr == *mat
                &&& v3_bounded(v3(rec.p), P_LIM as int)
                &&& v3_bounded(v3(rec.normal), NORM_LIM as int)
            },
            None => !sphere_root_ok(v3(center), radius as int, *r, t_min as int, t_max as int, root as int),
        },
{
    if !(t_min < root && root < t_max) {
        return None;
    }
    proof {
        lemma_fxmul_bound(root as int, r.direction.x as int, T_INF as int, DIR_LIM as int);
        lemma_fxmul_bound(root as int, r.direction.y as int, T_INF as int, DIR_LIM as int);
        lemma_fxmul_bound(root as int, r.direction.z as int, T_INF as int, DIR_LIM as int);
    }
    let p = r.at(root);
    let q = p.sub(center);
    if !(-0x4000_0000_0000 <= q.x && q.x <= 0x4000_0000_0000 && -0x4000_0000_0000 <= q.y && q.y
        <= 0x4000_0000_0000 && -0x4000_0000_0000 <= q.z && q.z <= 0x4000_0000_0000) {
        return None;
    }
    proof {
        lemma_tdiv_mag((q.x as int) * SCALE as int, radius as int, 0x4000_0000_0000int * 0x10000);
        lemma_tdiv_mag((q.y as int) * SCALE as int, radius as int, 0x4000_0000_0000int * 0x10000);
        lemma_tdiv_mag((q.z as int) * SCALE as int, radius as int, 0x4000_0000_0000int * 0x10000);
    }
    let outward = Vec3 {
        x: div_fx(q.x, radius),
        y: div_fx(q.y, radius),
        z: div_fx(q.z, radius),
    };
    if !(-NORM_LIM <= outward.x && outward.x <= NORM_LIM && -NORM_LIM <= outward.y && outward.y
        <= NORM_LIM && -NORM_LIM <= outward.z && outward.z <= NORM_LIM) {
        return None;
    }
    let mut rec = HitRecord {
        p,
        normal: Vec3 { x: 0, y: 0, z: 0 },
        front_face: false,
        t: root,
        u: 0,
        v: 0,
        mat_ptr: *mat,
    };
    rec.set_face_normal(r, outward);
    Some(rec)
}

impl Sphere {
    pub fn new(center: Point3, radius: i64, mat_ptr: Material) -> (s: Sphere)
        ensures
            s == (Sphere { center, radius, mat_ptr }),
    {
        Sphere { center, radius, mat_ptr }
    }

    /// The closest sphere intersection in `(t_min, t_max)`, with the
    /// front-face rule applied to the outward normal.
    pub fn hit(&self, r: &Ray, t_min: i64, t_max: i64) -> (res: Option<HitRecord>)
        requires
            ray_wf(*r),
            sphere_wf(*self),
            -T_INF <= t_min <= T_INF,
            -T_INF <= t_max <= T_INF,
        ensures
            match res {
                Some(rec) => {
                    &&& sphere_hit(v3(self.center), self.radius as int, *r, t_min as int, t_max as int)
                        == Some(rec.t as int)
                    &&& t_min < rec.t < t_max
                    &&& v3(rec.p) == ray_at(*r, rec.t as int)
                    &&& rec.front_face == (v3_dot(
                        v3(r.direction),
                        sphere_outward(v3(self.center), self.radius as int, ray_at(*r, rec.t as int)),
                    ) < 0)
                    &&& v3(rec.normal) == (if rec.front_face {
                        sphere_outward(v3(self.center), self.radius as int, ray_at(*r, rec.t as int))
                    } else {
                        v3_neg(sphere_outward(v3(self.center), self.radius as int, ray_at(*r, rec.t as int)))
                    })
                    &&& v3_dot(v3(r.direction), v3(rec.normal)) <= 0
                    &&& rec.mat_ptr == self.mat_ptr
                    &&& hitrec_wf(rec)
                },
                None => sphere_hit(v3(self.center), self.radius as int, *r, t_min as int, t_max as int)
                    is None,
            },
    {
        sphere_hit_impl(self.center, self.radius, &self.mat_ptr, r, t_min, t_max)
    }
}

/// The quadratic intersection shared by the static and moving spheres.
pub fn sphere_hit_impl(
    center: Point3,
    radius: i64,
    mat: &Material,
    r: &Ray,
    t_min: i64,
    t_max: i64,
) -> (res: Option<HitRecord>)
    requires
        ray_wf(*r),
        v3_bounded(v3(center), POS_LIM as int),
        1 <= radius <= POS_LIM,
        material_wf(*mat),
        -T_INF <= t_min <= T_INF,
        -T_INF <= t_max <= T_INF,
    ensures
        match res {
            Some(rec) => {
                &&& sphere_hit(v3(center), radius as int, *r, t_min as int, t_max as int) == Some(
                    rec.t as int,
                )
                &&& t_min < rec.t < t_max
                &&& v3(rec.p) == ray_at(*r, rec.t as int)
                &&& rec.front_face == (v3_dot(
                    v3(r.direction),
                    sphere_outward(v3(center), radius as int, ray_at(*r, rec.t as int)),
                ) < 0)
                &&& v3(rec.normal) == (if rec.front_face {
                    sphere_outward(v3(center), radius as int, ray_at(*r, rec.t as int))
                } else {
                    v3_neg(sphere_outward(v3(center), radius as int, ray_at(*r, rec.t as int)))
                })
                &&& v3_dot(v3(r.direction), v3(rec.normal)) <= 0
                &&& rec.mat_ptr == *mat
                &&& hitrec_wf(rec)
            },
            None => sphere_hit(v3(center), radius as int, *r, t_min as int, t_max as int) is None,
        },
{
    let oc = r.origin.sub(center);
    let a = Vec3::dot(r.direction, r.direction);
    proof {
        lemma_v3_dot_bound(v3(r.direction), v3(r.direction), DIR_LIM as int);
        crate::vec3::lemma_v3_dot_bound2(v3(oc), v3(r.direction), 0x2000_0000, 0x40_0000);
        lemma_v3_dot_bound(v3(oc), v3(oc), 0x2000_0000);
        lemma_fxmul_bound(radius as int, radius as int, POS_LIM as int, POS_LIM as int);
    }
    let half_b = Vec3::dot(oc, r.direction);
    let c2 = oc.squared_length() - mul_fx(radius, radius);
    proof {
        lemma_fxmul_bound(half_b as int, half_b as int, 0x18_0000_0000, 0x18_0000_0000);
        lemma_fxmul_bound(a as int, c2 as int, 0x3000_0000, 0x1_0000_0000_0000);
    }
    let disc = mul_fx(half_b, half_b) - mul_fx(a, c2);
    if disc < 0 {
        return None;
    }
    let sqrtd = sqrt_fx(disc);
    proof {
        crate::fixed::lemma_sqrt_floor(((disc as int) * SCALE as int) as nat);
        if sqrtd as int > 0x80_0000_0000 {
            assert(sqrtd as int * sqrtd as int > 0x80_0000_0000int * 0x80_0000_0000)
                by (nonlinear_arith)
                requires
                    sqrtd as int > 0x80_0000_0000,
            ;
        }
        lemma_tdiv_mag(
            (-half_b - sqrtd) as int * SCALE as int,
            a as int,
            0x100_0000_0000int * 0x10000,
        );
        lemma_tdiv_mag(
            (-half_b + sqrtd) as int * SCALE as int,
            a as int,
            0x100_0000_0000int * 0x10000,
        );
    }
    let root1 = div_fx(-half_b - sqrtd, a);
    let r1 = sphere_try_root(center, radius, mat, r, t_min, t_max, root1);
    if r1.is_some() {
        return r1;
    }
    let root2 = div_fx(-half_b + sqrtd, a);
    let r2 = sphere_try_root(center, radius, mat, r, t_min, t_max, root2);
    r2
}

/// The closed set of surface variants.
pub enum Hittable {
    Sphere(Sphere),
    Moving(Moving_sphere),
    Medium(ConstantMedium),
}

/// Well-formedness of a surface, down through a medium's boundary.
pub open spec fn hittable_wf(h: Hittable) -> bool
    decreases h,
{
    match h {
        Hittable::Sphere(s) => sphere_wf(s),
        Hittable::Moving(m) => crate::moving_sphere::moving_sphere_wf(m),
        Hittable::Medium(cm) => {
            &&& hittable_wf(*cm.boundary)
            &&& 0 <= cm.inv_density <= 0x1_0000_0000
            &&& material_wf(cm.phase_function)
        },
    }
}

/// Whether a surface intersects deterministically: everything but the
/// participating medium, which draws a random free path.
pub open spec fn hittable_det(h: Hittable) -> bool {
    !(h matches Hittable::Medium(_))
}

/// Where the search for a medium boundary's exit resumes: just past the
/// entry, capped at the range's end.
pub open spec fn medium_reentry(t1: int) -> int {
    if t1 <= T_INF - 7 {
        t1 + 7
    } else {
        T_INF as int
    }
}

/// The exact accepted parameter of a deterministic surface's intersection.
pub open spec fn hittable_hit_spec(h: Hittable, r: Ray, t_min: int, t_max: int) -> Option<int> {
    match h {
        Hittable::Sphere(s) => sphere_hit(v3(s.center), s.radius as int, r, t_min, t_max),
        Hittable::Moving(m) => crate::moving_sphere::moving_sphere_hit(m, r, t_min, t_max),
        Hittable::Medium(_) => None,
    }
}

impl Hittable {
    /// Intersects the surface. A deterministic variant returns exactly what
    /// `hittable_hit_spec` says; the medium's result holds for every draw of
    /// its free-path sample.
    pub fn hit(&self, r: &Ray, t_min: i64, t_max: i64) -> (res: Option<HitRecord>)
        requires
            hittable_wf(*self),
            ray_wf(*r),
            -T_INF <= t_min <= T_INF,
            -T_INF <= t_max <= T_INF,
        ensures
            match res {
                Some(rec) => t_min <= rec.t <= t_max && hitrec_wf(rec),
                None => true,
            },
            hittable_det(*self) ==> res_t(res) == hittable_hit_spec(
                *self,
                *r,
                t_min as int,
                t_max as int,
            ),
            hittable_det(*self) ==> (res matches Some(rec) ==> v3_dot(
                v3(r.direction),
                v3(rec.normal),
            ) <= 0),
            self matches Hittable::Medium(cm) ==> (res matches Some(rec) ==> rec.mat_ptr
                == cm.phase_function),
            (self matches Hittable::Medium(cm) && hittable_det(*cm.boundary)
                && hittable_hit_spec(*cm.boundary, *r, -T_INF as int, T_INF as int) is None)
                ==> res is None,
            self matches Hittable::Medium(cm) ==> (hittable_det(*cm.boundary) ==> (
            hittable_hit_spec(*cm.boundary, *r, -T_INF as int, T_INF as int) matches Some(t1)
                ==> (hittable_hit_spec(*cm.boundary, *r, medium_reentry(t1), T_INF as int)
                is None ==> res is None))),
            self matches Hittable::Medium(cm) ==> (hittable_det(*cm.boundary) ==> (
            hittable_hit_spec(*cm.boundary, *r, -T_INF as int, T_INF as int) matches Some(t1)
                ==> (hittable_hit_spec(*cm.boundary, *r, medium_reentry(t1), T_INF as int)
                matches Some(t2) ==> (crate::constant_medium::medium_hit_t(
                cm.inv_density as int,
                crate::vec3::v3_len(v3(r.direction)),
                t_min as int,
                t_max as int,
                t1,
                t2,
                crate::sampler::EXP_CAP as int,
            ) is Some ==> res is Some)))),
        decreases *self,
    {
        match self {
            Hittable::Sphere(s) => s.hit(r, t_min, t_max),
            Hittable::Moving(m) => m.hit(r, t_min, t_max),
            Hittable::Medium(cm) => {
                let rec1 = match cm.boundary.hit(r, -T_INF, T_INF) {
                    Some(rec) => rec,
                    None => {
                        return None;
                    },
                };
                let lo = if rec1.t <= T_INF - 7 {
                    rec1.t + 7
                } else {
                    T_INF
                };
                let rec2 = match cm.boundary.hit(r, lo, T_INF) {
                    Some(rec) => rec,
                    None => {
                        return None;
                    },
                };
                let draw = sample_unit_exponential();
                proof {
                    if crate::constant_medium::medium_hit_t(
                        cm.inv_density as int,
                        crate::vec3::v3_len(v3(r.direction)),
                        t_min as int,
                        t_max as int,
                        rec1.t as int,
                        rec2.t as int,
                        crate::sampler::EXP_CAP as int,
                    ) is Some {
                        crate::constant_medium::lemma_medium_hit_monotone(
                            cm.inv_density as int,
                            crate::vec3::v3_len(v3(r.direction)),
                            t_min as int,
                            t_max as int,
                            rec1.t as int,
                            rec2.t as int,
                            draw as int,
                            crate::sampler::EXP_CAP as int,
                        );
                    }
                }
                cm.hit_core(r, t_min, t_max, rec1.t, rec2.t, draw)
            },
        }
    }
}

/// The parameter carried by an optional hit record.
pub open spec fn res_t(res: Option<HitRecord>) -> Option<int> {
    match res {
        Some(rec) => Some(rec.t as int),
        None => None,
    }
}

/// The box of radius `radius` around a center.
pub open spec fn box_around(c: V3, radius: int) -> crate::aabb::AABB {
    crate::aabb::AABB {
        minimum: Vec3 {
            x: (c.x - radius) as i64,
            y: (c.y - radius) as i64,
            z: (c.z - radius) as i64,
        },
        maximum: Vec3 {
            x: (c.x + radius) as i64,
            y: (c.y + radius) as i64,
            z: (c.z + radius) as i64,
        },
    }
}

/// The bounding box of a surface over a time interval: a sphere's box, the
/// merge of a moving sphere's two extreme boxes, or the boundary's box for
/// a medium. None when a moving center has left the tracer's range.
pub open spec fn hittable_box(h: Hittable, time0: int, time1: int) -> Option<crate::aabb::AABB>
    decreases h,
{
    match h {
        Hittable::Sphere(s) => Some(box_around(v3(s.center), s.radius as int)),
        Hittable::Moving(m) => {
            let c0 = crate::moving_sphere::moving_center(m, time0);
            let c1 = crate::moving_sphere::moving_center(m, time1);
            if v3_bounded(c0, POS_LIM as int) && v3_bounded(c1, POS_LIM as int) {
                Some(
                    crate::aabb::surrounding_spec(
                        box_around(c0, m.radius as int),
                        box_around(c1, m.radius as int),
                    ),
                )
            } else {
                None
            }
        },
        Hittable::Medium(cm) => hittable_box(*cm.boundary, time0, time1),
    }
}

impl Hittable {
    /// A box enclosing the surface over the given time interval.
    pub fn bounding_box(&self, time0: i64, time1: i64) -> (res: Option<crate::aabb::AABB>)
        requires
            hittable_wf(*self),
            -T_INF <= time0 <= T_INF,
            -T_INF <= time1 <= T_INF,
        ensures
            res == hittable_box(*self, time0 as int, time1 as int),
            res matches Some(b) ==> crate::aabb::aabb_wf(b),
        decreases *self,
    {
        match self {
            Hittable::Sphere(s) => Some(
                crate::aabb::AABB {
                    minimum: Vec3 {
                        x: s.center.x - s.radius,
                        y: s.center.y - s.radius,
                        z: s.center.z - s.radius,
                    },
                    maximum: Vec3 {
                        x: s.center.x + s.radius,
                        y: s.center.y + s.radius,
                        z: s.center.z + s.radius,
                    },
                },
            ),
            Hittable::Moving(m) => {
                let c0 = m.center(time0);
                let c1 = m.center(time1);
                if !(-POS_LIM <= c0.x && c0.x <= POS_LIM && -POS_LIM <= c0.y && c0.y <= POS_LIM
                    && -POS_LIM <= c0.z && c0.z <= POS_LIM && -POS_LIM <= c1.x && c1.x <= POS_LIM
                    && -POS_LIM <= c1.y && c1.y <= POS_LIM && -POS_LIM <= c1.z && c1.z
                    <= POS_LIM) {
                    return None;
                }
                let b0 = crate::aabb::AABB {
                    minimum: Vec3 {
                        x: c0.x - m.radius,
                        y: c0.y - m.radius,
                        z: c0.z - m.radius,
                    },
                    maximum: Vec3 {
                        x: c0.x + m.radius,
                        y: c0.y + m.radius,
                        z: c0.z + m.radius,
                    },
                };
                let b1 = crate::aabb::AABB {
                    minimum: Vec3 {
                        x: c1.x - m.radius,
                        y: c1.y - m.radius,
                        z: c1.z - m.radius,
                    },
                    maximum: Vec3 {
                        x: c1.x + m.radius,
                        y: c1.y + m.radius,
                        z: c1.z + m.radius,
                    },
                };
                Some(crate::aabb::AABB::surrounding_box(&b0, &b1))
            },
            Hittable::Medium(cm) => cm.boundary.bounding_box(time0, time1),
        }
    }
}

} // verus!
