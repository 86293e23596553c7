//! Three-component vectors of fixed-point scalars.
//!
//! `Vec3` is the executable value; `V3`, with unbounded integer components,
//! is its mathematical image, and every operation's contract states the exact
//! component formulas over `V3`.

use vstd::prelude::*;
use crate::fixed::{SCALE, tdiv, fxmul, fxdiv, fxsqrt, mul_fx, div_fx, sqrt_fx};
use crate::fixed::{lemma_tdiv_mag, lemma_tdiv_shrink, lemma_tdiv_nonneg, lemma_fxmul_bound, lemma_sqrt_floor};

verus! {

/// A vector, point or color: three fixed-point scalars.
#[derive(Clone, Copy, PartialEq, Eq, Structural, Debug)]
pub struct Vec3 {
    pub x: i64,
    pub y: i64,
    pub z: i64,
}

/// Points share the vector representation.
pub type Point3 = Vec3;

/// Colors are vectors whose components are channel intensities.
pub type Color = Vec3;

/// The mathematical image of a vector: unbounded integer components.
pub struct V3 {
    pub x: int,
    pub y: int,
    pub z: int,
}

pub open spec fn v3(a: Vec3) -> V3 {
    V3 { x: a.x as int, y: a.y as int, z: a.z as int }
}

pub open spec fn v3_zero() -> V3 {
    V3 { x: 0, y: 0, z: 0 }
}

pub open spec fn v3_add(a: V3, b: V3) -> V3 {
    V3 { x: a.x + b.x, y: a.y + b.y, z: a.z + b.z }
}

pub open spec fn v3_sub(a: V3, b: V3) -> V3 {
    V3 { x: a.x - b.x, y: a.y - b.y, z: a.z - b.z }
}

pub open spec fn v3_neg(a: V3) -> V3 {
    V3 { x: -a.x, y: -a.y, z: -a.z }
}

pub open spec fn v3_scale(k: int, a: V3) -> V3 {
    V3 { x: fxmul(k, a.x), y: fxmul(k, a.y), z: fxmul(k, a.z) }
}

/// The fixed-point dot product: one truncation after the exact integer sum.
pub open spec fn v3_dot(a: V3, b: V3) -> int {
    tdiv(a.x * b.x + a.y * b.y + a.z * b.z, SCALE as int)
}

pub open spec fn v3_len(a: V3) -> int {
    fxsqrt(v3_dot(a, a))
}

pub open spec fn v3_unit(a: V3) -> V3 {
    let l = v3_len(a);
    V3 { x: fxdiv(a.x, l), y: fxdiv(a.y, l), z: fxdiv(a.z, l) }
}

pub open spec fn v3_cross(a: V3, b: V3) -> V3 {
    V3 {
        x: fxmul(a.y, b.z) - fxmul(a.z, b.y),
        y: fxmul(a.z, b.x) - fxmul(a.x, b.z),
        z: fxmul(a.x, b.y) - fxmul(a.y, b.x),
    }
}

/// Mirror reflection of `v` about the normal `n`: `v - 2 (v . n) n`.
pub open spec fn v3_reflect(v: V3, n: V3) -> V3 {
    v3_sub(v, v3_scale(2 * v3_dot(v, n), n))
}

/// Snell refraction of the unit direction `uv` at normal `n` with the given
/// index ratio; the radicand is clamped at zero before the square root.
pub open spec fn v3_refract(uv: V3, n: V3, ratio: int) -> V3 {
    let c = v3_dot(v3_neg(uv), n);
    let cos_theta = if c > SCALE as int { SCALE as int } else if c < -(SCALE as int) { -(SCALE as int) } else { c };
    let perp = v3_scale(ratio, v3_add(uv, v3_scale(cos_theta, n)));
    let k = SCALE as int - v3_dot(perp, perp);
    let kc = if k < 0 { 0 } else { k };
    let par = v3_scale(-fxsqrt(kc), n);
    v3_add(perp, par)
}

/// A well-formed color: every channel lies in `[0, 1]` in fixed units.
pub open spec fn color_ok(c: Vec3) -> bool {
    0 <= c.x <= SCALE && 0 <= c.y <= SCALE && 0 <= c.z <= SCALE
}

pub open spec fn v3_bounded(a: V3, m: int) -> bool {
    -m <= a.x <= m && -m <= a.y <= m && -m <= a.z <= m
}

pub open spec fn v3_in_i64(a: V3) -> bool {
    i64::MIN as int <= a.x <= i64::MAX as int && i64::MIN as int <= a.y <= i64::MAX as int
        && i64::MIN as int <= a.z <= i64::MAX as int
}

/// A componentwise bound on two vectors bounds their dot product.
pub proof fn lemma_v3_dot_bound(a: V3, b: V3, m: int)
    requires
        v3_bounded(a, m),
        v3_bounded(b, m),
        0 <= m,
    ensures
        -((3 * (m * m)) / SCALE as int) <= v3_dot(a, b) <= (3 * (m * m)) / SCALE as int,
{
    assert(-(m * m) <= a.x * b.x <= m * m && -(m * m) <= a.y * b.y <= m * m
        && -(m * m) <= a.z * b.z <= m * m && m * m >= 0) by (nonlinear_arith)
        requires
            v3_bounded(a, m),
            v3_bounded(b, m),
            0 <= m,
    ;
    lemma_tdiv_shrink(a.x * b.x + a.y * b.y + a.z * b.z, SCALE as int, 3 * (m * m));
}

/// Componentwise bounds on each vector bound their dot product.
pub proof fn lemma_v3_dot_bound2(a: V3, b: V3, ma: int, mb: int)
    requires
        v3_bounded(a, ma),
        v3_bounded(b, mb),
        0 <= ma,
        0 <= mb,
    ensures
        -((3 * (ma * mb)) / SCALE as int) <= v3_dot(a, b) <= (3 * (ma * mb)) / SCALE as int,
{
    assert(-(ma * mb) <= a.x * b.x <= ma * mb && -(ma * mb) <= a.y * b.y <= ma * mb
        && -(ma * mb) <= a.z * b.z <= ma * mb && ma * mb >= 0) by (nonlinear_arith)
        requires
            v3_bounded(a, ma),
            v3_bounded(b, mb),
            0 <= ma,
            0 <= mb,
    ;
    lemma_tdiv_shrink(a.x * b.x + a.y * b.y + a.z * b.z, SCALE as int, 3 * (ma * mb));
}

/// A dot product of a vector with itself is non-negative.
pub proof fn lemma_v3_dot_self_nonneg(a: V3)
    ensures
        v3_dot(a, a) >= 0,
{
    assert(a.x * a.x >= 0 && a.y * a.y >= 0 && a.z * a.z >= 0) by (nonlinear_arith);
    lemma_tdiv_nonneg(a.x * a.x + a.y * a.y + a.z * a.z, SCALE as int);
}

/// Negating one argument negates the dot product.
pub proof fn lemma_v3_dot_neg(a: V3, b: V3)
    ensures
        v3_dot(a, v3_neg(b)) == -v3_dot(a, b),
        v3_dot(v3_neg(a), b) == -v3_dot(a, b),
{
    assert(a.x * (-b.x) + a.y * (-b.y) + a.z * (-b.z)
        == -(a.x * b.x + a.y * b.y + a.z * b.z)) by (nonlinear_arith);
    assert((-a.x) * b.x + (-a.y) * b.y + (-a.z) * b.z
        == -(a.x * b.x + a.y * b.y + a.z * b.z)) by (nonlinear_arith);
    crate::fixed::lemma_tdiv_neg(a.x * b.x + a.y * b.y + a.z * b.z, SCALE as int);
}

impl Vec3 {
    pub fn new(x: i64, y: i64, z: i64) -> (r: Vec3)
        ensures
            r == (Vec3 { x, y, z }),
    {
        Vec3 { x, y, z }
    }

    pub fn zero() -> (r: Vec3)
        ensures
            v3(r) == v3_zero(),
    {
        Vec3 { x: 0, y: 0, z: 0 }
    }

    /// The unit color: full intensity in every channel.
    pub fn ones() -> (r: Vec3)
        ensures
            r.x == SCALE && r.y == SCALE && r.z == SCALE,
    {
        Vec3 { x: SCALE, y: SCALE, z: SCALE }
    }

    pub fn add(self, o: Vec3) -> (r: Vec3)
        requires
            v3_in_i64(v3_add(v3(self), v3(o))),
        ensures
            v3(r) == v3_add(v3(self), v3(o)),
    {
        Vec3 { x: self.x + o.x, y: self.y + o.y, z: self.z + o.z }
    }

    pub fn sub(self, o: Vec3) -> (r: Vec3)
        requires
            v3_in_i64(v3_sub(v3(self), v3(o))),
        ensures
            v3(r) == v3_sub(v3(self), v3(o)),
    {
        Vec3 { x: self.x - o.x, y: self.y - o.y, z: self.z - o.z }
    }

    pub fn neg(self) -> (r: Vec3)
        requires
            v3_in_i64(v3_neg(v3(self))),
        ensures
            v3(r) == v3_neg(v3(self)),
    {
        Vec3 { x: -self.x, y: -self.y, z: -self.z }
    }

    /// Scales every component by the fixed-point factor `k`.
    pub fn scale(self, k: i64) -> (r: Vec3)
        requires
            v3_in_i64(v3_scale(k as int, v3(self))),
        ensures
            v3(r) == v3_scale(k as int, v3(self)),
    {
        Vec3 { x: mul_fx(k, self.x), y: mul_fx(k, self.y), z: mul_fx(k, self.z) }
    }

    /// Multiplies componentwise: the attenuation product of two colors.
    pub fn mul_comp(self, o: Vec3) -> (r: Vec3)
        requires
            i64::MIN as int <= fxmul(self.x as int, o.x as int) <= i64::MAX as int,
            i64::MIN as int <= fxmul(self.y as int, o.y as int) <= i64::MAX as int,
            i64::MIN as int <= fxmul(self.z as int, o.z as int) <= i64::MAX as int,
        ensures
            r.x as int == fxmul(self.x as int, o.x as int),
            r.y as int == fxmul(self.y as int, o.y as int),
            r.z as int == fxmul(self.z as int, o.z as int),
    {
        Vec3 { x: mul_fx(self.x, o.x), y: mul_fx(self.y, o.y), z: mul_fx(self.z, o.z) }
    }

    pub fn dot(a: Vec3, b: Vec3) -> (r: i64)
        requires
            v3_bounded(v3(a), 0x40_0000_0000),
            v3_bounded(v3(b), 0x40_0000_0000),
        ensures
            r as int == v3_dot(v3(a), v3(b)),
    {
        proof {
            assert(-0x1000_0000_0000_0000_0000int <= (a.x as int) * (b.x as int)
                <= 0x1000_0000_0000_0000_0000int
                && -0x1000_0000_0000_0000_0000int <= (a.y as int) * (b.y as int)
                    <= 0x1000_0000_0000_0000_0000int
                && -0x1000_0000_0000_0000_0000int <= (a.z as int) * (b.z as int)
                    <= 0x1000_0000_0000_0000_0000int) by (nonlinear_arith)
                requires
                    v3_bounded(v3(a), 0x40_0000_0000),
                    v3_bounded(v3(b), 0x40_0000_0000),
            ;
            lemma_tdiv_mag(
                (a.x as int) * (b.x as int) + (a.y as int) * (b.y as int) + (a.z as int) * (b.z
                    as int),
                SCALE as int,
                0x3000_0000_0000_0000_0000,
            );
            lemma_tdiv_shrink(
                (a.x as int) * (b.x as int) + (a.y as int) * (b.y as int) + (a.z as int) * (b.z
                    as int),
                SCALE as int,
                0x3000_0000_0000_0000_0000,
            );
        }
        let p: i128 = (a.x as i128) * (b.x as i128) + (a.y as i128) * (b.y as i128) + (a.z as i128)
            * (b.z as i128);
        let q: i128 = p.checked_div(SCALE as i128).unwrap();
        q as i64
    }

    /// The squared length: the dot product of the vector with itself.
    pub fn squared_length(self) -> (r: i64)
        requires
            v3_bounded(v3(self), 0x40_0000_0000),
        ensures
            r as int == v3_dot(v3(self), v3(self)),
            r >= 0,
    {
        proof {
            lemma_v3_dot_self_nonneg(v3(self));
        }
        Vec3::dot(self, self)
    }

    /// The length: the fixed-point square root of the squared length.
    pub fn length(self) -> (r: i64)
        requires
            v3_bounded(v3(self), 0x4000_0000),
        ensures
            r as int == v3_len(v3(self)),
            0 <= r < 0x1_0000_0000,
    {
        proof {
            lemma_v3_dot_bound(v3(self), v3(self), 0x4000_0000);
            lemma_v3_dot_self_nonneg(v3(self));
        }
        let ls = self.squared_length();
        let r = sqrt_fx(ls);
        proof {
            lemma_sqrt_floor(((ls as int) * SCALE as int) as nat);
            assert(r as int * r as int <= (ls as int) * SCALE as int);
            if r >= 0x1_0000_0000 {
                assert(r as int * r as int >= 0x1_0000_0000int * 0x1_0000_0000) by (nonlinear_arith)
                    requires
                        r as int >= 0x1_0000_0000,
                ;
            }
        }
        r
    }

    /// The unit vector: each component divided by the length, which rounds
    /// down, so the result is only approximately of length one.
    pub fn unit(self) -> (r: Vec3)
        requires
            v3_bounded(v3(self), 0x4000_0000),
            v3_dot(v3(self), v3(self)) >= 1,
        ensures
            v3(r) == v3_unit(v3(self)),
    {
        let l = self.length();
        proof {
            let ls = v3_dot(v3(self), v3(self));
            lemma_sqrt_floor((ls * SCALE as int) as nat);
            if l == 0 {
                assert((l as int + 1) * (l as int + 1) == 1) by (nonlinear_arith)
                    requires
                        l as int == 0,
                ;
            }
            assert(l >= 1);
            lemma_tdiv_mag((self.x as int) * SCALE as int, l as int, 0x4000_0000_0000int * 0x10000);
            lemma_tdiv_mag((self.y as int) * SCALE as int, l as int, 0x4000_0000_0000int * 0x10000);
            lemma_tdiv_mag((self.z as int) * SCALE as int, l as int, 0x4000_0000_0000int * 0x10000);
        }
        Vec3 { x: div_fx(self.x, l), y: div_fx(self.y, l), z: div_fx(self.z, l) }
    }

    pub fn cross(a: Vec3, b: Vec3) -> (r: Vec3)
        requires
            v3_bounded(v3(a), 0x4000_0000),
            v3_bounded(v3(b), 0x4000_0000),
        ensures
            v3(r) == v3_cross(v3(a), v3(b)),
    {
        proof {
            lemma_fxmul_bound(a.y as int, b.z as int, 0x4000_0000, 0x4000_0000);
            lemma_fxmul_bound(a.z as int, b.y as int, 0x4000_0000, 0x4000_0000);
            lemma_fxmul_bound(a.z as int, b.x as int, 0x4000_0000, 0x4000_0000);
            lemma_fxmul_bound(a.x as int, b.z as int, 0x4000_0000, 0x4000_0000);
            lemma_fxmul_bound(a.x as int, b.y as int, 0x4000_0000, 0x4000_0000);
            lemma_fxmul_bound(a.y as int, b.x as int, 0x4000_0000, 0x4000_0000);
        }
        Vec3 {
            x: mul_fx(a.y, b.z) - mul_fx(a.z, b.y),
            y: mul_fx(a.z, b.x) - mul_fx(a.x, b.z),
            z: mul_fx(a.x, b.y) - mul_fx(a.y, b.x),
        }
    }

    /// Whether the vector vanishes: below one fixed-point unit in every
    /// component, it cannot steer a ray.
    pub fn near_zero(self) -> (r: bool)
        ensures
            r == (v3(self) == v3_zero()),
    {
        self.x == 0 && self.y == 0 && self.z == 0
    }

    /// Mirror reflection about a normal.
    pub fn reflect(v: Vec3, n: Vec3) -> (r: Vec3)
        requires
            v3_bounded(v3(v), 0x40_0000),
            v3_bounded(v3(n), 0x2_0000),
        ensures
            v3(r) == v3_reflect(v3(v), v3(n)),
    {
        let d = Vec3::dot(v, n);
        proof {
            lemma_v3_dot_bound(v3(v), v3(n), 0x40_0000);
            lemma_fxmul_bound(2 * (d as int), n.x as int, 0x4_0000_0000_0000, 0x2_0000);
            lemma_fxmul_bound(2 * (d as int), n.y as int, 0x4_0000_0000_0000, 0x2_0000);
            lemma_fxmul_bound(2 * (d as int), n.z as int, 0x4_0000_0000_0000, 0x2_0000);
        }
        let s = n.scale(2 * d);
        v.sub(s)
    }

    /// Snell refraction of a unit direction at a normal, with the radicand
    /// clamped at zero against rounding.
    pub fn refract(uv: Vec3, n: Vec3, ratio: i64) -> (r: Vec3)
        requires
            v3_bounded(v3(uv), 0x2_0000),
            v3_bounded(v3(n), 0x2_0000),
            0 < ratio <= 0x1000_0000,
        ensures
            v3(r) == v3_refract(v3(uv), v3(n), ratio as int),
    {
        let nu = uv.neg();
        let c0 = Vec3::dot(nu, n);
        proof {
            lemma_v3_dot_bound(v3(nu), v3(n), 0x2_0000);
        }
        let cos_theta = if c0 > SCALE {
            SCALE
        } else if c0 < -SCALE {
            -SCALE
        } else {
            c0
        };
        proof {
            lemma_fxmul_bound(cos_theta as int, n.x as int, 0x1_0000, 0x2_0000);
            lemma_fxmul_bound(cos_theta as int, n.y as int, 0x1_0000, 0x2_0000);
            lemma_fxmul_bound(cos_theta as int, n.z as int, 0x1_0000, 0x2_0000);
        }
        let cn = n.scale(cos_theta);
        let base = uv.add(cn);
        proof {
            lemma_fxmul_bound(ratio as int, base.x as int, 0x1000_0000, 0x6_0000);
            lemma_fxmul_bound(ratio as int, base.y as int, 0x1000_0000, 0x6_0000);
            lemma_fxmul_bound(ratio as int, base.z as int, 0x1000_0000, 0x6_0000);
        }
        let perp = base.scale(ratio);
        proof {
            lemma_v3_dot_bound(v3(perp), v3(perp), 0x6_0000_0000);
            lemma_v3_dot_self_nonneg(v3(perp));
        }
        let pl = Vec3::dot(perp, perp);
        let k = if SCALE >= pl {
            SCALE - pl
        } else {
            0
        };
        let sq = sqrt_fx(k);
        proof {
            lemma_sqrt_floor(((k as int) * SCALE as int) as nat);
            if sq as int > 0x1_0000_0000 {
                assert(sq as int * sq as int > 0x1_0000_0000int * 0x1_0000_0000)
                    by (nonlinear_arith)
                    requires
                        sq as int > 0x1_0000_0000,
                ;
            }
            lemma_fxmul_bound(-(sq as int), n.x as int, 0x1_0000_0000, 0x2_0000);
            lemma_fxmul_bound(-(sq as int), n.y as int, 0x1_0000_0000, 0x2_0000);
            lemma_fxmul_bound(-(sq as int), n.z as int, 0x1_0000_0000, 0x2_0000);
        }
        let par = n.scale(-sq);
        perp.add(par)
    }
}

} // verus!
