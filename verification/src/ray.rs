//! Parametric rays and the range limits the tracer works inside.

use vstd::prelude::*;
use crate::vec3::{Vec3, Point3, v3, V3, v3_add, v3_scale, v3_bounded, v3_dot, v3_in_i64};

verus! {

/// Largest position component the geometry accepts.
pub const POS_LIM: i64 = 0x1000_0000;

/// Largest direction component the geometry accepts.
pub const DIR_LIM: i64 = 0x40_0000;

/// Largest normal component a hit record carries.
pub const NORM_LIM: i64 = 0x2_0000;

/// The parameter value standing in for an unbounded ray.
pub const T_INF: i64 = 0x100_0000_0000;

/// Largest hit-point component the scattering layer accepts.
pub const P_LIM: i64 = 0x8000_0000_0000;

/// A parametric line: origin, direction, and the time the ray was cast
/// within the camera's shutter interval.
#[derive(Clone, Copy, PartialEq, Eq, Structural, Debug)]
pub struct Ray {
    pub origin: Point3,
    pub direction: Vec3,
    pub time: i64,
}

/// The point the ray reaches at parameter `t`: `origin + t * direction`.
pub open spec fn ray_at(r: Ray, t: int) -> V3 {
    v3_add(v3(r.origin), v3_scale(t, v3(r.direction)))
}

/// A well-formed ray: components within the tracer's range and a direction
/// long enough to normalize.
pub open spec fn ray_wf(r: Ray) -> bool {
    &&& v3_bounded(v3(r.origin), POS_LIM as int)
    &&& v3_bounded(v3(r.direction), DIR_LIM as int)
    &&& v3_dot(v3(r.direction), v3(r.direction)) >= 1
    &&& -T_INF <= r.time <= T_INF
}

impl Ray {
    pub fn new(origin: Point3, direction: Vec3, time: i64) -> (r: Ray)
        ensures
            r == (Ray { origin, direction, time }),
    {
        Ray { origin, direction, time }
    }

    /// The degenerate placeholder ray at the origin.
    pub fn default_new() -> (r: Ray)
        ensures
            r.origin == (Vec3 { x: 0, y: 0, z: 0 }),
            r.direction == (Vec3 { x: 0, y: 0, z: 0 }),
            r.time == 0,
    {
        Ray { origin: Vec3 { x: 0, y: 0, z: 0 }, direction: Vec3 { x: 0, y: 0, z: 0 }, time: 0 }
    }

    pub fn origin(&self) -> (r: Point3)
        ensures
            r == self.origin,
    {
        self.origin
    }

    pub fn direction(&self) -> (r: Vec3)
        ensures
            r == self.direction,
    {
        self.direction
    }

    pub fn time(&self) -> (r: i64)
        ensures
            r == self.time,
    {
        self.time
    }

    /// Evaluates the ray at parameter `t`.
    pub fn at(&self, t: i64) -> (p: Point3)
        requires
            v3_in_i64(ray_at(*self, t as int)),
            i64::MIN as int <= crate::fixed::fxmul(t as int, self.direction.x as int)
                <= i64::MAX as int,
            i64::MIN as int <= crate::fixed::fxmul(t as int, self.direction.y as int)
                <= i64::MAX as int,
            i64::MIN as int <= crate::fixed::fxmul(t as int, self.direction.z as int)
                <= i64::MAX as int,
        ensures
            v3(p) == ray_at(*self, t as int),
    {
        let d = self.direction.scale(t);
        self.origin.add(d)
    }
}

} // verus!
