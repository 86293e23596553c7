//! Axis-aligned bounding boxes: the slab test and the merge operation.

use vstd::prelude::*;
use crate::fixed::{fxdiv, div_fx, lemma_tdiv_mag};
use crate::vec3::{Vec3, Point3, v3, v3_bounded};
use crate::ray::{Ray, POS_LIM, T_INF};

verus! {

/// An axis-aligned box between two corner points.
#[derive(Clone, Copy, PartialEq, Eq, Structural, Debug)]
pub struct AABB {
    pub minimum: Point3,
    pub maximum: Point3,
}

/// A well-formed box: corners in range and ordered componentwise.
pub open spec fn aabb_wf(b: AABB) -> bool {
    &&& v3_bounded(v3(b.minimum), 2 * POS_LIM as int)
    &&& v3_bounded(v3(b.maximum), 2 * POS_LIM as int)
    &&& b.minimum.x <= b.maximum.x
    &&& b.minimum.y <= b.maximum.y
    &&& b.minimum.z <= b.maximum.z
}

/// One slab of the test: intersects the running interval with the slab's,
/// treating a parallel ray by the origin's position.
pub open spec fn slab(lo: int, hi: int, o: int, d: int, t0: int, t1: int) -> Option<(int, int)> {
    if d == 0 {
        if lo <= o <= hi {
            Some((t0, t1))
        } else {
            None
        }
    } else {
        let ta = fxdiv(lo - o, d);
        let tb = fxdiv(hi - o, d);
        let near = if ta < tb {
            ta
        } else {
            tb
        };
        let far = if ta < tb {
            tb
        } else {
            ta
        };
        let nt0 = if near > t0 {
            near
        } else {
            t0
        };
        let nt1 = if far < t1 {
            far
        } else {
            t1
        };
        if nt1 <= nt0 {
            None
        } else {
            Some((nt0, nt1))
        }
    }
}

/// The slab test over all three axes.
pub open spec fn aabb_hit_spec(b: AABB, r: Ray, t_min: int, t_max: int) -> bool {
    match slab(b.minimum.x as int, b.maximum.x as int, r.origin.x as int, r.direction.x as int, t_min, t_max) {
        None => false,
        Some(ix) => match slab(b.minimum.y as int, b.maximum.y as int, r.origin.y as int, r.direction.y as int, ix.0, ix.1) {
            None => false,
            Some(iy) => slab(b.minimum.z as int, b.maximum.z as int, r.origin.z as int, r.direction.z as int, iy.0, iy.1) is Some,
        },
    }
}

/// One executable slab step.
fn slab_exec(lo: i64, hi: i64, o: i64, d: i64, t0: i64, t1: i64) -> (res: Option<(i64, i64)>)
    requires
        -2 * POS_LIM <= lo <= 2 * POS_LIM,
        -2 * POS_LIM <= hi <= 2 * POS_LIM,
        -POS_LIM <= o <= POS_LIM,
        -2 * T_INF <= t0 <= 2 * T_INF,
        -2 * T_INF <= t1 <= 2 * T_INF,
    ensures
        match res {
            Some(iv) => slab(lo as int, hi as int, o as int, d as int, t0 as int, t1 as int)
                == Some((iv.0 as int, iv.1 as int)) && -2 * T_INF <= iv.0 <= 2 * T_INF && -2
                * T_INF <= iv.1 <= 2 * T_INF,
            None => slab(lo as int, hi as int, o as int, d as int, t0 as int, t1 as int) is None,
        },
{
    if d == 0 {
        if lo <= o && o <= hi {
            return Some((t0, t1));
        }
        return None;
    }
    proof {
        lemma_tdiv_mag((lo - o) as int * 0x10000, d as int, 0x4000_0000int * 0x10000);
        lemma_tdiv_mag((hi - o) as int * 0x10000, d as int, 0x4000_0000int * 0x10000);
    }
    let ta = div_fx(lo - o, d);
    let tb = div_fx(hi - o, d);
    let near = if ta < tb {
        ta
    } else {
        tb
    };
    let far = if ta < tb {
        tb
    } else {
        ta
    };
    let nt0 = if near > t0 {
        near
    } else {
        t0
    };
    let nt1 = if far < t1 {
        far
    } else {
        t1
    };
    if nt1 <= nt0 {
        None
    } else {
        Some((nt0, nt1))
    }
}

impl AABB {
    pub fn new(minimum: Point3, maximum: Point3) -> (b: AABB)
        ensures
            b == (AABB { minimum, maximum }),
    {
        AABB { minimum, maximum }
    }

    /// Whether the ray crosses the box with some parameter interval inside
    /// `(t_min, t_max)`: the slab test.
    pub fn hit(&self, r: &Ray, t_min: i64, t_max: i64) -> (res: bool)
        requires
            aabb_wf(*self),
            v3_bounded(v3(r.origin), POS_LIM as int),
            -T_INF <= t_min <= T_INF,
            -T_INF <= t_max <= T_INF,
        ensures
            res == aabb_hit_spec(*self, *r, t_min as int, t_max as int),
    {
        let ix = match slab_exec(
            self.minimum.x,
            self.maximum.x,
            r.origin.x,
            r.direction.x,
            t_min,
            t_max,
        ) {
            Some(iv) => iv,
            None => {
                return false;
            },
        };
        let iy = match slab_exec(
            self.minimum.y,
            self.maximum.y,
            r.origin.y,
            r.direction.y,
            ix.0,
            ix.1,
        ) {
            Some(iv) => iv,
            None => {
                return false;
            },
        };
        match slab_exec(self.minimum.z, self.maximum.z, r.origin.z, r.direction.z, iy.0, iy.1) {
            Some(_) => true,
            None => false,
        }
    }

    /// The smallest box enclosing two boxes: componentwise minimum and
    /// maximum corners.
    pub fn surrounding_box(a: &AABB, b: &AABB) -> (res: AABB)
        ensures
            res == surrounding_spec(*a, *b),
            aabb_wf(*a) && aabb_wf(*b) ==> aabb_wf(res),
    {
        AABB {
            minimum: Vec3 {
                x: if a.minimum.x <= b.minimum.x {
                    a.minimum.x
                } else {
                    b.minimum.x
                },
                y: if a.minimum.y <= b.minimum.y {
                    a.minimum.y
                } else {
                    b.minimum.y
                },
                z: if a.minimum.z <= b.minimum.z {
                    a.minimum.z
                } else {
                    b.minimum.z
                },
            },
            maximum: Vec3 {
                x: if a.maximum.x >= b.maximum.x {
                    a.maximum.x
                } else {
                    b.maximum.x
                },
                y: if a.maximum.y >= b.maximum.y {
                    a.maximum.y
                } else {
                    b.maximum.y
                },
                z: if a.maximum.z >= b.maximum.z {
                    a.maximum.z
                } else {
                    b.maximum.z
                },
            },
        }
    }
}

/// The merge of two boxes, as a value.
pub open spec fn surrounding_spec(a: AABB, b: AABB) -> AABB {
    AABB {
        minimum: Vec3 {
            x: if a.minimum.x <= b.minimum.x {
                a.minimum.x
            } else {
                b.minimum.x
            },
            y: if a.minimum.y <= b.minimum.y {
                a.minimum.y
            } else {
                b.minimum.y
            },
            z: if a.minimum.z <= b.minimum.z {
                a.minimum.z
            } else {
                b.minimum.z
            },
        },
        maximum: Vec3 {
            x: if a.maximum.x >= b.maximum.x {
                a.maximum.x
            } else {
                b.maximum.x
            },
            y: if a.maximum.y >= b.maximum.y {
                a.maximum.y
            } else {
                b.maximum.y
            },
            z: if a.maximum.z >= b.maximum.z {
                a.maximum.z
            } else {
                b.maximum.z
            },
        },
    }
}

} // verus!
