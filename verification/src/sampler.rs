//! Randomness for the Monte-Carlo estimator.
//!
//! The only trusted call is the raw 32-bit draw; everything built on it is
//! verified for every value the draw can take.

use vstd::prelude::*;
use crate::fixed::SCALE;
use crate::vec3::{Vec3, v3, v3_bounded, v3_dot};

verus! {

/// Where the truncated tail of the exponential sampler ends.
pub const EXP_CAP: i64 = 1114112;

/// Relies on rand::random: draws a uniformly random 32-bit value from the
/// thread-local generator. Nothing can be promised of the result.
#[verifier::external_body]
fn random_u32() -> u32 {
    rand::random()
}

/// A uniformly drawn fixed-point fraction in `[0, 1)`.
pub fn random_fraction() -> (r: i64)
    ensures
        0 <= r < SCALE,
{
    (random_u32() % 65536) as i64
}

/// A draw whose distribution approximates the unit exponential, by von
/// Neumann's comparison method: count a maximal strictly descending run of
/// uniform draws, accept on an odd run, and truncate the tail at `EXP_CAP`.
pub fn sample_unit_exponential() -> (r: i64)
    ensures
        0 <= r <= EXP_CAP,
{
    let mut k: i64 = 0;
    while k < 16
        invariant
            0 <= k <= 16,
        decreases 16 - k,
    {
        let first = random_fraction();
        let mut prev = first;
        let mut u = random_fraction();
        let mut n: u32 = 1;
        while u < prev && n < 64
            invariant
                1 <= n <= 64,
            decreases 64 - n,
        {
            prev = u;
            n = n + 1;
            u = random_fraction();
        }
        if n % 2 == 1 {
            return k * SCALE + first;
        }
        k = k + 1;
    }
    EXP_CAP
}

/// A uniformly drawn point strictly inside the unit sphere, by rejection;
/// a short fixed fallback stands in if every attempt is rejected.
pub fn random_in_unit_sphere() -> (r: Vec3)
    ensures
        v3_bounded(v3(r), SCALE as int),
        v3_dot(v3(r), v3(r)) < SCALE as int,
{
    let mut i: u32 = 0;
    while i < 16
        invariant
            i <= 16,
        decreases 16 - i,
    {
        let p = Vec3 {
            x: 2 * random_fraction() - SCALE,
            y: 2 * random_fraction() - SCALE,
            z: 2 * random_fraction() - SCALE,
        };
        proof {
            crate::vec3::lemma_v3_dot_bound(v3(p), v3(p), SCALE as int);
        }
        let ls = p.squared_length();
        if ls < SCALE {
            return p;
        }
        i = i + 1;
    }
    let f = Vec3 { x: 0, y: 0, z: 32768 };
    proof {
        crate::vec3::lemma_v3_dot_bound(v3(f), v3(f), 32768);
    }
    f
}

/// A random direction of roughly unit length: the normalized rejection
/// sample, with a fixed axis standing in for degenerate draws.
pub fn random_unit_vector() -> (r: Vec3)
    ensures
        v3_bounded(v3(r), 2 * SCALE as int),
{
    let p = random_in_unit_sphere();
    let ls = p.squared_length();
    if ls >= 1 {
        let u = p.unit();
        if -2 * SCALE <= u.x && u.x <= 2 * SCALE && -2 * SCALE <= u.y && u.y <= 2 * SCALE && -2
            * SCALE <= u.z && u.z <= 2 * SCALE {
            return u;
        }
        Vec3 { x: 0, y: 0, z: SCALE }
    } else {
        Vec3 { x: 0, y: 0, z: SCALE }
    }
}

/// A uniformly drawn point strictly inside the unit disk in the x-y plane.
pub fn random_in_unit_disk() -> (r: Vec3)
    ensures
        v3_bounded(v3(r), SCALE as int),
        v3_dot(v3(r), v3(r)) < SCALE as int,
        r.z == 0,
{
    let mut i: u32 = 0;
    while i < 16
        invariant
            i <= 16,
        decreases 16 - i,
    {
        let p = Vec3 { x: 2 * random_fraction() - SCALE, y: 2 * random_fraction() - SCALE, z: 0 };
        proof {
            crate::vec3::lemma_v3_dot_bound(v3(p), v3(p), SCALE as int);
        }
        let ls = p.squared_length();
        if ls < SCALE {
            return p;
        }
        i = i + 1;
    }
    let f = Vec3 { x: 0, y: 0, z: 0 };
    proof {
        crate::vec3::lemma_v3_dot_bound(v3(f), v3(f), 0);
    }
    f
}

} // verus!
