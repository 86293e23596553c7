//! The aggregate surface: an ordered collection in which every member is
//! tested and the nearest accepted hit wins.

use vstd::prelude::*;
use crate::hittable::{Hittable, HitRecord, Sphere, hitrec_wf, hittable_wf, hittable_det, hittable_hit_spec, res_t};
use crate::ray::{Ray, ray_wf, T_INF};

verus! {

/// An aggregate of surfaces with no inherent ordering semantics.
pub struct HittableList {
    pub objects: Vec<Hittable>,
}

/// Every member of the aggregate is well-formed.
pub open spec fn hittable_list_wf(l: HittableList) -> bool {
    forall|i: int| 0 <= i < l.objects@.len() ==> hittable_wf(#[trigger] l.objects@[i])
}

/// Every member intersects deterministically.
pub open spec fn all_det(objs: Seq<Hittable>) -> bool {
    forall|i: int| 0 <= i < objs.len() ==> hittable_det(#[trigger] objs[i])
}

/// Keeps the strictly smaller parameter; a tie keeps the earlier member.
pub open spec fn min_opt(best: Option<int>, cand: Option<int>) -> Option<int> {
    match (best, cand) {
        (Option::None, c) => c,
        (Option::Some(b), Option::None) => Some(b),
        (Option::Some(b), Option::Some(c)) => if c < b {
            Some(c)
        } else {
            Some(b)
        },
    }
}

/// The parameter of the nearest deterministic hit over the whole aggregate.
pub open spec fn list_hit_min(objs: Seq<Hittable>, r: Ray, t_min: int, t_max: int) -> Option<int>
    decreases objs.len(),
{
    if objs.len() == 0 {
        None
    } else {
        min_opt(
            list_hit_min(objs.drop_last(), r, t_min, t_max),
            hittable_hit_spec(objs.last(), r, t_min, t_max),
        )
    }
}

impl HittableList {
    /// The empty aggregate.
    pub fn new_default() -> (l: HittableList)
        ensures
            l.objects@.len() == 0,
    {
        HittableList { objects: Vec::new() }
    }

    /// Appends a surface to the aggregate.
    pub fn add(&mut self, h: Hittable)
        ensures
            final(self).objects@ == old(self).objects@.push(h),
    {
        self.objects.push(h);
    }

    /// The nearest intersection over every member. When every member is
    /// deterministic the result's parameter equals `list_hit_min`: the
    /// aggregate always reports the strictly smallest accepted parameter.
    pub fn hit(&self, r: &Ray, t_min: i64, t_max: i64) -> (res: Option<HitRecord>)
        requires
            hittable_list_wf(*self),
            ray_wf(*r),
            -T_INF <= t_min <= T_INF,
            -T_INF <= t_max <= T_INF,
        ensures
            (match res {
                Some(rec) => t_min <= rec.t <= t_max && hitrec_wf(rec),
                None => true,
            }),
            all_det(self.objects@) ==> res_t(res) == list_hit_min(
                self.objects@,
                *r,
                t_min as int,
                t_max as int,
            ),
            forall|j: int|
                0 <= j < self.objects@.len() && hittable_det(#[trigger] self.objects@[j])
                    && hittable_hit_spec(self.objects@[j], *r, t_min as int, t_max as int)
                    is Some ==> (res matches Some(rec) && rec.t as int <= hittable_hit_spec(
                    self.objects@[j],
                    *r,
                    t_min as int,
                    t_max as int,
                )->Some_0),
    {
        let mut best: Option<HitRecord> = None;
        let mut i: usize = 0;
        while i < self.objects.len()
            invariant
                hittable_list_wf(*self),
                ray_wf(*r),
                -T_INF <= t_min <= T_INF,
                -T_INF <= t_max <= T_INF,
                0 <= i <= self.objects.len(),
                (match best {
                    Some(b) => t_min <= b.t <= t_max && hitrec_wf(b),
                    None => true,
                }),
                all_det(self.objects@) ==> res_t(best) == list_hit_min(
                    self.objects@.subrange(0, i as int),
                    *r,
                    t_min as int,
                    t_max as int,
                ),
                forall|j: int|
                    0 <= j < i && hittable_det(#[trigger] self.objects@[j])
                        && hittable_hit_spec(self.objects@[j], *r, t_min as int, t_max as int)
                        is Some ==> (best matches Some(b) && b.t as int <= hittable_hit_spec(
                        self.objects@[j],
                        *r,
                        t_min as int,
                        t_max as int,
                    )->Some_0),
            decreases self.objects.len() - i,
        {
            let cand = self.objects[i].hit(r, t_min, t_max);
            proof {
                assert(self.objects@.subrange(0, i as int + 1).drop_last() =~= self.objects@
                    .subrange(0, i as int));
                assert(self.objects@.subrange(0, i as int + 1).last() == self.objects@[i as int]);
            }
            match cand {
                Some(rec) => {
                    let take = match &best {
                        Some(b) => rec.t < b.t,
                        None => true,
                    };
                    if take {
                        best = Some(rec);
                    }
                },
                None => {},
            }
            i = i + 1;
        }
        proof {
            assert(self.objects@.subrange(0, self.objects@.len() as int) =~= self.objects@);
        }
        best
    }
}

/// The bounding box of the whole aggregate: the merge of every member's
/// box; none when the aggregate is empty or some member lacks a box.
pub open spec fn list_box(objs: Seq<Hittable>, time0: int, time1: int) -> Option<
    crate::aabb::AABB,
>
    decreases objs.len(),
{
    if objs.len() == 0 {
        None
    } else if objs.len() == 1 {
        crate::hittable::hittable_box(objs.last(), time0, time1)
    } else {
        match (
            list_box(objs.drop_last(), time0, time1),
            crate::hittable::hittable_box(objs.last(), time0, time1),
        ) {
            (Option::Some(a), Option::Some(b)) => Some(crate::aabb::surrounding_spec(a, b)),
            _ => None,
        }
    }
}

impl HittableList {
    /// The union of every member's bounding box.
    pub fn bounding_box(&self, time0: i64, time1: i64) -> (res: Option<crate::aabb::AABB>)
        requires
            hittable_list_wf(*self),
            -T_INF <= time0 <= T_INF,
            -T_INF <= time1 <= T_INF,
        ensures
            res == list_box(self.objects@, time0 as int, time1 as int),
    {
        let mut acc: Option<crate::aabb::AABB> = None;
        let mut missing = false;
        let mut i: usize = 0;
        while i < self.objects.len()
            invariant
                hittable_list_wf(*self),
                -T_INF <= time0 <= T_INF,
                -T_INF <= time1 <= T_INF,
                0 <= i <= self.objects.len(),
                missing ==> i >= 1 && list_box(
                    self.objects@.subrange(0, i as int),
                    time0 as int,
                    time1 as int,
                ) is None,
                !missing && i == 0 ==> acc is None,
                !missing && i >= 1 ==> acc == list_box(
                    self.objects@.subrange(0, i as int),
                    time0 as int,
                    time1 as int,
                ) && acc is Some,
            decreases self.objects.len() - i,
        {
            let cand = self.objects[i].bounding_box(time0, time1);
            proof {
                assert(self.objects@.subrange(0, i as int + 1).drop_last() =~= self.objects@
                    .subrange(0, i as int));
                assert(self.objects@.subrange(0, i as int + 1).last() == self.objects@[i as int]);
            }
            match cand {
                None => {
                    missing = true;
                },
                Some(b) => {
                    if !missing {
                        acc = match acc {
                            None => Some(b),
                            Some(a) => Some(crate::aabb::AABB::surrounding_box(&a, &b)),
                        };
                    }
                },
            }
            i = i + 1;
        }
        proof {
            assert(self.objects@.subrange(0, self.objects@.len() as int) =~= self.objects@);
        }
        if missing {
            None
        } else {
            acc
        }
    }
}

/// The nearest-hit law: for two overlapping spheres both intersected by the
/// ray, the aggregate's accepted parameter is the strictly smaller one.
pub proof fn lemma_aggregate_nearest_hit(
    s1: Sphere,
    s2: Sphere,
    r: Ray,
    t_min: int,
    t_max: int,
    t1: int,
    t2: int,
)
    requires
        hittable_hit_spec(Hittable::Sphere(s1), r, t_min, t_max) == Some(t1),
        hittable_hit_spec(Hittable::Sphere(s2), r, t_min, t_max) == Some(t2),
        t1 < t2,
    ensures
        list_hit_min(seq![Hittable::Sphere(s1), Hittable::Sphere(s2)], r, t_min, t_max) == Some(
            t1,
        ),
{
    let s = seq![Hittable::Sphere(s1), Hittable::Sphere(s2)];
    assert(s.drop_last() =~= seq![Hittable::Sphere(s1)]);
    assert(seq![Hittable::Sphere(s1)].drop_last() =~= Seq::<Hittable>::empty());
    assert(list_hit_min(Seq::<Hittable>::empty(), r, t_min, t_max) is None);
    assert(seq![Hittable::Sphere(s1)].last() == Hittable::Sphere(s1));
    assert(list_hit_min(seq![Hittable::Sphere(s1)], r, t_min, t_max) == Some(t1));
    assert(s.last() == Hittable::Sphere(s2));
}

} // verus!
