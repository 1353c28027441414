//! A flat container of hitables. `hit` scans every member, narrowing the
//! query's upper bound to the best t found so far, and returns the single
//! closest record; it is the reference oracle the BVH is proved against.
use vstd::prelude::*;
use crate::aabb::{surrounding_s, Aabb, BOX_MAX, HIT_MAX, COORD_MAX};
use crate::fixed::iabs;
use crate::hitable::{
    bbox_s, hit_s, rec_ok, rec_opt_matches, wf, HitRecord, HitS, Hitable, T_RANGE_MAX,
};
use crate::ray::Ray;
use crate::vec3::{bounded3, v, V3i};

verus! {

pub struct HitableList {
    pub objects: Vec<Hitable>,
}

pub open spec fn wf_list(objs: Seq<Hitable>) -> bool {
    forall|i: int| 0 <= i < objs.len() ==> wf(#[trigger] objs[i])
}

/// The closest-hit scan: each member is queried with the window narrowed to
/// the best t seen so far; a later member replaces an equal t.
pub open spec fn scan_s(
    objs: Seq<Hitable>,
    ro: V3i,
    rd: V3i,
    rtime: int,
    t_min: int,
    t_max: int,
) -> Option<HitS>
    decreases objs.len(),
{
    if objs.len() == 0 {
        None
    } else {
        let prev = scan_s(objs.drop_last(), ro, rd, rtime, t_min, t_max);
        let w = match prev {
            Some(h) => h.t,
            None => t_max,
        };
        match hit_s(objs.last(), ro, rd, rtime, t_min, w) {
            Some(h2) => Some(h2),
            None => prev,
        }
    }
}

/// The union of the members' boxes, or nothing if the list is empty or any
/// member has no box over the interval.
pub open spec fn list_box_s(objs: Seq<Hitable>, t0: int, t1: int) -> Option<Aabb>
    decreases objs.len(),
{
    if objs.len() == 0 {
        None
    } else if objs.len() == 1 {
        bbox_s(objs[0], t0, t1)
    } else {
        match (list_box_s(objs.drop_last(), t0, t1), bbox_s(objs.last(), t0, t1)) {
            (Some(a), Some(b)) => Some(surrounding_s(a, b)),
            _ => None,
        }
    }
}

/// A member without a box leaves the whole list without one.
proof fn lemma_list_box_none(objs: Seq<Hitable>, i: int, t0: int, t1: int)
    requires
        0 <= i < objs.len(),
        bbox_s(objs[i], t0, t1) is None,
    ensures
        list_box_s(objs, t0, t1) is None,
    decreases objs.len(),
{
    if objs.len() == 1 {
    } else if i == objs.len() - 1 {
        assert(objs.last() == objs[i]);
    } else {
        assert(objs.drop_last()[i] == objs[i]);
        lemma_list_box_none(objs.drop_last(), i, t0, t1);
    }
}

impl HitableList {
    pub fn new(list_size: usize) -> (r: Self)
        ensures
            r.objects@ =~= Seq::<Hitable>::empty(),
    {
        HitableList { objects: Vec::with_capacity(list_size) }
    }

    pub fn add(&mut self, object: Hitable)
        ensures
            final(self).objects@ == old(self).objects@.push(object),
    {
        self.objects.push(object);
    }

    /// The closest hit over all members, with t strictly inside
    /// (t_min, t_max], or nothing.
    pub fn hit(&self, r: &Ray, t_min: i128, t_max: i128) -> (res: Option<HitRecord>)
        requires
            wf_list(self.objects@),
            bounded3(v(r.origin), HIT_MAX as int),
            bounded3(v(r.direction), HIT_MAX as int),
            iabs(r.time as int) <= COORD_MAX as int,
            iabs(t_min as int) <= T_RANGE_MAX as int,
            iabs(t_max as int) <= T_RANGE_MAX as int,
        ensures
            rec_opt_matches(
                res,
                scan_s(
                    self.objects@,
                    v(r.origin),
                    v(r.direction),
                    r.time as int,
                    t_min as int,
                    t_max as int,
                ),
            ),
            res matches Some(rec) ==> rec_ok(rec, *r, t_min as int, t_max as int),
    {
        let mut best: Option<HitRecord> = None;
        let mut closest: i128 = t_max;
        let n = self.objects.len();
        let mut i: usize = 0;
        while i < n
            invariant
                n == self.objects@.len(),
                0 <= i <= n,
                wf_list(self.objects@),
                bounded3(v(r.origin), HIT_MAX as int),
                bounded3(v(r.direction), HIT_MAX as int),
                iabs(r.time as int) <= COORD_MAX as int,
                iabs(t_min as int) <= T_RANGE_MAX as int,
                iabs(t_max as int) <= T_RANGE_MAX as int,
                rec_opt_matches(
                    best,
                    scan_s(
                        self.objects@.subrange(0, i as int),
                        v(r.origin),
                        v(r.direction),
                        r.time as int,
                        t_min as int,
                        t_max as int,
                    ),
                ),
                match best {
                    Some(b) => closest == b.t && rec_ok(b, *r, t_min as int, t_max as int),
                    None => closest == t_max,
                },
            decreases n - i,
        {
            proof {
                assert(self.objects@.subrange(0, i + 1).drop_last() =~= self.objects@.subrange(
                    0,
                    i as int,
                ));
                assert(self.objects@.subrange(0, i + 1).last() == self.objects@[i as int]);
            }
            let cand = self.objects[i].hit(r, t_min, closest);
            if let Some(rec) = cand {
                closest = rec.t;
                best = Some(rec);
            }
            i = i + 1;
        }
        proof {
            assert(self.objects@.subrange(0, n as int) =~= self.objects@);
        }
        best
    }

    /// The union of the members' boxes, or nothing if the list is empty or
    /// any member has no box.
    pub fn bounding_box(&self, t0: i128, t1: i128) -> (res: Option<Aabb>)
        requires
            wf_list(self.objects@),
            iabs(t0 as int) <= COORD_MAX,
            iabs(t1 as int) <= COORD_MAX,
        ensures
            res == list_box_s(self.objects@, t0 as int, t1 as int),
            res matches Some(b) ==> bounded3(v(b.min), BOX_MAX as int) && bounded3(
                v(b.max),
                BOX_MAX as int,
            ),
    {
        let n = self.objects.len();
        if n == 0 {
            return None;
        }
        let first = self.objects[0].bounding_box(t0, t1);
        let mut result: Aabb = match first {
            Some(b) => b,
            None => {
                proof {
                    lemma_list_box_none(self.objects@, 0, t0 as int, t1 as int);
                }
                return None;
            },
        };
        let mut i: usize = 1;
        proof {
            assert(self.objects@.subrange(0, 1).len() == 1);
            assert(self.objects@.subrange(0, 1)[0] == self.objects@[0]);
        }
        while i < n
            invariant
                n == self.objects@.len(),
                1 <= i <= n,
                wf_list(self.objects@),
                iabs(t0 as int) <= COORD_MAX,
                iabs(t1 as int) <= COORD_MAX,
                Some(result) == list_box_s(self.objects@.subrange(0, i as int), t0 as int, t1 as int),
                bounded3(v(result.min), BOX_MAX as int),
                bounded3(v(result.max), BOX_MAX as int),
            decreases n - i,
        {
            proof {
                assert(self.objects@.subrange(0, i + 1).drop_last() =~= self.objects@.subrange(
                    0,
                    i as int,
                ));
                assert(self.objects@.subrange(0, i + 1).last() == self.objects@[i as int]);
            }
            let bb = self.objects[i].bounding_box(t0, t1);
            match bb {
                Some(b) => {
                    result = result.surrounding_box(&b);
                },
                None => {
                    proof {
                        lemma_list_box_none(self.objects@, i as int, t0 as int, t1 as int);
                    }
                    return None;
                },
            }
            i = i + 1;
        }
        proof {
            assert(self.objects@.subrange(0, n as int) =~= self.objects@);
        }
        Some(result)
    }
}

} // verus!
