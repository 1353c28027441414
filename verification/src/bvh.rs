//! Bounding-volume-hierarchy construction and its correctness oracle.
//!
//! `construct` selects the axis along which the union box is widest, orders
//! the primitives by box centroid along it, splits at the median and
//! recurses; one primitive becomes a node with that primitive duplicated as
//! both children, two become the two children directly. Each node caches the
//! union of its children's boxes.
//!
//! `lemma_bvh_hit_is_scan` is the oracle: whenever every node's cached box
//! captures its subtree's hits (`capture`), traversing the tree returns
//! exactly what the linear closest-hit scan over its primitives returns.
use vstd::prelude::*;
use vstd::seq_lib::group_to_multiset_ensures;
use vstd::multiset::Multiset;
use crate::aabb::{box_hit_s, Aabb, COORD_MAX};
use crate::fixed::iabs;
use crate::hitable::{bbox_s, hit_s, wf, Hitable};
use crate::hitable_list::{scan_s, wf_list};
use crate::vec3::{scomp, v, V3i};

verus! {

/// The primitives at the leaves of a tree, in tree order; a non-node is its
/// own single member.
pub open spec fn members(h: Hitable) -> Seq<Hitable>
    decreases h,
{
    match h {
        Hitable::BvhNode { left, right, bbox } => members(*left) + members(*right),
        _ => seq![h],
    }
}

/// No member of the sequence is itself a tree node.
pub open spec fn flat(objs: Seq<Hitable>) -> bool {
    forall|i: int| 0 <= i < objs.len() ==> !(#[trigger] objs[i] is BvhNode)
}

/// Every item has a bounding box over the interval.
pub open spec fn all_boxed(objs: Seq<Hitable>, t0: int, t1: int) -> bool {
    forall|i: int| 0 <= i < objs.len() ==> (#[trigger] bbox_s(objs[i], t0, t1)) is Some
}

/// The sort key: the box centroid along the axis, kept unhalved.
pub open spec fn axis_key_s(h: Hitable, axis: int, t0: int, t1: int) -> int {
    match bbox_s(h, t0, t1) {
        Some(b) => scomp(v(b.min), axis) + scomp(v(b.max), axis),
        None => 0,
    }
}

proof fn lemma_concat_contains(a: Seq<Hitable>, b: Seq<Hitable>, x: Hitable)
    ensures
        (a + b).contains(x) <==> a.contains(x) || b.contains(x),
{
    if a.contains(x) {
        let i = choose|i: int| 0 <= i < a.len() && a[i] == x;
        assert((a + b)[i] == x);
    }
    if b.contains(x) {
        let i = choose|i: int| 0 <= i < b.len() && b[i] == x;
        assert((a + b)[a.len() + i] == x);
    }
    if (a + b).contains(x) {
        let i = choose|i: int| 0 <= i < (a + b).len() && (a + b)[i] == x;
        if i < a.len() {
            assert(a[i] == x);
        } else {
            assert(b[i - a.len()] == x);
        }
    }
}

fn axis_key(h: &Hitable, axis: usize, t0: i128, t1: i128) -> (r: i128)
    requires
        wf(*h),
        iabs(t0 as int) <= COORD_MAX,
        iabs(t1 as int) <= COORD_MAX,
        bbox_s(*h, t0 as int, t1 as int) is Some,
    ensures
        r as int == axis_key_s(*h, axis as int, t0 as int, t1 as int),
{
    let bb = h.bounding_box(t0, t1);
    match bb {
        Some(b) => b.min.comp(axis) + b.max.comp(axis),
        None => vstd::pervasive::unreached(),
    }
}

/// Orders the items by ascending key (selection of the minimum), keeping
/// exactly the same collection of items.
fn sort_by_key(items: Vec<Hitable>, axis: usize, t0: i128, t1: i128) -> (res: Vec<Hitable>)
    requires
        wf_list(items@),
        flat(items@),
        all_boxed(items@, t0 as int, t1 as int),
        iabs(t0 as int) <= COORD_MAX,
        iabs(t1 as int) <= COORD_MAX,
    ensures
        res@.to_multiset() == items@.to_multiset(),
        res@.len() == items@.len(),
        wf_list(res@),
        flat(res@),
        all_boxed(res@, t0 as int, t1 as int),
        forall|x: Hitable| res@.contains(x) <==> items@.contains(x),
{
    broadcast use group_to_multiset_ensures;

    let mut rest = items;
    let mut out: Vec<Hitable> = Vec::new();
    let ghost orig = rest@;
    while rest.len() > 0
        invariant
            out@.to_multiset().add(rest@.to_multiset()) =~= orig.to_multiset(),
            out@.len() + rest@.len() == orig.len(),
            wf_list(out@) && wf_list(rest@),
            flat(out@) && flat(rest@),
            all_boxed(out@, t0 as int, t1 as int),
            all_boxed(rest@, t0 as int, t1 as int),
            iabs(t0 as int) <= COORD_MAX,
            iabs(t1 as int) <= COORD_MAX,
        decreases rest.len(),
    {
        let mut mi: usize = 0;
        let mut mk: i128 = axis_key(&rest[0], axis, t0, t1);
        let mut j: usize = 1;
        while j < rest.len()
            invariant
                0 <= mi < rest@.len(),
                1 <= j <= rest@.len(),
                wf_list(rest@),
                all_boxed(rest@, t0 as int, t1 as int),
                iabs(t0 as int) <= COORD_MAX,
                iabs(t1 as int) <= COORD_MAX,
            decreases rest.len() - j,
        {
            let k = axis_key(&rest[j], axis, t0, t1);
            if k < mk {
                mi = j;
                mk = k;
            }
            j = j + 1;
        }
        let ghost before = rest@;
        let ghost out_before = out@;
        let x = rest.remove(mi);
        out.push(x);
        proof {
            before.to_multiset_ensures();
            out_before.to_multiset_ensures();
            assert(before[mi as int] == x);
            assert(before.contains(x));
            assert(before.to_multiset().count(x) > 0);
            assert(rest@ =~= before.remove(mi as int));
            assert(rest@.to_multiset() =~= before.to_multiset().remove(x));
            assert(out@ =~= out_before.push(x));
            assert(out@.to_multiset() =~= out_before.to_multiset().insert(x));
            assert(out@.to_multiset().add(rest@.to_multiset()) =~= orig.to_multiset());
        }
    }
    proof {
        assert(rest@.to_multiset() =~= Multiset::<Hitable>::empty());
        assert(out@.to_multiset() =~= orig.to_multiset());
        assert forall|x: Hitable| out@.contains(x) <==> orig.contains(x) by {
            assert(out@.contains(x) <==> out@.to_multiset().count(x) > 0);
            assert(orig.contains(x) <==> orig.to_multiset().count(x) > 0);
        }
        assert forall|i: int| 0 <= i < out@.len() implies wf(#[trigger] out@[i]) && !(out@[i]
            is BvhNode) && bbox_s(out@[i], t0 as int, t1 as int) is Some by {}
    }
    out
}

/// The axis (0, 1 or 2) along which the union of the items' boxes has the
/// greatest extent.
fn widest_axis(items: &Vec<Hitable>, t0: i128, t1: i128) -> (r: usize)
    requires
        wf_list(items@),
        items@.len() > 0,
        all_boxed(items@, t0 as int, t1 as int),
        iabs(t0 as int) <= COORD_MAX,
        iabs(t1 as int) <= COORD_MAX,
    ensures
        r < 3,
{
    let first = match items[0].bounding_box(t0, t1) {
        Some(b) => b,
        None => vstd::pervasive::unreached(),
    };
    let mut u: Aabb = first;
    let mut i: usize = 1;
    while i < items.len()
        invariant
            1 <= i <= items@.len(),
            wf_list(items@),
            all_boxed(items@, t0 as int, t1 as int),
            iabs(t0 as int) <= COORD_MAX,
            iabs(t1 as int) <= COORD_MAX,
            crate::vec3::bounded3(v(u.min), crate::aabb::BOX_MAX as int),
            crate::vec3::bounded3(v(u.max), crate::aabb::BOX_MAX as int),
        decreases items@.len() - i,
    {
        match items[i].bounding_box(t0, t1) {
            Some(b) => {
                u = u.surrounding_box(&b);
            },
            None => {
                proof {
                    assert(false);
                }
            },
        }
        i = i + 1;
    }
    let ex: i128 = if u.max.x >= u.min.x {
        u.max.x - u.min.x
    } else {
        0
    };
    let ey: i128 = if u.max.y >= u.min.y {
        u.max.y - u.min.y
    } else {
        0
    };
    let ez: i128 = if u.max.z >= u.min.z {
        u.max.z - u.min.z
    } else {
        0
    };
    if ex >= ey && ex >= ez {
        0
    } else if ey >= ez {
        1
    } else {
        2
    }
}

/// Builds the tree from a non-empty, boxed collection of primitives.
fn build(items: Vec<Hitable>, time0: i128, time1: i128) -> (res: Hitable)
    requires
        wf_list(items@),
        flat(items@),
        items@.len() >= 1,
        all_boxed(items@, time0 as int, time1 as int),
        iabs(time0 as int) <= COORD_MAX,
        iabs(time1 as int) <= COORD_MAX,
    ensures
        wf(res),
        res is BvhNode,
        forall|x: Hitable| members(res).contains(x) <==> items@.contains(x),
    decreases items@.len(),
{
    let n = items.len();
    if n == 1 {
        let mut items = items;
        let x = match items.pop() {
            Some(x) => x,
            None => vstd::pervasive::unreached(),
        };
        let b = match x.bounding_box(time0, time1) {
            Some(b) => b,
            None => vstd::pervasive::unreached(),
        };
        let res = Hitable::BvhNode { left: Box::new(x.clone()), right: Box::new(x), bbox: b };
        proof {
            assert(!(x is BvhNode));
            assert(members(x) =~= seq![x]);
            assert(members(res) =~= seq![x] + seq![x]);
            assert(items@.push(x).len() == 1 && items@.push(x)[0] == x);
            assert(seq![x].len() == 1 && seq![x][0] == x);
            assert forall|y: Hitable| members(res).contains(y) <==> items@.push(x).contains(
                y,
            ) by {
                lemma_concat_contains(seq![x], seq![x], y);
                assert(seq![x].contains(y) <==> y == x);
                assert(items@.push(x).contains(y) <==> y == x);
            }
        }
        res
    } else if n == 2 {
        let axis = widest_axis(&items, time0, time1);
        let s = sort_by_key(items, axis, time0, time1);
        let mut s = s;
        let b = match s[0].bounding_box(time0, time1) {
            Some(b0) => match s[1].bounding_box(time0, time1) {
                Some(b1) => b0.surrounding_box(&b1),
                None => vstd::pervasive::unreached(),
            },
            None => vstd::pervasive::unreached(),
        };
        let ghost sseq = s@;
        let right = match s.pop() {
            Some(x) => x,
            None => vstd::pervasive::unreached(),
        };
        let left = match s.pop() {
            Some(x) => x,
            None => vstd::pervasive::unreached(),
        };
        let res = Hitable::BvhNode { left: Box::new(left), right: Box::new(right), bbox: b };
        proof {
            assert(right == sseq[1] && left == sseq[0]);
            assert(!(left is BvhNode) && !(right is BvhNode));
            assert(members(left) =~= seq![left]);
            assert(members(right) =~= seq![right]);
            assert(members(res) =~= seq![left] + seq![right]);
            assert(sseq =~= seq![left, right]);
            assert(seq![left].len() == 1 && seq![left][0] == left);
            assert(seq![right].len() == 1 && seq![right][0] == right);
            assert forall|y: Hitable| members(res).contains(y) <==> sseq.contains(y) by {
                lemma_concat_contains(seq![left], seq![right], y);
                assert(seq![left].contains(y) <==> y == left);
                assert(seq![right].contains(y) <==> y == right);
                assert(sseq.contains(y) <==> sseq[0] == y || sseq[1] == y);
            }
        }
        res
    } else {
        let axis = widest_axis(&items, time0, time1);
        let mut s = sort_by_key(items, axis, time0, time1);
        let ghost sseq = s@;
        let tail = s.split_off(n / 2);
        proof {
            assert(s@ =~= sseq.subrange(0, (n / 2) as int));
            assert(tail@ =~= sseq.subrange((n / 2) as int, sseq.len() as int));
            assert forall|i: int| 0 <= i < s@.len() implies wf(#[trigger] s@[i]) && !(s@[i]
                is BvhNode) && bbox_s(s@[i], time0 as int, time1 as int) is Some by {
                assert(s@[i] == sseq[i]);
            }
            assert forall|i: int| 0 <= i < tail@.len() implies wf(#[trigger] tail@[i]) && !(
            tail@[i] is BvhNode) && bbox_s(tail@[i], time0 as int, time1 as int) is Some by {
                assert(tail@[i] == sseq[i + (n / 2) as int]);
            }
        }
        let ghost lseq = s@;
        let ghost rseq = tail@;
        let left = build(s, time0, time1);
        let right = build(tail, time0, time1);
        let lb = match left.bounding_box(time0, time1) {
            Some(b) => b,
            None => vstd::pervasive::unreached(),
        };
        let rb = match right.bounding_box(time0, time1) {
            Some(b) => b,
            None => vstd::pervasive::unreached(),
        };
        let b = lb.surrounding_box(&rb);
        let res = Hitable::BvhNode { left: Box::new(left), right: Box::new(right), bbox: b };
        proof {
            assert(members(res) =~= members(left) + members(right));
            assert(lseq + rseq =~= sseq);
            assert forall|y: Hitable| members(res).contains(y) <==> sseq.contains(y) by {
                lemma_concat_contains(members(left), members(right), y);
                lemma_concat_contains(lseq, rseq, y);
            }
        }
        res
    }
}

/// Builds a BVH over the items, or reports failure: an empty collection, or
/// a member without a bounding box over [time0, time1], yields nothing.
pub fn construct(items: Vec<Hitable>, time0: i128, time1: i128) -> (res: Option<Hitable>)
    requires
        wf_list(items@),
        flat(items@),
        iabs(time0 as int) <= COORD_MAX,
        iabs(time1 as int) <= COORD_MAX,
    ensures
        match res {
            Some(tree) => {
                &&& wf(tree)
                &&& tree is BvhNode
                &&& forall|x: Hitable| members(tree).contains(x) <==> items@.contains(x)
            },
            None => items@.len() == 0 || !all_boxed(items@, time0 as int, time1 as int),
        },
{
    if items.len() == 0 {
        return None;
    }
    let mut i: usize = 0;
    while i < items.len()
        invariant
            0 <= i <= items@.len(),
            wf_list(items@),
            iabs(time0 as int) <= COORD_MAX,
            iabs(time1 as int) <= COORD_MAX,
            forall|k: int|
                0 <= k < i ==> (#[trigger] bbox_s(items@[k], time0 as int, time1 as int)) is Some,
        decreases items@.len() - i,
    {
        match items[i].bounding_box(time0, time1) {
            Some(_) => {},
            None => {
                return None;
            },
        }
        i = i + 1;
    }
    Some(build(items, time0, time1))
}

/// The cached boxes capture every hit below them: whenever a node's box test
/// fails for some query window, the scan of the node's primitives over that
/// window finds nothing.
pub open spec fn capture(h: Hitable, ro: V3i, rd: V3i, rtime: int) -> bool
    decreases h,
{
    match h {
        Hitable::BvhNode { left, right, bbox } => {
            &&& forall|t_min: int, t_max: int|
                !box_hit_s(bbox, ro, rd, t_min, t_max) ==> scan_s(
                    members(Hitable::BvhNode { left, right, bbox }),
                    ro,
                    rd,
                    rtime,
                    t_min,
                    t_max,
                ) is None
            &&& capture(*left, ro, rd, rtime)
            &&& capture(*right, ro, rd, rtime)
        },
        _ => true,
    }
}

/// The closest-hit scan splits over concatenation: scanning `a + b` is
/// scanning `a`, then scanning `b` with the window narrowed to `a`'s best.
pub proof fn lemma_scan_append(
    a: Seq<Hitable>,
    b: Seq<Hitable>,
    ro: V3i,
    rd: V3i,
    rtime: int,
    t_min: int,
    t_max: int,
)
    ensures
        scan_s(a + b, ro, rd, rtime, t_min, t_max) == (match scan_s(a, ro, rd, rtime, t_min, t_max) {
            Some(h) => match scan_s(b, ro, rd, rtime, t_min, h.t) {
                Some(h2) => Some(h2),
                None => Some(h),
            },
            None => scan_s(b, ro, rd, rtime, t_min, t_max),
        }),
    decreases b.len(),
{
    if b.len() == 0 {
        assert(a + b =~= a);
    } else {
        lemma_scan_append(a, b.drop_last(), ro, rd, rtime, t_min, t_max);
        assert((a + b).drop_last() =~= a + b.drop_last());
        assert((a + b).last() == b.last());
        match scan_s(a, ro, rd, rtime, t_min, t_max) {
            Some(h) => {
                lemma_scan_append_step(b, ro, rd, rtime, t_min, h.t);
            },
            None => {
                lemma_scan_append_step(b, ro, rd, rtime, t_min, t_max);
            },
        }
    }
}

/// Helper: unfold one step of the scan on a non-empty sequence.
proof fn lemma_scan_append_step(
    b: Seq<Hitable>,
    ro: V3i,
    rd: V3i,
    rtime: int,
    t_min: int,
    w: int,
)
    requires
        b.len() > 0,
    ensures
        scan_s(b, ro, rd, rtime, t_min, w) == (match scan_s(
            b.drop_last(),
            ro,
            rd,
            rtime,
            t_min,
            w,
        ) {
            Some(h) => match hit_s(b.last(), ro, rd, rtime, t_min, h.t) {
                Some(h2) => Some(h2),
                None => Some(h),
            },
            None => match hit_s(b.last(), ro, rd, rtime, t_min, w) {
                Some(h2) => Some(h2),
                None => None,
            },
        }),
{
}

/// The oracle: under `capture`, traversing the tree gives exactly the result
/// of the brute-force closest-hit scan over the tree's primitives, for every
/// query window.
pub proof fn lemma_bvh_hit_is_scan(
    h: Hitable,
    ro: V3i,
    rd: V3i,
    rtime: int,
    t_min: int,
    t_max: int,
)
    requires
        capture(h, ro, rd, rtime),
    ensures
        hit_s(h, ro, rd, rtime, t_min, t_max) == scan_s(members(h), ro, rd, rtime, t_min, t_max),
    decreases h,
{
    reveal(crate::hitable::hit_s);
    match h {
        Hitable::BvhNode { left, right, bbox } => {
            assert(members(h) == members(*left) + members(*right));
            if !box_hit_s(bbox, ro, rd, t_min, t_max) {
                assert(scan_s(members(h), ro, rd, rtime, t_min, t_max) is None);
                assert(hit_s(h, ro, rd, rtime, t_min, t_max) is None);
            } else {
                lemma_bvh_hit_is_scan(*left, ro, rd, rtime, t_min, t_max);
                match hit_s(*left, ro, rd, rtime, t_min, t_max) {
                    Some(lr) => {
                        lemma_bvh_hit_is_scan(*right, ro, rd, rtime, t_min, lr.t);
                        assert(hit_s(h, ro, rd, rtime, t_min, t_max) == (match hit_s(
                            *right,
                            ro,
                            rd,
                            rtime,
                            t_min,
                            lr.t,
                        ) {
                            Some(rr) => Some(rr),
                            None => Some(lr),
                        }));
                    },
                    None => {
                        lemma_bvh_hit_is_scan(*right, ro, rd, rtime, t_min, t_max);
                        assert(hit_s(h, ro, rd, rtime, t_min, t_max) == hit_s(
                            *right,
                            ro,
                            rd,
                            rtime,
                            t_min,
                            t_max,
                        ));
                    },
                }
                lemma_scan_append(members(*left), members(*right), ro, rd, rtime, t_min, t_max);
            }
        },
        _ => {
            assert(members(h) =~= seq![h]);
            assert(members(h).drop_last() =~= Seq::<Hitable>::empty());
            assert(members(h).last() == h);
            assert(members(h).drop_last().len() == 0);
            assert(scan_s(members(h).drop_last(), ro, rd, rtime, t_min, t_max) is None);
            assert(scan_s(members(h), ro, rd, rtime, t_min, t_max) == hit_s(
                h,
                ro,
                rd,
                rtime,
                t_min,
                t_max,
            ));
        },
    }
}

} // verus!
