//! The polymorphic intersectable: spheres (static and moving), triangles,
//! axis-aligned rectangles, the flip/translate/rotate decorators, and the
//! BVH node, all answering the same hit / bounding-box contract.
//!
//! `hit(ray, t_min, t_max)` returns the nearest intersection with t strictly
//! inside (t_min, t_max], or nothing. Numerically degenerate queries (a zero
//! determinant, a zero direction component, a transformed ray or point
//! outside the library's coordinate range) resolve to "no hit" rather than
//! to an undefined value.
use vstd::prelude::*;
use crate::aabb::{box_hit_s, Aabb, BOX_MAX, COORD_MAX, HIT_MAX};
use crate::fixed::{fdiv_s, fmul_s, fsqrt_s, iabs, FX_ONE};
use crate::ray::{spoint_at, Ray};
use crate::triangle::{triangle_box_s, triangle_hit_s, tri_wf, Triangle};
use crate::vec3::{
    bounded3, sadd, scomp, sdot, smax3, smin3, sneg, sscale, ssub, sunit, v, V3i, Vec3,
};

verus! {

/// Query windows (t_min, t_max) stay within this magnitude; it plays the
/// role of "infinity" for whole-scene queries.
pub const T_RANGE_MAX: i128 = 0x1000_0000_0000;

/// Normals reported in hit records are bounded by this magnitude.
pub const NORMAL_MAX: i128 = 0x8000000;

/// Hit points reported in hit records are bounded by this magnitude.
pub const POINT_MAX: i128 = 0x8000_0000_0000_0000;

/// Stored triangle normals (a cross product of two edges) are bounded by
/// this magnitude.
pub const NTRI_MAX: i128 = 0x1_0000_0000_0000;

/// The result of a successful intersection: parametric distance, surface
/// coordinates, hit point, outward normal, the index of the material in the
/// scene's material table, and the ray's time.
#[derive(Clone, Copy, PartialEq, Eq, Structural, Debug)]
pub struct HitRecord {
    pub t: i128,
    pub u: i128,
    pub v: i128,
    pub p: Vec3,
    pub normal: Vec3,
    pub mat: usize,
    pub time: i128,
}

/// The mathematical-integer mirror of a hit record.
pub ghost struct HitS {
    pub t: int,
    pub u: int,
    pub v: int,
    pub p: V3i,
    pub normal: V3i,
    pub mat: int,
    pub time: int,
}

pub open spec fn hrec(r: HitRecord) -> HitS {
    HitS {
        t: r.t as int,
        u: r.u as int,
        v: r.v as int,
        p: v(r.p),
        normal: v(r.normal),
        mat: r.mat as int,
        time: r.time as int,
    }
}

pub open spec fn rec_opt_matches(r: Option<HitRecord>, s: Option<HitS>) -> bool {
    match (r, s) {
        (Some(a), Some(b)) => hrec(a) == b,
        (None, None) => true,
        _ => false,
    }
}

/// The invariants every returned hit record satisfies: t strictly inside the
/// window, bounded hit point and normal, surface coordinates in [0, 1], and
/// the ray's own time.
pub open spec fn rec_ok(rec: HitRecord, r: Ray, t_min: int, t_max: int) -> bool {
    &&& t_min < rec.t as int <= t_max
    &&& bounded3(v(rec.p), POINT_MAX as int)
    &&& bounded3(v(rec.normal), NORMAL_MAX as int)
    &&& 0 <= rec.u as int <= FX_ONE as int
    &&& 0 <= rec.v as int <= FX_ONE as int
    &&& rec.time == r.time
}

pub enum Hitable {
    Sphere { center: Vec3, radius: i128, mat: usize },
    MovingSphere {
        center0: Vec3,
        center1: Vec3,
        time0: i128,
        time1: i128,
        radius: i128,
        mat: usize,
    },
    Tri(Triangle),
    RectXY { x0: i128, x1: i128, y0: i128, y1: i128, k: i128, mat: usize },
    RectXZ { x0: i128, x1: i128, z0: i128, z1: i128, k: i128, mat: usize },
    RectYZ { y0: i128, y1: i128, z0: i128, z1: i128, k: i128, mat: usize },
    Flip(Box<Hitable>),
    Translate { inner: Box<Hitable>, offset: Vec3 },
    RotateY { inner: Box<Hitable>, sin_theta: i128, cos_theta: i128 },
    BvhNode { left: Box<Hitable>, right: Box<Hitable>, bbox: Aabb },
}

impl Clone for Hitable {
    fn clone(&self) -> (r: Hitable)
        ensures
            r == *self,
        decreases *self,
    {
        match self {
            Hitable::Sphere { center, radius, mat } => Hitable::Sphere {
                center: *center,
                radius: *radius,
                mat: *mat,
            },
            Hitable::MovingSphere { center0, center1, time0, time1, radius, mat } => {
                Hitable::MovingSphere {
                    center0: *center0,
                    center1: *center1,
                    time0: *time0,
                    time1: *time1,
                    radius: *radius,
                    mat: *mat,
                }
            },
            Hitable::Tri(t) => Hitable::Tri(*t),
            Hitable::RectXY { x0, x1, y0, y1, k, mat } => Hitable::RectXY {
                x0: *x0,
                x1: *x1,
                y0: *y0,
                y1: *y1,
                k: *k,
                mat: *mat,
            },
            Hitable::RectXZ { x0, x1, z0, z1, k, mat } => Hitable::RectXZ {
                x0: *x0,
                x1: *x1,
                z0: *z0,
                z1: *z1,
                k: *k,
                mat: *mat,
            },
            Hitable::RectYZ { y0, y1, z0, z1, k, mat } => Hitable::RectYZ {
                y0: *y0,
                y1: *y1,
                z0: *z0,
                z1: *z1,
                k: *k,
                mat: *mat,
            },
            Hitable::Flip(inner) => Hitable::Flip(Box::new((**inner).clone())),
            Hitable::Translate { inner, offset } => Hitable::Translate {
                inner: Box::new((**inner).clone()),
                offset: *offset,
            },
            Hitable::RotateY { inner, sin_theta, cos_theta } => Hitable::RotateY {
                inner: Box::new((**inner).clone()),
                sin_theta: *sin_theta,
                cos_theta: *cos_theta,
            },
            Hitable::BvhNode { left, right, bbox } => Hitable::BvhNode {
                left: Box::new((**left).clone()),
                right: Box::new((**right).clone()),
                bbox: *bbox,
            },
        }
    }
}

/// An undecorated, unaggregated primitive.
pub open spec fn base(h: Hitable) -> bool {
    match h {
        Hitable::Sphere { .. } => true,
        Hitable::MovingSphere { .. } => true,
        Hitable::Tri(_) => true,
        Hitable::RectXY { .. } => true,
        Hitable::RectXZ { .. } => true,
        Hitable::RectYZ { .. } => true,
        _ => false,
    }
}

/// Well-formedness: geometry within the coordinate range, positive radii and
/// extents, and decorators applied to plain primitives only (a flipped
/// primitive may additionally be translated or rotated).
pub open spec fn wf(h: Hitable) -> bool
    decreases h,
{
    match h {
        Hitable::Sphere { center, radius, mat } => bounded3(v(center), COORD_MAX as int) && 0
            < radius <= COORD_MAX,
        Hitable::MovingSphere { center0, center1, time0, time1, radius, mat } => bounded3(
            v(center0),
            COORD_MAX as int,
        ) && bounded3(v(center1), COORD_MAX as int) && 0 < radius <= COORD_MAX && iabs(
            time0 as int,
        ) <= COORD_MAX && iabs(time1 as int) <= COORD_MAX && time0 < time1,
        Hitable::Tri(t) => tri_wf(t),
        Hitable::RectXY { x0, x1, y0, y1, k, mat } => iabs(x0 as int) <= COORD_MAX && iabs(
            x1 as int,
        ) <= COORD_MAX && iabs(y0 as int) <= COORD_MAX && iabs(y1 as int) <= COORD_MAX && iabs(
            k as int,
        ) < COORD_MAX && x0 < x1 && y0 < y1,
        Hitable::RectXZ { x0, x1, z0, z1, k, mat } => iabs(x0 as int) <= COORD_MAX && iabs(
            x1 as int,
        ) <= COORD_MAX && iabs(z0 as int) <= COORD_MAX && iabs(z1 as int) <= COORD_MAX && iabs(
            k as int,
        ) < COORD_MAX && x0 < x1 && z0 < z1,
        Hitable::RectYZ { y0, y1, z0, z1, k, mat } => iabs(y0 as int) <= COORD_MAX && iabs(
            y1 as int,
        ) <= COORD_MAX && iabs(z0 as int) <= COORD_MAX && iabs(z1 as int) <= COORD_MAX && iabs(
            k as int,
        ) < COORD_MAX && y0 < y1 && z0 < z1,
        Hitable::Flip(inner) => base(*inner) && wf(*inner),
        Hitable::Translate { inner, offset } => (base(*inner) || (*inner matches Hitable::Flip(_)))
            && wf(*inner) && bounded3(v(offset), COORD_MAX as int),
        Hitable::RotateY { inner, sin_theta, cos_theta } => (base(*inner) || (*inner matches Hitable::Flip(_))) && wf(*inner) && iabs(sin_theta as int) <= FX_ONE && iabs(cos_theta as int) <= FX_ONE,
        Hitable::BvhNode { left, right, bbox } => wf(*left) && wf(*right) && bounded3(
            v(bbox.min),
            BOX_MAX as int,
        ) && bounded3(v(bbox.max), BOX_MAX as int),
    }
}

/// Analytic sphere intersection: the quadratic in t with the smaller valid
/// root preferred; the normal is the unit vector from center to hit point.
pub open spec fn sphere_hit_s(
    center: V3i,
    radius: int,
    mat: int,
    ro: V3i,
    rd: V3i,
    rtime: int,
    t_min: int,
    t_max: int,
) -> Option<HitS> {
    let oc = ssub(ro, center);
    let a = sdot(rd, rd);
    let b = sdot(oc, rd);
    let c = sdot(oc, oc) - fmul_s(radius, radius);
    if a == 0 {
        None
    } else {
        let disc = fmul_s(b, b) - fmul_s(a, c);
        if disc < 0 {
            None
        } else {
            let sd = fsqrt_s(disc);
            let t1 = fdiv_s(-b - sd, a);
            let t2 = fdiv_s(-b + sd, a);
            if t_min < t1 && t1 <= t_max {
                Some(sphere_rec(center, mat, ro, rd, rtime, t1))
            } else if t_min < t2 && t2 <= t_max {
                Some(sphere_rec(center, mat, ro, rd, rtime, t2))
            } else {
                None
            }
        }
    }
}

pub open spec fn sphere_rec(center: V3i, mat: int, ro: V3i, rd: V3i, rtime: int, t: int) -> HitS {
    let p = spoint_at(ro, rd, t);
    HitS { t, u: 0, v: 0, p, normal: sunit(ssub(p, center)), mat, time: rtime }
}

/// A sphere intersection prefers the nearer analytic root: the two roots
/// are ordered, and whenever the nearer one lies strictly inside the query
/// window it is the one returned, with the record built at it (hit point on
/// the ray, unit outward normal from the centre).
pub proof fn lemma_sphere_prefers_nearer_root(
    center: V3i,
    radius: int,
    mat: int,
    ro: V3i,
    rd: V3i,
    rtime: int,
    t_min: int,
    t_max: int,
)
    ensures
        ({
            let oc = ssub(ro, center);
            let a = sdot(rd, rd);
            let b = sdot(oc, rd);
            let c = sdot(oc, oc) - fmul_s(radius, radius);
            let disc = fmul_s(b, b) - fmul_s(a, c);
            let sd = fsqrt_s(disc);
            let t1 = fdiv_s(-b - sd, a);
            let t2 = fdiv_s(-b + sd, a);
            &&& (a != 0 && disc >= 0 ==> t1 <= t2)
            &&& (a != 0 && disc >= 0 && t_min < t1 && t1 <= t_max ==> sphere_hit_s(
                center,
                radius,
                mat,
                ro,
                rd,
                rtime,
                t_min,
                t_max,
            ) == Some(sphere_rec(center, mat, ro, rd, rtime, t1)))
        }),
{
    let oc = ssub(ro, center);
    let a = sdot(rd, rd);
    let b = sdot(oc, rd);
    let c = sdot(oc, oc) - fmul_s(radius, radius);
    let disc = fmul_s(b, b) - fmul_s(a, c);
    if a != 0 && disc >= 0 {
        crate::vec3::lemma_self_dot_nonneg(rd);
        crate::fixed::lemma_sqrt_exists(disc * (FX_ONE as int));
        let sd = fsqrt_s(disc);
        assert(sd >= 0);
        assert((-b - sd) * (FX_ONE as int) <= (-b + sd) * (FX_ONE as int)) by (nonlinear_arith)
            requires
                sd >= 0,
        ;
        crate::fixed::lemma_tdiv_mono(
            (-b - sd) * (FX_ONE as int),
            (-b + sd) * (FX_ONE as int),
            a,
        );
    }
}

/// The centre of a moving sphere at a given time, interpolated linearly
/// between its two anchor positions.
pub open spec fn moving_center_s(c0: V3i, c1: V3i, time0: int, time1: int, rtime: int) -> V3i {
    sadd(c0, sscale(ssub(c1, c0), fdiv_s(rtime - time0, time1 - time0)))
}

/// Axis-aligned rectangle intersection in the plane held at `k` along the
/// fixed axis; `a`-names are the first free axis, `b`-names the second.
pub open spec fn rect_hit_s(
    a0: int,
    a1: int,
    b0: int,
    b1: int,
    k: int,
    normal: V3i,
    mat: int,
    o_fix: int,
    d_fix: int,
    o_a: int,
    d_a: int,
    o_b: int,
    d_b: int,
    p_of: spec_fn(int, int) -> V3i,
    rtime: int,
    t_min: int,
    t_max: int,
) -> Option<HitS> {
    if d_fix == 0 {
        None
    } else {
        let t = fdiv_s(k - o_fix, d_fix);
        if t <= t_min || t > t_max {
            None
        } else {
            let pa = o_a + fmul_s(d_a, t);
            let pb = o_b + fmul_s(d_b, t);
            if pa < a0 || pa > a1 || pb < b0 || pb > b1 {
                None
            } else {
                Some(
                    HitS {
                        t,
                        u: fdiv_s(pa - a0, a1 - a0),
                        v: fdiv_s(pb - b0, b1 - b0),
                        p: p_of(pa, pb),
                        normal,
                        mat,
                        time: rtime,
                    },
                )
            }
        }
    }
}

/// Rotation about the y axis by the angle whose sine and cosine are given.
pub open spec fn rot_y(sin_t: int, cos_t: int, a: V3i) -> V3i {
    V3i {
        x: fmul_s(cos_t, a.x) + fmul_s(sin_t, a.z),
        y: a.y,
        z: -fmul_s(sin_t, a.x) + fmul_s(cos_t, a.z),
    }
}

/// The whole-family intersection function, one arm per variant.
#[verifier::opaque]
pub open spec fn hit_s(h: Hitable, ro: V3i, rd: V3i, rtime: int, t_min: int, t_max: int) -> Option<
    HitS,
>
    decreases h,
{
    match h {
        Hitable::Sphere { center, radius, mat } => sphere_hit_s(
            v(center),
            radius as int,
            mat as int,
            ro,
            rd,
            rtime,
            t_min,
            t_max,
        ),
        Hitable::MovingSphere { center0, center1, time0, time1, radius, mat } => {
            let c = moving_center_s(v(center0), v(center1), time0 as int, time1 as int, rtime);
            if !bounded3(c, 2 * COORD_MAX as int) {
                None
            } else {
                sphere_hit_s(c, radius as int, mat as int, ro, rd, rtime, t_min, t_max)
            }
        },
        Hitable::Tri(t) => triangle_hit_s(t, ro, rd, rtime, t_min, t_max),
        Hitable::RectXY { x0, x1, y0, y1, k, mat } => rect_hit_s(
            x0 as int,
            x1 as int,
            y0 as int,
            y1 as int,
            k as int,
            V3i { x: 0, y: 0, z: FX_ONE as int },
            mat as int,
            ro.z,
            rd.z,
            ro.x,
            rd.x,
            ro.y,
            rd.y,
            |pa: int, pb: int| V3i { x: pa, y: pb, z: k as int },
            rtime,
            t_min,
            t_max,
        ),
        Hitable::RectXZ { x0, x1, z0, z1, k, mat } => rect_hit_s(
            x0 as int,
            x1 as int,
            z0 as int,
            z1 as int,
            k as int,
            V3i { x: 0, y: FX_ONE as int, z: 0 },
            mat as int,
            ro.y,
            rd.y,
            ro.x,
            rd.x,
            ro.z,
            rd.z,
            |pa: int, pb: int| V3i { x: pa, y: k as int, z: pb },
            rtime,
            t_min,
            t_max,
        ),
        Hitable::RectYZ { y0, y1, z0, z1, k, mat } => rect_hit_s(
            y0 as int,
            y1 as int,
            z0 as int,
            z1 as int,
            k as int,
            V3i { x: FX_ONE as int, y: 0, z: 0 },
            mat as int,
            ro.x,
            rd.x,
            ro.y,
            rd.y,
            ro.z,
            rd.z,
            |pa: int, pb: int| V3i { x: k as int, y: pa, z: pb },
            rtime,
            t_min,
            t_max,
        ),
        Hitable::Flip(inner) => match hit_s(*inner, ro, rd, rtime, t_min, t_max) {
            Some(rec) => Some(HitS { normal: sneg(rec.normal), ..rec }),
            None => None,
        },
        Hitable::Translate { inner, offset } => {
            let o2 = ssub(ro, v(offset));
            if !bounded3(o2, HIT_MAX as int) {
                None
            } else {
                match hit_s(*inner, o2, rd, rtime, t_min, t_max) {
                    Some(rec) => {
                        let p2 = sadd(rec.p, v(offset));
                        if !bounded3(p2, POINT_MAX as int) {
                            None
                        } else {
                            Some(HitS { p: p2, ..rec })
                        }
                    },
                    None => None,
                }
            }
        },
        Hitable::RotateY { inner, sin_theta, cos_theta } => {
            let o2 = rot_y(-(sin_theta as int), cos_theta as int, ro);
            let d2 = rot_y(-(sin_theta as int), cos_theta as int, rd);
            if !bounded3(o2, HIT_MAX as int) || !bounded3(d2, HIT_MAX as int) {
                None
            } else {
                match hit_s(*inner, o2, d2, rtime, t_min, t_max) {
                    Some(rec) => {
                        let p2 = rot_y(sin_theta as int, cos_theta as int, rec.p);
                        let n2 = rot_y(sin_theta as int, cos_theta as int, rec.normal);
                        if !bounded3(p2, POINT_MAX as int) || !bounded3(n2, NORMAL_MAX as int) {
                            None
                        } else {
                            Some(HitS { p: p2, normal: n2, ..rec })
                        }
                    },
                    None => None,
                }
            }
        },
        Hitable::BvhNode { left, right, bbox } => {
            if !box_hit_s(bbox, ro, rd, t_min, t_max) {
                None
            } else {
                match hit_s(*left, ro, rd, rtime, t_min, t_max) {
                    Some(lr) => match hit_s(*right, ro, rd, rtime, t_min, lr.t) {
                        Some(rr) => Some(rr),
                        None => Some(lr),
                    },
                    None => hit_s(*right, ro, rd, rtime, t_min, t_max),
                }
            }
        },
    }
}

/// The spatial extent over a time interval, mirrored by `bounding_box`.
/// A moving sphere queried outside its motion span has no box; everything
/// else always has one.
pub open spec fn bbox_s(h: Hitable, t0: int, t1: int) -> Option<Aabb>
    decreases h,
{
    match h {
        Hitable::Sphere { center, radius, mat } => Some(
            Aabb {
                min: Vec3 {
                    x: (center.x - radius) as i128,
                    y: (center.y - radius) as i128,
                    z: (center.z - radius) as i128,
                },
                max: Vec3 {
                    x: (center.x + radius) as i128,
                    y: (center.y + radius) as i128,
                    z: (center.z + radius) as i128,
                },
            },
        ),
        Hitable::MovingSphere { center0, center1, time0, time1, radius, mat } => {
            if !(time0 <= t0 && t0 <= t1 && t1 <= time1) {
                None
            } else {
                let ca = moving_center_s(v(center0), v(center1), time0 as int, time1 as int, t0);
                let cb = moving_center_s(v(center0), v(center1), time0 as int, time1 as int, t1);
                Some(
                    Aabb {
                        min: Vec3 {
                            x: (if ca.x <= cb.x { ca.x } else { cb.x } - radius) as i128,
                            y: (if ca.y <= cb.y { ca.y } else { cb.y } - radius) as i128,
                            z: (if ca.z <= cb.z { ca.z } else { cb.z } - radius) as i128,
                        },
                        max: Vec3 {
                            x: (if ca.x >= cb.x { ca.x } else { cb.x } + radius) as i128,
                            y: (if ca.y >= cb.y { ca.y } else { cb.y } + radius) as i128,
                            z: (if ca.z >= cb.z { ca.z } else { cb.z } + radius) as i128,
                        },
                    },
                )
            }
        },
        Hitable::Tri(t) => Some(triangle_box_s(t)),
        Hitable::RectXY { x0, x1, y0, y1, k, mat } => Some(
            Aabb {
                min: Vec3 { x: x0, y: y0, z: (k - 1) as i128 },
                max: Vec3 { x: x1, y: y1, z: (k + 1) as i128 },
            },
        ),
        Hitable::RectXZ { x0, x1, z0, z1, k, mat } => Some(
            Aabb {
                min: Vec3 { x: x0, y: (k - 1) as i128, z: z0 },
                max: Vec3 { x: x1, y: (k + 1) as i128, z: z1 },
            },
        ),
        Hitable::RectYZ { y0, y1, z0, z1, k, mat } => Some(
            Aabb {
                min: Vec3 { x: (k - 1) as i128, y: y0, z: z0 },
                max: Vec3 { x: (k + 1) as i128, y: y1, z: z1 },
            },
        ),
        Hitable::Flip(inner) => bbox_s(*inner, t0, t1),
        Hitable::Translate { inner, offset } => match bbox_s(*inner, t0, t1) {
            Some(b) => Some(
                Aabb {
                    min: Vec3 {
                        x: (b.min.x + offset.x) as i128,
                        y: (b.min.y + offset.y) as i128,
                        z: (b.min.z + offset.z) as i128,
                    },
                    max: Vec3 {
                        x: (b.max.x + offset.x) as i128,
                        y: (b.max.y + offset.y) as i128,
                        z: (b.max.z + offset.z) as i128,
                    },
                },
            ),
            None => None,
        },
        Hitable::RotateY { inner, sin_theta, cos_theta } => match bbox_s(*inner, t0, t1) {
            Some(b) => {
                let m = rot_extent(b);
                Some(
                    Aabb {
                        min: Vec3 { x: (-m) as i128, y: b.min.y, z: (-m) as i128 },
                        max: Vec3 { x: m as i128, y: b.max.y, z: m as i128 },
                    },
                )
            },
            None => None,
        },
        Hitable::BvhNode { left, right, bbox } => Some(bbox),
    }
}

/// A conservative half-extent for a box rotated about the y axis: twice the
/// largest horizontal corner magnitude.
pub open spec fn rot_extent(b: Aabb) -> int {
    let m1 = if iabs(b.min.x as int) >= iabs(b.max.x as int) {
        iabs(b.min.x as int)
    } else {
        iabs(b.max.x as int)
    };
    let m2 = if iabs(b.min.z as int) >= iabs(b.max.z as int) {
        iabs(b.min.z as int)
    } else {
        iabs(b.max.z as int)
    };
    if m1 >= m2 {
        2 * m1
    } else {
        2 * m2
    }
}

/// The self-boxed hitables whose boxes stay within a few coordinate ranges;
/// decorators accept only these.
pub open spec fn smallbox(h: Hitable) -> bool {
    base(h) || (h matches Hitable::Flip(inner) && base(*inner))
}

fn within(a: &Vec3, bd: i128) -> (r: bool)
    requires
        0 <= bd,
    ensures
        r == bounded3(v(*a), bd as int),
{
    -bd <= a.x && a.x <= bd && -bd <= a.y && a.y <= bd && -bd <= a.z && a.z <= bd
}

fn iabs_e(x: i128) -> (r: i128)
    requires
        -i128::MAX <= x,
    ensures
        r as int == iabs(x as int),
{
    if x < 0 {
        -x
    } else {
        x
    }
}

/// Builds the record for a sphere hit at parameter t: hit point along the
/// ray, unit outward normal from the centre.
fn mk_sphere_rec(center: &Vec3, mat: usize, r: &Ray, t: i128) -> (rec: HitRecord)
    requires
        bounded3(v(*center), 2 * COORD_MAX as int),
        bounded3(v(r.origin), HIT_MAX as int),
        bounded3(v(r.direction), HIT_MAX as int),
        iabs(t as int) <= T_RANGE_MAX as int,
    ensures
        hrec(rec) == sphere_rec(v(*center), mat as int, v(r.origin), v(r.direction), r.time as int, t as int),
        bounded3(v(rec.p), POINT_MAX as int),
        bounded3(v(rec.normal), NORMAL_MAX as int),
        rec.t == t && rec.u == 0 && rec.v == 0 && rec.mat == mat && rec.time == r.time,
{
    proof {
        crate::vec3::lemma_scale_safe(
            v(r.direction),
            t as int,
            HIT_MAX as int,
            T_RANGE_MAX as int,
        );
    }
    let p = r.point_at_parameter(t);
    proof {
        crate::vec3::lemma_unit_bounded(ssub(v(p), v(*center)));
    }
    let pc = p.sub(center);
    let normal = pc.unit();
    HitRecord { t, u: 0, v: 0, p, normal, mat, time: r.time }
}

/// Sphere intersection about an explicit centre (shared by the static and
/// the moving sphere).
fn hit_sphere(center: &Vec3, radius: i128, mat: usize, r: &Ray, t_min: i128, t_max: i128) -> (res:
    Option<HitRecord>)
    requires
        bounded3(v(*center), 2 * COORD_MAX as int),
        0 < radius <= COORD_MAX,
        bounded3(v(r.origin), HIT_MAX as int),
        bounded3(v(r.direction), HIT_MAX as int),
        iabs(t_min as int) <= T_RANGE_MAX as int,
        iabs(t_max as int) <= T_RANGE_MAX as int,
    ensures
        rec_opt_matches(
            res,
            sphere_hit_s(
                v(*center),
                radius as int,
                mat as int,
                v(r.origin),
                v(r.direction),
                r.time as int,
                t_min as int,
                t_max as int,
            ),
        ),
        res matches Some(rec) ==> rec_ok(rec, *r, t_min as int, t_max as int) && rec.mat == mat,
{
    proof {
        crate::vec3::lemma_dot_safe(v(r.direction), v(r.direction), HIT_MAX as int, HIT_MAX as int);
        crate::vec3::lemma_dot_safe(
            ssub(v(r.origin), v(*center)),
            v(r.direction),
            0x1_8000_0000,
            HIT_MAX as int,
        );
        crate::vec3::lemma_dot_safe(
            ssub(v(r.origin), v(*center)),
            ssub(v(r.origin), v(*center)),
            0x1_8000_0000,
            0x1_8000_0000,
        );
        crate::fixed::lemma_fmul_bound(radius as int, radius as int, COORD_MAX as int, COORD_MAX as int);
        crate::vec3::lemma_self_dot_nonneg(v(r.direction));
    }
    let oc = r.origin.sub(center);
    let a = r.direction.dot(&r.direction);
    let b = oc.dot(&r.direction);
    let c = oc.dot(&oc) - crate::fixed::fx_mul(radius, radius);
    if a == 0 {
        return None;
    }
    proof {
        crate::fixed::lemma_fmul_bound(b as int, b as int, 0x10_0000_0000_0000, 0x10_0000_0000_0000);
        crate::fixed::lemma_fmul_bound(a as int, c as int, 0x4_0000_0000_0000, 0x40_0000_0000_0000);
    }
    let disc = crate::fixed::fx_mul(b, b) - crate::fixed::fx_mul(a, c);
    if disc < 0 {
        return None;
    }
    let sd = crate::fixed::fx_sqrt(disc);
    proof {
        assert((sd as int) <= 0x1_0000_0000_0000_0000) by (nonlinear_arith)
            requires
                crate::fixed::is_sqrt((disc as int) * (FX_ONE as int), sd as int),
                (disc as int) * (FX_ONE as int) <= 0x1_0000_0000_0000_0000 * 0x1_0000_0000_0000_0000,
        ;
    }
    let t1 = crate::fixed::fx_div(-b - sd, a);
    if t_min < t1 && t1 <= t_max {
        return Some(mk_sphere_rec(center, mat, r, t1));
    }
    let t2 = crate::fixed::fx_div(-b + sd, a);
    if t_min < t2 && t2 <= t_max {
        return Some(mk_sphere_rec(center, mat, r, t2));
    }
    None
}

impl Hitable {
    /// The nearest intersection of the ray with this hitable, with t
    /// strictly inside (t_min, t_max], or nothing.
    pub fn hit(&self, r: &Ray, t_min: i128, t_max: i128) -> (res: Option<HitRecord>)
        requires
            wf(*self),
            bounded3(v(r.origin), HIT_MAX as int),
            bounded3(v(r.direction), HIT_MAX as int),
            iabs(r.time as int) <= COORD_MAX as int,
            iabs(t_min as int) <= T_RANGE_MAX as int,
            iabs(t_max as int) <= T_RANGE_MAX as int,
        ensures
            rec_opt_matches(
                res,
                hit_s(*self, v(r.origin), v(r.direction), r.time as int, t_min as int, t_max as int),
            ),
            res matches Some(rec) ==> rec_ok(rec, *r, t_min as int, t_max as int),
        decreases *self,
    {
        proof {
            reveal(hit_s);
        }
        match self {
            Hitable::Sphere { center, radius, mat } => hit_sphere(
                center,
                *radius,
                *mat,
                r,
                t_min,
                t_max,
            ),
            Hitable::MovingSphere { center0, center1, time0, time1, radius, mat } => {
                proof {
                    crate::fixed::lemma_mul_abs(
                        r.time as int - (*time0 as int),
                        FX_ONE as int,
                    );
                    crate::fixed::lemma_tdiv_bound(
                        (r.time as int - (*time0 as int)) * (FX_ONE as int),
                        *time1 as int - (*time0 as int),
                        (2 * COORD_MAX as int) * (FX_ONE as int),
                    );
                    crate::vec3::lemma_scale_safe(
                        ssub(v(*center1), v(*center0)),
                        fdiv_s(r.time as int - (*time0 as int), *time1 as int - (*time0 as int)),
                        2 * COORD_MAX as int,
                        (2 * COORD_MAX as int) * (FX_ONE as int),
                    );
                }
                let cd = center1.sub(center0);
                let f = crate::fixed::fx_div(r.time - *time0, *time1 - *time0);
                let c = center0.add(&cd.scale(f));
                if !within(&c, 2 * COORD_MAX) {
                    None
                } else {
                    hit_sphere(&c, *radius, *mat, r, t_min, t_max)
                }
            },
            Hitable::Tri(t) => t.hit(r, t_min, t_max),
            Hitable::RectXY { x0, x1, y0, y1, k, mat } => hit_rect_xy(
                *x0,
                *x1,
                *y0,
                *y1,
                *k,
                *mat,
                r,
                t_min,
                t_max,
            ),
            Hitable::RectXZ { x0, x1, z0, z1, k, mat } => hit_rect_xz(
                *x0,
                *x1,
                *z0,
                *z1,
                *k,
                *mat,
                r,
                t_min,
                t_max,
            ),
            Hitable::RectYZ { y0, y1, z0, z1, k, mat } => hit_rect_yz(
                *y0,
                *y1,
                *z0,
                *z1,
                *k,
                *mat,
                r,
                t_min,
                t_max,
            ),
            Hitable::Flip(inner) => match inner.hit(r, t_min, t_max) {
                Some(rec) => Some(
                    HitRecord {
                        t: rec.t,
                        u: rec.u,
                        v: rec.v,
                        p: rec.p,
                        normal: rec.normal.neg(),
                        mat: rec.mat,
                        time: rec.time,
                    },
                ),
                None => None,
            },
            Hitable::Translate { inner, offset } => {
                let o2 = r.origin.sub(offset);
                if !within(&o2, HIT_MAX) {
                    None
                } else {
                    let r2 = Ray { origin: o2, direction: r.direction, time: r.time };
                    match inner.hit(&r2, t_min, t_max) {
                        Some(rec) => {
                            let p2 = rec.p.add(offset);
                            if !within(&p2, POINT_MAX) {
                                None
                            } else {
                                Some(
                                    HitRecord {
                                        t: rec.t,
                                        u: rec.u,
                                        v: rec.v,
                                        p: p2,
                                        normal: rec.normal,
                                        mat: rec.mat,
                                        time: rec.time,
                                    },
                                )
                            }
                        },
                        None => None,
                    }
                }
            },
            Hitable::RotateY { inner, sin_theta, cos_theta } => {
                let neg_sin: i128 = -*sin_theta;
                let o2 = rot_apply(*cos_theta, neg_sin, &r.origin, HIT_MAX);
                let d2 = rot_apply(*cos_theta, neg_sin, &r.direction, HIT_MAX);
                if !within(&o2, HIT_MAX) || !within(&d2, HIT_MAX) {
                    None
                } else {
                    let r2 = Ray { origin: o2, direction: d2, time: r.time };
                    match inner.hit(&r2, t_min, t_max) {
                        Some(rec) => {
                            let p2 = rot_apply(*cos_theta, *sin_theta, &rec.p, POINT_MAX);
                            let n2 = rot_apply(*cos_theta, *sin_theta, &rec.normal, NORMAL_MAX);
                            if !within(&p2, POINT_MAX) || !within(&n2, NORMAL_MAX) {
                                None
                            } else {
                                Some(
                                    HitRecord {
                                        t: rec.t,
                                        u: rec.u,
                                        v: rec.v,
                                        p: p2,
                                        normal: n2,
                                        mat: rec.mat,
                                        time: rec.time,
                                    },
                                )
                            }
                        },
                        None => None,
                    }
                }
            },
            Hitable::BvhNode { left, right, bbox } => {
                if !bbox.hit(&r.origin, &r.direction, t_min, t_max) {
                    None
                } else {
                    match left.hit(r, t_min, t_max) {
                        Some(lr) => match right.hit(r, t_min, lr.t) {
                            Some(rr) => Some(rr),
                            None => Some(lr),
                        },
                        None => right.hit(r, t_min, t_max),
                    }
                }
            },
        }
    }
}

fn hit_rect_xy(
    x0: i128,
    x1: i128,
    y0: i128,
    y1: i128,
    k: i128,
    mat: usize,
    r: &Ray,
    t_min: i128,
    t_max: i128,
) -> (res: Option<HitRecord>)
    requires
        iabs(x0 as int) <= COORD_MAX && iabs(x1 as int) <= COORD_MAX,
        iabs(y0 as int) <= COORD_MAX && iabs(y1 as int) <= COORD_MAX,
        iabs(k as int) < COORD_MAX,
        x0 < x1 && y0 < y1,
        bounded3(v(r.origin), HIT_MAX as int),
        bounded3(v(r.direction), HIT_MAX as int),
        iabs(t_min as int) <= T_RANGE_MAX as int,
        iabs(t_max as int) <= T_RANGE_MAX as int,
    ensures
        rec_opt_matches(
            res,
            rect_hit_s(
                x0 as int,
                x1 as int,
                y0 as int,
                y1 as int,
                k as int,
                V3i { x: 0, y: 0, z: FX_ONE as int },
                mat as int,
                v(r.origin).z,
                v(r.direction).z,
                v(r.origin).x,
                v(r.direction).x,
                v(r.origin).y,
                v(r.direction).y,
                |pa: int, pb: int| V3i { x: pa, y: pb, z: k as int },
                r.time as int,
                t_min as int,
                t_max as int,
            ),
        ),
        res matches Some(rec) ==> rec_ok(rec, *r, t_min as int, t_max as int) && rec.mat == mat,
{
    if r.direction.z == 0 {
        return None;
    }
    let t = crate::fixed::fx_div(k - r.origin.z, r.direction.z);
    if t <= t_min || t > t_max {
        return None;
    }
    proof {
        crate::fixed::lemma_fmul_bound(
            r.direction.x as int,
            t as int,
            HIT_MAX as int,
            T_RANGE_MAX as int,
        );
        crate::fixed::lemma_fmul_bound(
            r.direction.y as int,
            t as int,
            HIT_MAX as int,
            T_RANGE_MAX as int,
        );
    }
    let pa = r.origin.x + crate::fixed::fx_mul(r.direction.x, t);
    let pb = r.origin.y + crate::fixed::fx_mul(r.direction.y, t);
    if pa < x0 || pa > x1 || pb < y0 || pb > y1 {
        return None;
    }
    proof {
        crate::fixed::lemma_fdiv_unit(pa as int - x0 as int, x1 as int - x0 as int);
        crate::fixed::lemma_fdiv_unit(pb as int - y0 as int, y1 as int - y0 as int);
    }
    let u = crate::fixed::fx_div(pa - x0, x1 - x0);
    let vv = crate::fixed::fx_div(pb - y0, y1 - y0);
    Some(
        HitRecord {
            t,
            u,
            v: vv,
            p: Vec3 { x: pa, y: pb, z: k },
            normal: Vec3 { x: 0, y: 0, z: FX_ONE },
            mat,
            time: r.time,
        },
    )
}

fn hit_rect_xz(
    x0: i128,
    x1: i128,
    z0: i128,
    z1: i128,
    k: i128,
    mat: usize,
    r: &Ray,
    t_min: i128,
    t_max: i128,
) -> (res: Option<HitRecord>)
    requires
        iabs(x0 as int) <= COORD_MAX && iabs(x1 as int) <= COORD_MAX,
        iabs(z0 as int) <= COORD_MAX && iabs(z1 as int) <= COORD_MAX,
        iabs(k as int) < COORD_MAX,
        x0 < x1 && z0 < z1,
        bounded3(v(r.origin), HIT_MAX as int),
        bounded3(v(r.direction), HIT_MAX as int),
        iabs(t_min as int) <= T_RANGE_MAX as int,
        iabs(t_max as int) <= T_RANGE_MAX as int,
    ensures
        rec_opt_matches(
            res,
            rect_hit_s(
                x0 as int,
                x1 as int,
                z0 as int,
                z1 as int,
                k as int,
                V3i { x: 0, y: FX_ONE as int, z: 0 },
                mat as int,
                v(r.origin).y,
                v(r.direction).y,
                v(r.origin).x,
                v(r.direction).x,
                v(r.origin).z,
                v(r.direction).z,
                |pa: int, pb: int| V3i { x: pa, y: k as int, z: pb },
                r.time as int,
                t_min as int,
                t_max as int,
            ),
        ),
        res matches Some(rec) ==> rec_ok(rec, *r, t_min as int, t_max as int) && rec.mat == mat,
{
    if r.direction.y == 0 {
        return None;
    }
    let t = crate::fixed::fx_div(k - r.origin.y, r.direction.y);
    if t <= t_min || t > t_max {
        return None;
    }
    proof {
        crate::fixed::lemma_fmul_bound(
            r.direction.x as int,
            t as int,
            HIT_MAX as int,
            T_RANGE_MAX as int,
        );
        crate::fixed::lemma_fmul_bound(
            r.direction.z as int,
            t as int,
            HIT_MAX as int,
            T_RANGE_MAX as int,
        );
    }
    let pa = r.origin.x + crate::fixed::fx_mul(r.direction.x, t);
    let pb = r.origin.z + crate::fixed::fx_mul(r.direction.z, t);
    if pa < x0 || pa > x1 || pb < z0 || pb > z1 {
        return None;
    }
    proof {
        crate::fixed::lemma_fdiv_unit(pa as int - x0 as int, x1 as int - x0 as int);
        crate::fixed::lemma_fdiv_unit(pb as int - z0 as int, z1 as int - z0 as int);
    }
    let u = crate::fixed::fx_div(pa - x0, x1 - x0);
    let vv = crate::fixed::fx_div(pb - z0, z1 - z0);
    Some(
        HitRecord {
            t,
            u,
            v: vv,
            p: Vec3 { x: pa, y: k, z: pb },
            normal: Vec3 { x: 0, y: FX_ONE, z: 0 },
            mat,
            time: r.time,
        },
    )
}

fn hit_rect_yz(
    y0: i128,
    y1: i128,
    z0: i128,
    z1: i128,
    k: i128,
    mat: usize,
    r: &Ray,
    t_min: i128,
    t_max: i128,
) -> (res: Option<HitRecord>)
    requires
        iabs(y0 as int) <= COORD_MAX && iabs(y1 as int) <= COORD_MAX,
        iabs(z0 as int) <= COORD_MAX && iabs(z1 as int) <= COORD_MAX,
        iabs(k as int) < COORD_MAX,
        y0 < y1 && z0 < z1,
        bounded3(v(r.origin), HIT_MAX as int),
        bounded3(v(r.direction), HIT_MAX as int),
        iabs(t_min as int) <= T_RANGE_MAX as int,
        iabs(t_max as int) <= T_RANGE_MAX as int,
    ensures
        rec_opt_matches(
            res,
            rect_hit_s(
                y0 as int,
                y1 as int,
                z0 as int,
                z1 as int,
                k as int,
                V3i { x: FX_ONE as int, y: 0, z: 0 },
                mat as int,
                v(r.origin).x,
                v(r.direction).x,
                v(r.origin).y,
                v(r.direction).y,
                v(r.origin).z,
                v(r.direction).z,
                |pa: int, pb: int| V3i { x: k as int, y: pa, z: pb },
                r.time as int,
                t_min as int,
                t_max as int,
            ),
        ),
        res matches Some(rec) ==> rec_ok(rec, *r, t_min as int, t_max as int) && rec.mat == mat,
{
    if r.direction.x == 0 {
        return None;
    }
    let t = crate::fixed::fx_div(k - r.origin.x, r.direction.x);
    if t <= t_min || t > t_max {
        return None;
    }
    proof {
        crate::fixed::lemma_fmul_bound(
            r.direction.y as int,
            t as int,
            HIT_MAX as int,
            T_RANGE_MAX as int,
        );
        crate::fixed::lemma_fmul_bound(
            r.direction.z as int,
            t as int,
            HIT_MAX as int,
            T_RANGE_MAX as int,
        );
    }
    let pa = r.origin.y + crate::fixed::fx_mul(r.direction.y, t);
    let pb = r.origin.z + crate::fixed::fx_mul(r.direction.z, t);
    if pa < y0 || pa > y1 || pb < z0 || pb > z1 {
        return None;
    }
    proof {
        crate::fixed::lemma_fdiv_unit(pa as int - y0 as int, y1 as int - y0 as int);
        crate::fixed::lemma_fdiv_unit(pb as int - z0 as int, z1 as int - z0 as int);
    }
    let u = crate::fixed::fx_div(pa - y0, y1 - y0);
    let vv = crate::fixed::fx_div(pb - z0, z1 - z0);
    Some(
        HitRecord {
            t,
            u,
            v: vv,
            p: Vec3 { x: k, y: pa, z: pb },
            normal: Vec3 { x: FX_ONE, y: 0, z: 0 },
            mat,
            time: r.time,
        },
    )
}

impl Hitable {
    /// The spatial extent of the hitable over the time interval [t0, t1].
    #[verifier::rlimit(100)]
    pub fn bounding_box(&self, t0: i128, t1: i128) -> (res: Option<Aabb>)
        requires
            wf(*self),
            iabs(t0 as int) <= COORD_MAX,
            iabs(t1 as int) <= COORD_MAX,
        ensures
            res == bbox_s(*self, t0 as int, t1 as int),
            res matches Some(b) ==> bounded3(v(b.min), BOX_MAX as int) && bounded3(
                v(b.max),
                BOX_MAX as int,
            ),
            res matches Some(b) ==> (smallbox(*self) ==> bounded3(v(b.min), 4 * COORD_MAX as int)
                && bounded3(v(b.max), 4 * COORD_MAX as int)),
        decreases *self,
    {
        match self {
            Hitable::Sphere { center, radius, mat } => Some(
                Aabb {
                    min: Vec3 {
                        x: center.x - *radius,
                        y: center.y - *radius,
                        z: center.z - *radius,
                    },
                    max: Vec3 {
                        x: center.x + *radius,
                        y: center.y + *radius,
                        z: center.z + *radius,
                    },
                },
            ),
            Hitable::MovingSphere { center0, center1, time0, time1, radius, mat } => {
                if !(*time0 <= t0 && t0 <= t1 && t1 <= *time1) {
                    None
                } else {
                    proof {
                        crate::fixed::lemma_fdiv_unit(
                            t0 as int - (*time0 as int),
                            *time1 as int - (*time0 as int),
                        );
                        crate::fixed::lemma_fdiv_unit(
                            t1 as int - (*time0 as int),
                            *time1 as int - (*time0 as int),
                        );
                        crate::vec3::lemma_scale_safe(
                            ssub(v(*center1), v(*center0)),
                            fdiv_s(t0 as int - (*time0 as int), *time1 as int - (*time0 as int)),
                            2 * COORD_MAX as int,
                            FX_ONE as int,
                        );
                        crate::vec3::lemma_scale_safe(
                            ssub(v(*center1), v(*center0)),
                            fdiv_s(t1 as int - (*time0 as int), *time1 as int - (*time0 as int)),
                            2 * COORD_MAX as int,
                            FX_ONE as int,
                        );
                    }
                    let cd = center1.sub(center0);
                    let fa = crate::fixed::fx_div(t0 - *time0, *time1 - *time0);
                    let fb = crate::fixed::fx_div(t1 - *time0, *time1 - *time0);
                    let ca = center0.add(&cd.scale(fa));
                    let cb = center0.add(&cd.scale(fb));
                    let mn = ca.vmin(&cb);
                    let mx = ca.vmax(&cb);
                    Some(
                        Aabb {
                            min: Vec3 {
                                x: mn.x - *radius,
                                y: mn.y - *radius,
                                z: mn.z - *radius,
                            },
                            max: Vec3 {
                                x: mx.x + *radius,
                                y: mx.y + *radius,
                                z: mx.z + *radius,
                            },
                        },
                    )
                }
            },
            Hitable::Tri(t) => t.bounding_box(t0, t1),
            Hitable::RectXY { x0, x1, y0, y1, k, mat } => Some(
                Aabb {
                    min: Vec3 { x: *x0, y: *y0, z: *k - 1 },
                    max: Vec3 { x: *x1, y: *y1, z: *k + 1 },
                },
            ),
            Hitable::RectXZ { x0, x1, z0, z1, k, mat } => Some(
                Aabb {
                    min: Vec3 { x: *x0, y: *k - 1, z: *z0 },
                    max: Vec3 { x: *x1, y: *k + 1, z: *z1 },
                },
            ),
            Hitable::RectYZ { y0, y1, z0, z1, k, mat } => Some(
                Aabb {
                    min: Vec3 { x: *k - 1, y: *y0, z: *z0 },
                    max: Vec3 { x: *k + 1, y: *y1, z: *z1 },
                },
            ),
            Hitable::Flip(inner) => inner.bounding_box(t0, t1),
            Hitable::Translate { inner, offset } => {
                proof {
                    assert(smallbox(**inner)) by {
                        reveal_with_fuel(wf, 3);
                    }
                }
                match inner.bounding_box(t0, t1) {
                Some(b) => Some(
                    Aabb {
                        min: Vec3 {
                            x: b.min.x + offset.x,
                            y: b.min.y + offset.y,
                            z: b.min.z + offset.z,
                        },
                        max: Vec3 {
                            x: b.max.x + offset.x,
                            y: b.max.y + offset.y,
                            z: b.max.z + offset.z,
                        },
                    },
                ),
                None => None,
            }
            },
            Hitable::RotateY { inner, sin_theta, cos_theta } => {
                proof {
                    assert(smallbox(**inner)) by {
                        reveal_with_fuel(wf, 3);
                    }
                }
                match inner.bounding_box(t0, t1) {
                Some(b) => {
                    let m1 = iabs_e(b.min.x);
                    let m2 = iabs_e(b.max.x);
                    let m3 = iabs_e(b.min.z);
                    let m4 = iabs_e(b.max.z);
                    let ma = if m1 >= m2 { m1 } else { m2 };
                    let mb = if m3 >= m4 { m3 } else { m4 };
                    let m = if ma >= mb { 2 * ma } else { 2 * mb };
                    Some(
                        Aabb {
                            min: Vec3 { x: -m, y: b.min.y, z: -m },
                            max: Vec3 { x: m, y: b.max.y, z: m },
                        },
                    )
                },
                None => None,
            }
            },
            Hitable::BvhNode { left, right, bbox } => Some(*bbox),
        }
    }
}

/// The six axis-aligned faces of the box spanning `p0` to `p1`, as a flat
/// collection: each pair of opposite walls is one plain rectangle and one
/// with its normal flipped to face outward.
pub fn cube(p0: Vec3, p1: Vec3, mat: usize) -> (r: Vec<Hitable>)
    requires
        bounded3(v(p0), COORD_MAX as int - 1),
        bounded3(v(p1), COORD_MAX as int - 1),
        p0.x < p1.x && p0.y < p1.y && p0.z < p1.z,
    ensures
        r@.len() == 6,
        forall|i: int| 0 <= i < 6 ==> wf(#[trigger] r@[i]),
        r@[0] == (Hitable::RectXY { x0: p0.x, x1: p1.x, y0: p0.y, y1: p1.y, k: p1.z, mat }),
        r@[1] == (Hitable::Flip(
            Box::new(Hitable::RectXY { x0: p0.x, x1: p1.x, y0: p0.y, y1: p1.y, k: p0.z, mat }),
        )),
        r@[2] == (Hitable::RectXZ { x0: p0.x, x1: p1.x, z0: p0.z, z1: p1.z, k: p1.y, mat }),
        r@[3] == (Hitable::Flip(
            Box::new(Hitable::RectXZ { x0: p0.x, x1: p1.x, z0: p0.z, z1: p1.z, k: p0.y, mat }),
        )),
        r@[4] == (Hitable::RectYZ { y0: p0.y, y1: p1.y, z0: p0.z, z1: p1.z, k: p1.x, mat }),
        r@[5] == (Hitable::Flip(
            Box::new(Hitable::RectYZ { y0: p0.y, y1: p1.y, z0: p0.z, z1: p1.z, k: p0.x, mat }),
        )),
{
    let mut faces: Vec<Hitable> = Vec::new();
    faces.push(Hitable::RectXY { x0: p0.x, x1: p1.x, y0: p0.y, y1: p1.y, k: p1.z, mat });
    faces.push(
        Hitable::Flip(
            Box::new(Hitable::RectXY { x0: p0.x, x1: p1.x, y0: p0.y, y1: p1.y, k: p0.z, mat }),
        ),
    );
    faces.push(Hitable::RectXZ { x0: p0.x, x1: p1.x, z0: p0.z, z1: p1.z, k: p1.y, mat });
    faces.push(
        Hitable::Flip(
            Box::new(Hitable::RectXZ { x0: p0.x, x1: p1.x, z0: p0.z, z1: p1.z, k: p0.y, mat }),
        ),
    );
    faces.push(Hitable::RectYZ { y0: p0.y, y1: p1.y, z0: p0.z, z1: p1.z, k: p1.x, mat });
    faces.push(
        Hitable::Flip(
            Box::new(Hitable::RectYZ { y0: p0.y, y1: p1.y, z0: p0.z, z1: p1.z, k: p0.x, mat }),
        ),
    );
    proof {
        assert forall|i: int| 0 <= i < 6 implies wf(#[trigger] faces@[i]) by {
            reveal_with_fuel(wf, 3);
        }
    }
    faces
}

/// Applies the y-axis rotation with the given cosine and sine to a vector
/// whose components are bounded by `bd`.
fn rot_apply(cos_t: i128, sin_t: i128, a: &Vec3, bd: i128) -> (res: Vec3)
    requires
        iabs(cos_t as int) <= FX_ONE,
        iabs(sin_t as int) <= FX_ONE,
        0 <= bd <= POINT_MAX,
        bounded3(v(*a), bd as int),
    ensures
        v(res) == rot_y(sin_t as int, cos_t as int, v(*a)),
{
    proof {
        crate::fixed::lemma_fmul_bound(cos_t as int, a.x as int, FX_ONE as int, bd as int);
        crate::fixed::lemma_fmul_bound(sin_t as int, a.z as int, FX_ONE as int, bd as int);
        crate::fixed::lemma_fmul_bound(sin_t as int, a.x as int, FX_ONE as int, bd as int);
        crate::fixed::lemma_fmul_bound(cos_t as int, a.z as int, FX_ONE as int, bd as int);
        crate::fixed::lemma_mul_abs(cos_t as int, a.x as int);
        crate::fixed::lemma_mul_abs(sin_t as int, a.z as int);
        crate::fixed::lemma_mul_abs(sin_t as int, a.x as int);
        crate::fixed::lemma_mul_abs(cos_t as int, a.z as int);
    }
    let x = crate::fixed::fx_mul(cos_t, a.x) + crate::fixed::fx_mul(sin_t, a.z);
    let z = -crate::fixed::fx_mul(sin_t, a.x) + crate::fixed::fx_mul(cos_t, a.z);
    Vec3 { x, y: a.y, z }
}

} // verus!

