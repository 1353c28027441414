//! Triangles with analytic (barycentric) ray intersection. Triangles are
//! two-sided: the intersection accepts hits from either side and reports the
//! stored normal (normalized) regardless of the side hit, as the surrounding
//! scene machinery expects.
use vstd::prelude::*;
use crate::aabb::{Aabb, COORD_MAX, HIT_MAX};
use crate::fixed::{fdiv_s, iabs, FX_ONE};
use crate::hitable::{rec_opt_matches, HitRecord, HitS, NTRI_MAX, T_RANGE_MAX};
use crate::hitable::rec_ok;
use crate::ray::{spoint_at, Ray};
use crate::vec3::{
    bounded3, scross, sdot, smax3, smin3, ssub, sunit, v, V3i, Vec3,
};

verus! {

#[derive(Clone, Copy, PartialEq, Eq, Structural, Debug)]
pub struct Triangle {
    pub v0: Vec3,
    pub v1: Vec3,
    pub v2: Vec3,
    pub normal: Vec3,
    pub material: usize,
}

pub open spec fn tri_wf(t: Triangle) -> bool {
    &&& bounded3(v(t.v0), COORD_MAX as int)
    &&& bounded3(v(t.v1), COORD_MAX as int)
    &&& bounded3(v(t.v2), COORD_MAX as int)
    &&& bounded3(v(t.normal), NTRI_MAX as int)
}

/// Barycentric ray/triangle intersection over fixed-point arithmetic.
/// A zero determinant (ray parallel to the plane, or a degenerate triangle)
/// is "no hit"; the barycentric coordinates are returned as (u, v).
pub open spec fn triangle_hit_s(
    t: Triangle,
    ro: V3i,
    rd: V3i,
    rtime: int,
    t_min: int,
    t_max: int,
) -> Option<HitS> {
    let e1 = ssub(v(t.v1), v(t.v0));
    let e2 = ssub(v(t.v2), v(t.v0));
    let h = scross(rd, e2);
    let det = sdot(e1, h);
    if det == 0 {
        None
    } else {
        let s = ssub(ro, v(t.v0));
        let bu = fdiv_s(sdot(s, h), det);
        if bu < 0 || bu > FX_ONE as int {
            None
        } else {
            let q = scross(s, e1);
            let bv = fdiv_s(sdot(rd, q), det);
            if bv < 0 || bu + bv > FX_ONE as int {
                None
            } else {
                let tt = fdiv_s(sdot(e2, q), det);
                if tt <= t_min || tt > t_max {
                    None
                } else {
                    Some(
                        HitS {
                            t: tt,
                            u: bu,
                            v: bv,
                            p: spoint_at(ro, rd, tt),
                            normal: sunit(v(t.normal)),
                            mat: t.material as int,
                            time: rtime,
                        },
                    )
                }
            }
        }
    }
}

/// The triangle's spatial extent: the componentwise min/max of its vertices.
pub open spec fn triangle_box_s(t: Triangle) -> Aabb {
    Aabb {
        min: Vec3 {
            x: smin3(smin3(v(t.v0), v(t.v1)), v(t.v2)).x as i128,
            y: smin3(smin3(v(t.v0), v(t.v1)), v(t.v2)).y as i128,
            z: smin3(smin3(v(t.v0), v(t.v1)), v(t.v2)).z as i128,
        },
        max: Vec3 {
            x: smax3(smax3(v(t.v0), v(t.v1)), v(t.v2)).x as i128,
            y: smax3(smax3(v(t.v0), v(t.v1)), v(t.v2)).y as i128,
            z: smax3(smax3(v(t.v0), v(t.v1)), v(t.v2)).z as i128,
        },
    }
}

impl Triangle {
    /// A triangle whose normal is the cross product of its edges.
    pub fn new(v0: Vec3, v1: Vec3, v2: Vec3, material: usize) -> (r: Triangle)
        requires
            bounded3(v(v0), COORD_MAX as int),
            bounded3(v(v1), COORD_MAX as int),
            bounded3(v(v2), COORD_MAX as int),
        ensures
            r.v0 == v0 && r.v1 == v1 && r.v2 == v2 && r.material == material,
            v(r.normal) == scross(ssub(v(v1), v(v0)), ssub(v(v2), v(v0))),
            tri_wf(r),
    {
        proof {
            crate::vec3::lemma_cross_safe(
                ssub(v(v1), v(v0)),
                ssub(v(v2), v(v0)),
                2 * COORD_MAX as int,
                2 * COORD_MAX as int,
            );
        }
        let e1 = v1.sub(&v0);
        let e2 = v2.sub(&v0);
        let normal = e1.cross(&e2);
        Triangle { v0, v1, v2, normal, material }
    }

    /// A triangle with a supplied (vertex) normal.
    pub fn new_normal(v0: Vec3, v1: Vec3, v2: Vec3, normal: Vec3, material: usize) -> (r: Triangle)
        requires
            bounded3(v(v0), COORD_MAX as int),
            bounded3(v(v1), COORD_MAX as int),
            bounded3(v(v2), COORD_MAX as int),
            bounded3(v(normal), NTRI_MAX as int),
        ensures
            r == (Triangle { v0, v1, v2, normal, material }),
            tri_wf(r),
    {
        Triangle { v0, v1, v2, normal, material }
    }

    pub fn hit(&self, r: &Ray, t_min: i128, t_max: i128) -> (res: Option<HitRecord>)
        requires
            tri_wf(*self),
            bounded3(v(r.origin), HIT_MAX as int),
            bounded3(v(r.direction), HIT_MAX as int),
            iabs(t_min as int) <= T_RANGE_MAX as int,
            iabs(t_max as int) <= T_RANGE_MAX as int,
        ensures
            rec_opt_matches(
                res,
                triangle_hit_s(
                    *self,
                    v(r.origin),
                    v(r.direction),
                    r.time as int,
                    t_min as int,
                    t_max as int,
                ),
            ),
            res matches Some(rec) ==> crate::hitable::rec_ok(rec, *r, t_min as int, t_max as int)
                && rec.mat == self.material,
    {
        proof {
            crate::vec3::lemma_cross_safe(
                v(r.direction),
                ssub(v(self.v2), v(self.v0)),
                HIT_MAX as int,
                2 * COORD_MAX as int,
            );
        }
        let e1 = self.v1.sub(&self.v0);
        let e2 = self.v2.sub(&self.v0);
        let h = r.direction.cross(&e2);
        proof {
            crate::vec3::lemma_dot_safe(
                ssub(v(self.v1), v(self.v0)),
                scross(v(r.direction), ssub(v(self.v2), v(self.v0))),
                2 * COORD_MAX as int,
                2 * (HIT_MAX as int) * (2 * COORD_MAX as int),
            );
        }
        let det = e1.dot(&h);
        if det == 0 {
            return None;
        }
        proof {
            crate::vec3::lemma_dot_safe(
                ssub(v(r.origin), v(self.v0)),
                scross(v(r.direction), ssub(v(self.v2), v(self.v0))),
                HIT_MAX as int + COORD_MAX as int,
                2 * (HIT_MAX as int) * (2 * COORD_MAX as int),
            );
        }
        let s = r.origin.sub(&self.v0);
        let sh = s.dot(&h);
        let bu = crate::fixed::fx_div(sh, det);
        if bu < 0 || bu > FX_ONE {
            return None;
        }
        proof {
            crate::vec3::lemma_cross_safe(
                ssub(v(r.origin), v(self.v0)),
                ssub(v(self.v1), v(self.v0)),
                HIT_MAX as int + COORD_MAX as int,
                2 * COORD_MAX as int,
            );
            crate::vec3::lemma_dot_safe(
                v(r.direction),
                scross(ssub(v(r.origin), v(self.v0)), ssub(v(self.v1), v(self.v0))),
                HIT_MAX as int,
                2 * (HIT_MAX as int + COORD_MAX as int) * (2 * COORD_MAX as int),
            );
            crate::vec3::lemma_dot_safe(
                ssub(v(self.v2), v(self.v0)),
                scross(ssub(v(r.origin), v(self.v0)), ssub(v(self.v1), v(self.v0))),
                2 * COORD_MAX as int,
                2 * (HIT_MAX as int + COORD_MAX as int) * (2 * COORD_MAX as int),
            );
        }
        let q = s.cross(&e1);
        let dq = r.direction.dot(&q);
        let bv = crate::fixed::fx_div(dq, det);
        if bv < 0 || bu + bv > FX_ONE {
            return None;
        }
        let eq = e2.dot(&q);
        let tt = crate::fixed::fx_div(eq, det);
        if tt <= t_min || tt > t_max {
            return None;
        }
        proof {
            crate::vec3::lemma_scale_safe(
                v(r.direction),
                tt as int,
                HIT_MAX as int,
                T_RANGE_MAX as int,
            );
            crate::vec3::lemma_unit_bounded(v(self.normal));
        }
        let p = r.point_at_parameter(tt);
        let normal = self.normal.unit();
        Some(
            HitRecord {
                t: tt,
                u: bu,
                v: bv,
                p,
                normal,
                mat: self.material,
                time: r.time,
            },
        )
    }

    pub fn bounding_box(&self, _t0: i128, _t1: i128) -> (res: Option<Aabb>)
        requires
            tri_wf(*self),
        ensures
            res == Some(triangle_box_s(*self)),
            bounded3(v(triangle_box_s(*self).min), COORD_MAX as int),
            bounded3(v(triangle_box_s(*self).max), COORD_MAX as int),
    {
        let mn = self.v0.vmin(&self.v1).vmin(&self.v2);
        let mx = self.v0.vmax(&self.v1).vmax(&self.v2);
        Some(Aabb { min: mn, max: mx })
    }
}

} // verus!
