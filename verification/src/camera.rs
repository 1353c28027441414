//! The camera: an origin, a film rectangle spanned by two axes, a lens
//! radius for defocus blur, and a shutter interval for motion blur.
//! `get_ray` produces the ray through film coordinates (s, t), jittered by a
//! lens sample, stamped with a random time inside the shutter interval.
use vstd::prelude::*;
use crate::aabb::COORD_MAX;
use crate::fixed::{fmul_s, iabs, FX_ONE};
use crate::ray::Ray;
use crate::rng::{next_state, riud_s, rng_wf, state_out, Rng48, RIUS_FUEL};
use crate::vec3::{bounded3, sadd, scross, sscale, ssub, sunit, v, V3i, Vec3};

verus! {

/// Camera vectors stay within this magnitude for ray generation to stay
/// within the tracer's ranges.
pub const CAM_MAX: i128 = 0x2000_0000;

pub struct Camera {
    pub origin: Vec3,
    pub lower_left: Vec3,
    pub horizontal: Vec3,
    pub vertical: Vec3,
    pub u: Vec3,
    pub v: Vec3,
    pub w: Vec3,
    pub lens_radius: i128,
    pub time0: i128,
    pub time1: i128,
}

pub open spec fn cam_wf(c: Camera) -> bool {
    &&& bounded3(v(c.origin), CAM_MAX as int)
    &&& bounded3(v(c.lower_left), CAM_MAX as int)
    &&& bounded3(v(c.horizontal), CAM_MAX as int)
    &&& bounded3(v(c.vertical), CAM_MAX as int)
    &&& bounded3(v(c.u), 0x2000000)
    &&& bounded3(v(c.v), 0x2000000)
    &&& 0 <= c.lens_radius <= 4 * FX_ONE
    &&& iabs(c.time0 as int) <= COORD_MAX
    &&& iabs(c.time1 as int) <= COORD_MAX
    &&& c.time0 <= c.time1
}

/// The ray generated at film coordinates (s, t) from a generator state:
/// origin, direction, time, and the state after the draws.
pub open spec fn get_ray_s(c: Camera, s: int, t: int, state: int) -> (V3i, V3i, int, int) {
    let (d, st1) = riud_s(state, RIUS_FUEL as nat);
    let rdx = fmul_s(c.lens_radius as int, d.x);
    let rdy = fmul_s(c.lens_radius as int, d.y);
    let offset = sadd(sscale(v(c.u), rdx), sscale(v(c.v), rdy));
    let st2 = next_state(st1);
    let tm = c.time0 as int + fmul_s(state_out(st2), c.time1 as int - c.time0 as int);
    let orig = sadd(v(c.origin), offset);
    let dir = ssub(
        ssub(
            sadd(sadd(v(c.lower_left), sscale(v(c.horizontal), s)), sscale(v(c.vertical), t)),
            v(c.origin),
        ),
        offset,
    );
    (orig, dir, tm, st2)
}

impl Camera {
    /// A camera looking from `look_from` toward `look_at`; `half_height` is
    /// the tangent of half the vertical field of view, supplied directly.
    pub fn new(
        look_from: Vec3,
        look_at: Vec3,
        vup: Vec3,
        half_height: i128,
        aspect: i128,
        aperture: i128,
        focus_dist: i128,
        time0: i128,
        time1: i128,
    ) -> (c: Camera)
        requires
            bounded3(v(look_from), COORD_MAX as int),
            bounded3(v(look_at), COORD_MAX as int),
            bounded3(v(vup), COORD_MAX as int),
            0 < half_height <= 4 * FX_ONE,
            0 < aspect <= 4 * FX_ONE,
            0 <= aperture <= 8 * FX_ONE,
            0 < focus_dist <= COORD_MAX,
            iabs(time0 as int) <= COORD_MAX,
            iabs(time1 as int) <= COORD_MAX,
        ensures
            c.origin == look_from,
            c.time0 == time0 && c.time1 == time1,
            c.lens_radius == aperture / 2,
            v(c.w) == sunit(ssub(v(look_from), v(look_at))),
            v(c.u) == sunit(scross(v(vup), v(c.w))),
            v(c.v) == scross(v(c.w), v(c.u)),
            ({
                let hw = fmul_s(aspect as int, half_height as int);
                let hwf = fmul_s(hw, focus_dist as int);
                let hhf = fmul_s(half_height as int, focus_dist as int);
                &&& v(c.lower_left) == ssub(
                    ssub(
                        ssub(v(look_from), sscale(v(c.u), hwf)),
                        sscale(v(c.v), hhf),
                    ),
                    sscale(v(c.w), fmul_s(focus_dist as int, FX_ONE as int)),
                )
                &&& v(c.horizontal) == sscale(v(c.u), 2 * hwf)
                &&& v(c.vertical) == sscale(v(c.v), 2 * hhf)
            }),
    {
        proof {
            crate::vec3::lemma_unit_bounded(ssub(v(look_from), v(look_at)));
            crate::vec3::lemma_cross_safe(v(vup), sunit(ssub(v(look_from), v(look_at))), COORD_MAX as int, 0x2000000);
            crate::vec3::lemma_unit_bounded(scross(v(vup), sunit(ssub(v(look_from), v(look_at)))));
        }
        let w = look_from.sub(&look_at).unit();
        let u = vup.cross(&w).unit();
        proof {
            crate::vec3::lemma_cross_safe(v(w), v(u), 0x2000000, 0x2000000);
            crate::fixed::lemma_fmul_bound(aspect as int, half_height as int, 0x40000, 0x40000);
            assert((0x40000int * 0x40000) / (FX_ONE as int) == 0x100000) by (nonlinear_arith);
            crate::fixed::lemma_fmul_bound(
                fmul_s(aspect as int, half_height as int),
                focus_dist as int,
                0x140000,
                COORD_MAX as int,
            );
            crate::fixed::lemma_fmul_bound(half_height as int, focus_dist as int, 0x40000, COORD_MAX as int);
            crate::fixed::lemma_fmul_bound(focus_dist as int, FX_ONE as int, COORD_MAX as int, FX_ONE as int);
        }
        let vv = w.cross(&u);
        let hw = crate::fixed::fx_mul(aspect, half_height);
        let hwf = crate::fixed::fx_mul(hw, focus_dist);
        let hhf = crate::fixed::fx_mul(half_height, focus_dist);
        let fdf = crate::fixed::fx_mul(focus_dist, FX_ONE);
        proof {
            crate::vec3::lemma_scale_safe(v(u), hwf as int, 0x2000000, 0x1_4000_0000_0000);
            crate::vec3::lemma_scale_safe(v(vv), hhf as int, 0x8_0000_0000, 0x1_0000_0000_0000);
            crate::vec3::lemma_scale_safe(v(w), fdf as int, 0x2000000, 0x4000_0000_0000);
            crate::vec3::lemma_scale_safe(v(u), 2 * hwf as int, 0x2000000, 0x2_8000_0000_0000);
            crate::vec3::lemma_scale_safe(v(vv), 2 * hhf as int, 0x8_0000_0000, 0x2_0000_0000_0000);
        }
        let lower_left = look_from.sub(&u.scale(hwf)).sub(&vv.scale(hhf)).sub(&w.scale(fdf));
        let horizontal = u.scale(2 * hwf);
        let vertical = vv.scale(2 * hhf);
        Camera {
            origin: look_from,
            lower_left,
            horizontal,
            vertical,
            u,
            v: vv,
            w,
            lens_radius: aperture / 2,
            time0,
            time1,
        }
    }

    /// Whether the camera's vectors lie within the ranges ray generation
    /// needs; check it once before rendering.
    pub fn well_formed(&self) -> (r: bool)
        ensures
            r == cam_wf(*self),
    {
        let c1 = -CAM_MAX <= self.origin.x && self.origin.x <= CAM_MAX && -CAM_MAX <= self.origin.y
            && self.origin.y <= CAM_MAX && -CAM_MAX <= self.origin.z && self.origin.z <= CAM_MAX;
        let c2 = -CAM_MAX <= self.lower_left.x && self.lower_left.x <= CAM_MAX && -CAM_MAX
            <= self.lower_left.y && self.lower_left.y <= CAM_MAX && -CAM_MAX <= self.lower_left.z
            && self.lower_left.z <= CAM_MAX;
        let c3 = -CAM_MAX <= self.horizontal.x && self.horizontal.x <= CAM_MAX && -CAM_MAX
            <= self.horizontal.y && self.horizontal.y <= CAM_MAX && -CAM_MAX <= self.horizontal.z
            && self.horizontal.z <= CAM_MAX;
        let c4 = -CAM_MAX <= self.vertical.x && self.vertical.x <= CAM_MAX && -CAM_MAX
            <= self.vertical.y && self.vertical.y <= CAM_MAX && -CAM_MAX <= self.vertical.z
            && self.vertical.z <= CAM_MAX;
        let c5 = -0x2000000 <= self.u.x && self.u.x <= 0x2000000 && -0x2000000 <= self.u.y
            && self.u.y <= 0x2000000 && -0x2000000 <= self.u.z && self.u.z <= 0x2000000;
        let c6 = -0x2000000 <= self.v.x && self.v.x <= 0x2000000 && -0x2000000 <= self.v.y
            && self.v.y <= 0x2000000 && -0x2000000 <= self.v.z && self.v.z <= 0x2000000;
        let c7 = 0 <= self.lens_radius && self.lens_radius <= 4 * FX_ONE;
        let c8 = -COORD_MAX <= self.time0 && self.time0 <= COORD_MAX && -COORD_MAX <= self.time1
            && self.time1 <= COORD_MAX && self.time0 <= self.time1;
        c1 && c2 && c3 && c4 && c5 && c6 && c7 && c8
    }

    /// The camera ray through film coordinates (s, t).
    pub fn get_ray(&self, s: i128, t: i128, rng: &mut Rng48) -> (r: Ray)
        requires
            cam_wf(*self),
            0 <= s <= FX_ONE,
            0 <= t <= FX_ONE,
            rng_wf(*old(rng)),
        ensures
            rng_wf(*final(rng)),
            ({
                let (orig, dir, tm, st) = get_ray_s(*self, s as int, t as int, old(rng).state as int);
                &&& v(r.origin) == orig
                &&& v(r.direction) == dir
                &&& r.time as int == tm
                &&& final(rng).state as int == st
                &&& bounded3(v(r.origin), crate::aabb::HIT_MAX as int)
                &&& bounded3(v(r.direction), crate::aabb::HIT_MAX as int)
                &&& iabs(r.time as int) <= COORD_MAX
            }),
    {
        let d = rng.in_unit_disk();
        proof {
            crate::fixed::lemma_fmul_bound(self.lens_radius as int, d.x as int, 4 * FX_ONE as int, FX_ONE as int);
            crate::fixed::lemma_fmul_bound(self.lens_radius as int, d.y as int, 4 * FX_ONE as int, FX_ONE as int);
        }
        let rdx = crate::fixed::fx_mul(self.lens_radius, d.x);
        let rdy = crate::fixed::fx_mul(self.lens_radius, d.y);
        proof {
            crate::vec3::lemma_scale_safe(v(self.u), rdx as int, 0x2000000, 0x40000);
            crate::vec3::lemma_scale_safe(v(self.v), rdy as int, 0x2000000, 0x40000);
        }
        let offset = self.u.scale(rdx).add(&self.v.scale(rdy));
        let tr = rng.next_fx();
        proof {
            crate::fixed::lemma_fmul_frac(tr as int, self.time1 as int - self.time0 as int);
        }
        let tm = self.time0 + crate::fixed::fx_mul(tr, self.time1 - self.time0);
        let orig = self.origin.add(&offset);
        proof {
            crate::vec3::lemma_scale_safe(v(self.horizontal), s as int, CAM_MAX as int, FX_ONE as int);
            crate::vec3::lemma_scale_safe(v(self.vertical), t as int, CAM_MAX as int, FX_ONE as int);
        }
        let dir = self.lower_left.add(&self.horizontal.scale(s)).add(&self.vertical.scale(t)).sub(
            &self.origin,
        ).sub(&offset);
        Ray { origin: orig, direction: dir, time: tm }
    }
}

} // verus!
