//! The recursive radiance function. A ray that misses everything returns
//! the configured environment value for its direction; a hit gathers the
//! material's emission (kept only when a shadow probe toward the light
//! sample finds no occluder strictly between the point and the light) plus
//! the attenuated radiance of the scattered ray, under a hard recursion cap.
//!
//! The function holds no state beyond its stack frame and its generator, so
//! any number of rays may be traced concurrently against one shared scene.
use vstd::prelude::*;
use crate::aabb::{COORD_MAX, HIT_MAX};
use crate::fixed::{fmul_s, iabs, tdiv, FX_ONE};
use crate::hitable::{Hitable, T_RANGE_MAX};
use crate::hitable_list::{scan_s, wf_list, HitableList};
use crate::material::{emitted_s, mat_wf, scatter_s, Material};
use crate::ray::Ray;
use crate::rng::{rng_wf, Rng48};
use crate::texture::CHANNEL_MAX;
use crate::vec3::{bounded3, sadd, scmul, slen, sscale, ssub, sunit, v, V3i, Vec3};

verus! {

/// The recursion cap: paths longer than this contribute black.
pub const MAX_DEPTH: u32 = 50;

/// The small parametric offset that shadow and intersection queries start
/// from, and by which shadow origins leave the surface.
pub const QUERY_EPS: i128 = 65;

/// What a missed ray sees: a fixed colour, or a vertical gradient keyed by
/// the unit direction's height.
pub enum Environment {
    Solid(Vec3),
    Gradient { floor: Vec3, ceil: Vec3 },
}

pub open spec fn env_wf(e: Environment) -> bool {
    match e {
        Environment::Solid(c) => bounded3(v(c), CHANNEL_MAX as int),
        Environment::Gradient { floor, ceil } => bounded3(v(floor), CHANNEL_MAX as int) && bounded3(
            v(ceil),
            CHANNEL_MAX as int,
        ),
    }
}

pub open spec fn clamp01(x: int) -> int {
    if x < 0 {
        0
    } else if x > FX_ONE as int {
        FX_ONE as int
    } else {
        x
    }
}

/// The environment radiance for a direction.
pub open spec fn env_value_s(e: Environment, rd: V3i) -> V3i {
    match e {
        Environment::Solid(c) => v(c),
        Environment::Gradient { floor, ceil } => {
            let t = clamp01(tdiv(sunit(rd).y + FX_ONE, 2));
            sadd(sscale(v(floor), FX_ONE - t), sscale(v(ceil), t))
        },
    }
}

/// An upper bound on any radiance the integrator can return from the given
/// depth.
pub open spec fn rad_bound(depth: int) -> int {
    (52 - depth) * 0x400000
}

/// The radiance of a ray and the generator state after tracing it.
pub open spec fn color_s(
    world: Seq<Hitable>,
    mats: Seq<Material>,
    env: Environment,
    ro: V3i,
    rd: V3i,
    rtime: int,
    depth: int,
    state: int,
) -> (V3i, int)
    decreases MAX_DEPTH - depth,
{
    match scan_s(world, ro, rd, rtime, QUERY_EPS as int, T_RANGE_MAX as int) {
        None => (env_value_s(env, rd), state),
        Some(rec) => {
            if depth >= MAX_DEPTH {
                (V3i { x: 0, y: 0, z: 0 }, state)
            } else if rec.mat < 0 || rec.mat >= mats.len() {
                (V3i { x: 0, y: 0, z: 0 }, state)
            } else {
                let m = mats[rec.mat];
                let emit = shadowed_emission_s(world, m, rec, rtime);
                match scatter_s(m, rd, rec, state) {
                    Some(sc) => {
                        if !bounded3(sc.origin, HIT_MAX as int) || !bounded3(
                            sc.dir,
                            HIT_MAX as int,
                        ) {
                            (emit, sc.state)
                        } else {
                            let (rc, st2) = color_s(
                                world,
                                mats,
                                env,
                                sc.origin,
                                sc.dir,
                                sc.time,
                                depth + 1,
                                sc.state,
                            );
                            (sadd(emit, scmul(sc.att, rc)), st2)
                        }
                    },
                    None => (emit, crate::material::scatter_none_state_s(m, state)),
                }
            }
        },
    }
}

/// The emission at a hit, kept only when the shadow probe toward the light
/// sample finds no occluder strictly between the point and the light.
pub open spec fn shadowed_emission_s(
    world: Seq<Hitable>,
    m: Material,
    rec: crate::hitable::HitS,
    rtime: int,
) -> V3i {
    let (emit_raw, lpos) = emitted_s(m, rec.u, rec.v, rec.p);
    let to_light = ssub(lpos, rec.p);
    let sdir = sunit(to_light);
    let sorig = sadd(rec.p, sscale(rec.normal, QUERY_EPS as int));
    let dist = slen(to_light);
    if !bounded3(sorig, HIT_MAX as int) || !bounded3(sdir, HIT_MAX as int) {
        emit_raw
    } else {
        match scan_s(world, sorig, sdir, rtime, QUERY_EPS as int, T_RANGE_MAX as int) {
            Some(sh) => if sh.t < dist - QUERY_EPS {
                V3i { x: 0, y: 0, z: 0 }
            } else {
                emit_raw
            },
            None => emit_raw,
        }
    }
}

/// Everything the integrator needs of a scene: well-formed geometry,
/// well-formed materials, a bounded environment.
pub open spec fn scene_wf(world: Seq<Hitable>, mats: Seq<Material>, env: Environment) -> bool {
    &&& wf_list(world)
    &&& forall|i: int| 0 <= i < mats.len() ==> mat_wf(#[trigger] mats[i])
    &&& env_wf(env)
}

/// The recursive radiance function. Radiance is gathered as
/// emitted + attenuation * color(scattered), with the environment on a miss
/// and black at the recursion cap; a scattered ray that leaves the tracer's
/// coordinate range ends its path with the emission alone.
#[verifier::rlimit(100)]
#[verifier::spinoff_prover]
pub fn color(
    r: &Ray,
    world: &HitableList,
    mats: &Vec<Material>,
    depth: u32,
    env: &Environment,
    rng: &mut Rng48,
) -> (res: Vec3)
    requires
        scene_wf(world.objects@, mats@, *env),
        bounded3(v(r.origin), HIT_MAX as int),
        bounded3(v(r.direction), HIT_MAX as int),
        iabs(r.time as int) <= COORD_MAX,
        depth <= MAX_DEPTH,
        rng_wf(*old(rng)),
    ensures
        rng_wf(*final(rng)),
        ({
            let (c, st) = color_s(
                world.objects@,
                mats@,
                *env,
                v(r.origin),
                v(r.direction),
                r.time as int,
                depth as int,
                old(rng).state as int,
            );
            &&& v(res) == c
            &&& final(rng).state as int == st
        }),
        bounded3(v(res), rad_bound(depth as int)),
    decreases MAX_DEPTH - depth,
{
    let hit = world.hit(r, QUERY_EPS, T_RANGE_MAX);
    match hit {
        None => env_value(env, &r.direction),
        Some(rec) => {
            if depth >= MAX_DEPTH {
                return Vec3 { x: 0, y: 0, z: 0 };
            }
            if rec.mat >= mats.len() {
                return Vec3 { x: 0, y: 0, z: 0 };
            }
            let m = &mats[rec.mat];
            let emit = shadowed_emission(world, m, &rec, r.time);
            let scattered = m.scatter(r, &rec, rng);
            match scattered {
                Some((sray, att)) => {
                    if !within(&sray.origin, HIT_MAX) || !within(&sray.direction, HIT_MAX) {
                        return emit;
                    }
                    let rc = color(&sray, world, mats, depth + 1, env, rng);
                    attenuate_add(&emit, &att, &rc, Ghost(rad_bound(depth as int + 1)))
                },
                None => emit,
            }
        },
    }
}

/// Gathers emitted radiance plus the attenuated radiance of the scattered
/// path.
fn attenuate_add(emit: &Vec3, att: &Vec3, rc: &Vec3, bd: Ghost<int>) -> (res: Vec3)
    requires
        bounded3(v(*emit), CHANNEL_MAX as int),
        bounded3(v(*att), FX_ONE as int),
        0 <= bd@ <= 0x10_0000_0000,
        bounded3(v(*rc), bd@),
    ensures
        v(res) == sadd(v(*emit), scmul(v(*att), v(*rc))),
        bounded3(v(res), CHANNEL_MAX as int + bd@),
{
    proof {
        crate::fixed::lemma_fmul_frac_sym(v(*att).x, v(*rc).x, bd@);
        crate::fixed::lemma_fmul_frac_sym(v(*att).y, v(*rc).y, bd@);
        crate::fixed::lemma_fmul_frac_sym(v(*att).z, v(*rc).z, bd@);
    }
    emit.add(&att.cmul(rc))
}

/// The emission at a hit, zeroed when the shadow probe finds an occluder
/// strictly between the point and the light sample.
fn shadowed_emission(
    world: &HitableList,
    m: &Material,
    rec: &crate::hitable::HitRecord,
    rtime: i128,
) -> (res: Vec3)
    requires
        wf_list(world.objects@),
        mat_wf(*m),
        bounded3(v(rec.p), crate::hitable::POINT_MAX as int),
        bounded3(v(rec.normal), crate::hitable::NORMAL_MAX as int),
        0 <= rec.u <= FX_ONE,
        0 <= rec.v <= FX_ONE,
        rec.time == rtime,
        iabs(rtime as int) <= COORD_MAX,
    ensures
        v(res) == shadowed_emission_s(world.objects@, *m, crate::hitable::hrec(*rec), rtime as int),
        bounded3(v(res), CHANNEL_MAX as int),
{
    let (emit_raw, lpos) = m.emitted(rec.u, rec.v, &rec.p);
    proof {
        crate::vec3::lemma_scale_safe(
            v(rec.normal),
            QUERY_EPS as int,
            crate::hitable::NORMAL_MAX as int,
            QUERY_EPS as int,
        );
    }
    let to_light = lpos.sub(&rec.p);
    proof {
        crate::vec3::lemma_unit_bounded(v(to_light));
    }
    let sdir = to_light.unit();
    let sorig = rec.p.add(&rec.normal.scale(QUERY_EPS));
    let dist = to_light.length();
    let mut emit = emit_raw;
    if within(&sorig, HIT_MAX) && within(&sdir, HIT_MAX) {
        let sray = Ray { origin: sorig, direction: sdir, time: rtime };
        match world.hit(&sray, QUERY_EPS, T_RANGE_MAX) {
            Some(sh) => {
                if sh.t < dist - QUERY_EPS {
                    emit = Vec3 { x: 0, y: 0, z: 0 };
                }
            },
            None => {},
        }
    }
    emit
}

/// The environment radiance for a ray direction.
fn env_value(e: &Environment, rd: &Vec3) -> (res: Vec3)
    requires
        env_wf(*e),
        bounded3(v(*rd), HIT_MAX as int),
    ensures
        v(res) == env_value_s(*e, v(*rd)),
        bounded3(v(res), 2 * CHANNEL_MAX as int),
{
    match e {
        Environment::Solid(c) => *c,
        Environment::Gradient { floor, ceil } => {
            proof {
                crate::vec3::lemma_unit_bounded(v(*rd));
            }
            let ud = rd.unit();
            proof {
                crate::fixed::lemma_tdiv_abs(ud.y as int + FX_ONE as int, 2);
            }
            let t0: i128 = (ud.y + FX_ONE) / 2;
            let t = if t0 < 0 {
                0
            } else if t0 > FX_ONE {
                FX_ONE
            } else {
                t0
            };
            proof {
                crate::fixed::lemma_fmul_frac_sym(FX_ONE as int - t, v(*floor).x, CHANNEL_MAX as int);
                crate::fixed::lemma_fmul_frac_sym(FX_ONE as int - t, v(*floor).y, CHANNEL_MAX as int);
                crate::fixed::lemma_fmul_frac_sym(FX_ONE as int - t, v(*floor).z, CHANNEL_MAX as int);
                crate::fixed::lemma_fmul_frac_sym(t as int, v(*ceil).x, CHANNEL_MAX as int);
                crate::fixed::lemma_fmul_frac_sym(t as int, v(*ceil).y, CHANNEL_MAX as int);
                crate::fixed::lemma_fmul_frac_sym(t as int, v(*ceil).z, CHANNEL_MAX as int);
            }
            floor.scale(FX_ONE - t).add(&ceil.scale(t))
        },
    }
}

fn within(a: &Vec3, bd: i128) -> (r: bool)
    requires
        0 <= bd,
    ensures
        r == bounded3(v(*a), bd as int),
{
    -bd <= a.x && a.x <= bd && -bd <= a.y && a.y <= bd && -bd <= a.z && a.z <= bd
}

} // verus!
