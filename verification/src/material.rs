//! The scattering / emission model: Lambertian diffuse, fuzzy metal
//! reflection, dielectric refraction with Schlick's approximation,
//! diffuse lights and isotropic scattering. Each variant's behaviour is
//! stated exactly over the fixed-point arithmetic, including the random
//! draws it consumes.
use vstd::prelude::*;
use crate::fixed::{fdiv_s, fmul_s, iabs, FX_ONE};
use crate::hitable::{HitRecord, NORMAL_MAX, POINT_MAX};
use crate::ray::Ray;
use crate::rng::{rius_s, rng_wf, Rng48, RIUS_FUEL};
use crate::texture::{tex_value_s, tex_wf, Texture, CHANNEL_MAX};
use crate::vec3::{bounded3, sadd, scmul, sdot, sneg, sscale, ssub, sunit, v, V3i, Vec3};

verus! {

pub enum Material {
    Lambertian { albedo: Texture },
    Metal { albedo: Vec3, fuzz: i128 },
    Dielectric { ref_idx: i128 },
    DiffuseLight { emit: Texture },
    Isotropic { albedo: Texture },
}

/// Attenuating textures and albedos stay within one so that radiance cannot
/// grow along a path; fuzz lies in [0, 1]; a refractive index is positive
/// and at most four.
pub open spec fn mat_wf(m: Material) -> bool {
    match m {
        Material::Lambertian { albedo } => tex_wf(albedo) && albedo_le_one(albedo),
        Material::Metal { albedo, fuzz } => bounded3(v(albedo), FX_ONE as int) && 0 <= fuzz
            <= FX_ONE,
        Material::Dielectric { ref_idx } => 0 < ref_idx <= 4 * FX_ONE,
        Material::DiffuseLight { emit } => tex_wf(emit),
        Material::Isotropic { albedo } => tex_wf(albedo) && albedo_le_one(albedo),
    }
}

pub open spec fn albedo_le_one(t: Texture) -> bool {
    match t {
        Texture::Constant(c) => bounded3(v(c), FX_ONE as int),
        Texture::Image(_) => true,
    }
}

/// The mirror reflection of `d` about the normal `n`.
pub open spec fn reflect_s(d: V3i, n: V3i) -> V3i {
    ssub(d, sscale(n, 2 * sdot(d, n)))
}

/// Snell refraction: the refracted direction, or nothing under total
/// internal reflection (a non-positive discriminant).
pub open spec fn refract_s(d: V3i, n: V3i, ni_over_nt: int) -> Option<V3i> {
    let uv = sunit(d);
    let dt = sdot(uv, n);
    let disc = FX_ONE - fmul_s(ni_over_nt, fmul_s(ni_over_nt, FX_ONE - fmul_s(dt, dt)));
    if disc > 0 {
        Some(ssub(sscale(ssub(uv, sscale(n, dt)), ni_over_nt), sscale(n, crate::fixed::fsqrt_s(disc))))
    } else {
        None
    }
}

/// A value clamped into [-1, 1]; the cosine handed to the reflectance
/// approximation, whose mathematical value always lies there.
pub open spec fn clamp_unit(x: int) -> int {
    if x > FX_ONE as int {
        FX_ONE as int
    } else if x < -(FX_ONE as int) {
        -(FX_ONE as int)
    } else {
        x
    }
}

/// Schlick's reflectance approximation.
pub open spec fn schlick_s(cosine: int, ref_idx: int) -> int {
    let r0a = fdiv_s(ref_idx - FX_ONE, ref_idx + FX_ONE);
    let r0 = fmul_s(r0a, r0a);
    let omc = FX_ONE - cosine;
    r0 + fmul_s(FX_ONE - r0, fmul_s(omc, fmul_s(omc, fmul_s(omc, fmul_s(omc, omc)))))
}

/// What a scatter produced: the new ray, the attenuation, and the
/// generator's state after the draws.
pub ghost struct ScatterS {
    pub origin: V3i,
    pub dir: V3i,
    pub time: int,
    pub att: V3i,
    pub state: int,
}

/// The metal scatter direction for a given unit sphere sample.
pub open spec fn metal_dir_s(rd: V3i, n: V3i, fuzz: int, sample: V3i) -> V3i {
    sadd(reflect_s(sunit(rd), n), sscale(sample, fuzz))
}

/// The dielectric scatter direction for a given reflectance draw.
pub open spec fn dielectric_dir_s(rd: V3i, n: V3i, ref_idx: int, draw: int) -> V3i {
    let len = crate::fixed::fsqrt_s(sdot(rd, rd));
    let dn = sdot(rd, n);
    let entering = dn > 0;
    let outward = if entering {
        sneg(n)
    } else {
        n
    };
    let ni_over_nt = if entering {
        ref_idx
    } else {
        fdiv_s(FX_ONE as int, ref_idx)
    };
    let cosine = clamp_unit(
        if entering {
            fmul_s(ref_idx, fdiv_s(dn, len))
        } else {
            fdiv_s(-dn, len)
        },
    );
    match refract_s(rd, outward, ni_over_nt) {
        Some(refracted) => {
            if draw < schlick_s(cosine, ref_idx) {
                reflect_s(sunit(rd), n)
            } else {
                refracted
            }
        },
        None => reflect_s(sunit(rd), n),
    }
}

/// What each material scatters, as a function of the incoming direction,
/// the hit and the generator state.
#[verifier::opaque]
pub open spec fn scatter_s(m: Material, rd: V3i, rec: crate::hitable::HitS, s: int) -> Option<
    ScatterS,
> {
    match m {
        Material::Lambertian { albedo } => {
            let (sample, s2) = rius_s(s, RIUS_FUEL as nat);
            Some(
                ScatterS {
                    origin: rec.p,
                    dir: sadd(rec.normal, sample),
                    time: rec.time,
                    att: tex_value_s(albedo, rec.u, rec.v, rec.p),
                    state: s2,
                },
            )
        },
        Material::Metal { albedo, fuzz } => {
            let (sample, s2) = rius_s(s, RIUS_FUEL as nat);
            let dir = metal_dir_s(rd, rec.normal, fuzz as int, sample);
            if sdot(dir, rec.normal) > 0 {
                Some(
                    ScatterS { origin: rec.p, dir, time: rec.time, att: v(albedo), state: s2 },
                )
            } else {
                None
            }
        },
        Material::Dielectric { ref_idx } => {
            if sdot(rd, rd) == 0 {
                None
            } else {
                let s2 = crate::rng::next_state(s);
                let draw = crate::rng::state_out(s2);
                Some(
                    ScatterS {
                        origin: rec.p,
                        dir: dielectric_dir_s(rd, rec.normal, ref_idx as int, draw),
                        time: rec.time,
                        att: V3i { x: FX_ONE as int, y: FX_ONE as int, z: FX_ONE as int },
                        state: s2,
                    },
                )
            }
        },
        Material::DiffuseLight { emit } => None,
        Material::Isotropic { albedo } => {
            let (sample, s2) = rius_s(s, RIUS_FUEL as nat);
            Some(
                ScatterS {
                    origin: rec.p,
                    dir: sample,
                    time: rec.time,
                    att: tex_value_s(albedo, rec.u, rec.v, rec.p),
                    state: s2,
                },
            )
        },
    }
}

/// The generator state after a scatter that was absorbed: a metal consumes
/// its fuzz sample before rejecting; the other variants reject (or never
/// fail) without drawing.
pub open spec fn scatter_none_state_s(m: Material, s: int) -> int {
    match m {
        Material::Metal { .. } => rius_s(s, RIUS_FUEL as nat).1,
        _ => s,
    }
}

/// What a material emits at a surface point: its radiance and the point
/// itself as the light-sample position; only a diffuse light emits.
pub open spec fn emitted_s(m: Material, u: int, vv: int, p: V3i) -> (V3i, V3i) {
    match m {
        Material::DiffuseLight { emit } => (tex_value_s(emit, u, vv, p), p),
        _ => (V3i { x: 0, y: 0, z: 0 }, p),
    }
}

/// The preconditions scatter places on the hit record and ray; they are the
/// guarantees `hit` gives for every record it returns.
pub open spec fn scatter_pre(r: Ray, rec: HitRecord) -> bool {
    &&& bounded3(v(r.direction), crate::aabb::HIT_MAX as int)
    &&& bounded3(v(rec.p), POINT_MAX as int)
    &&& bounded3(v(rec.normal), NORMAL_MAX as int)
    &&& 0 <= rec.u <= FX_ONE
    &&& 0 <= rec.v <= FX_ONE
}

impl Material {
    /// Scatters the incoming ray at the hit, drawing randomness from the
    /// generator, and returns the scattered ray with its attenuation, or
    /// nothing when the ray is absorbed (metal hit from inside) or the
    /// material is terminal (a light).
    #[verifier::rlimit(100)]
    pub fn scatter(&self, r: &Ray, rec: &HitRecord, rng: &mut Rng48) -> (res: Option<(Ray, Vec3)>)
        requires
            mat_wf(*self),
            scatter_pre(*r, *rec),
            rng_wf(*old(rng)),
        ensures
            rng_wf(*final(rng)),
            match (res, scatter_s(*self, v(r.direction), crate::hitable::hrec(*rec), old(rng).state as int)) {
                (Some((ray, att)), Some(sc)) => {
                    &&& v(ray.origin) == sc.origin
                    &&& v(ray.direction) == sc.dir
                    &&& ray.time as int == sc.time
                    &&& v(att) == sc.att
                    &&& final(rng).state as int == sc.state
                    &&& bounded3(v(att), FX_ONE as int)
                    &&& ray.origin == rec.p
                    &&& ray.time == rec.time
                },
                (None, None) => final(rng).state as int == scatter_none_state_s(
                    *self,
                    old(rng).state as int,
                ),
                _ => false,
            },
    {
        proof {
            reveal(scatter_s);
        }
        match self {
            Material::Lambertian { albedo } => {
                let sample = rng.in_unit_sphere();
                let dir = rec.normal.add(&sample);
                let att = albedo.value(rec.u, rec.v, &rec.p);
                Some((Ray { origin: rec.p, direction: dir, time: rec.time }, att))
            },
            Material::Metal { albedo, fuzz } => {
                proof {
                    crate::vec3::lemma_unit_bounded(v(r.direction));
                    crate::vec3::lemma_dot_safe(
                        sunit(v(r.direction)),
                        v(rec.normal),
                        0x2000000,
                        NORMAL_MAX as int,
                    );
                    crate::vec3::lemma_scale_safe(
                        v(rec.normal),
                        2 * sdot(sunit(v(r.direction)), v(rec.normal)),
                        NORMAL_MAX as int,
                        0x80_0000_0000,
                    );
                }
                let ud = r.direction.unit();
                let d2 = ud.dot(&rec.normal);
                let refl = ud.sub(&rec.normal.scale(2 * d2));
                let sample = rng.in_unit_sphere();
                proof {
                    crate::vec3::lemma_scale_safe(v(sample), *fuzz as int, FX_ONE as int, FX_ONE as int);
                }
                let fz = sample.scale(*fuzz);
                let dir = refl.add(&fz);
                proof {
                    crate::vec3::lemma_dot_safe(
                        v(dir),
                        v(rec.normal),
                        0x10_0000_0000_0000,
                        NORMAL_MAX as int,
                    );
                }
                let dn = dir.dot(&rec.normal);
                if dn > 0 {
                    Some((Ray { origin: rec.p, direction: dir, time: rec.time }, *albedo))
                } else {
                    None
                }
            },
            Material::Dielectric { ref_idx } => {
                proof {
                    crate::vec3::lemma_dot_safe(
                        v(r.direction),
                        v(r.direction),
                        0x1_0000_0000,
                        0x1_0000_0000,
                    );
                    crate::vec3::lemma_self_dot_nonneg(v(r.direction));
                    crate::vec3::lemma_dot_safe(
                        v(r.direction),
                        v(rec.normal),
                        0x1_0000_0000,
                        NORMAL_MAX as int,
                    );
                }
                let a = r.direction.dot(&r.direction);
                if a == 0 {
                    return None;
                }
                let len = crate::fixed::fx_sqrt(a);
                proof {
                    assert(len as int >= 1) by (nonlinear_arith)
                        requires
                            crate::fixed::is_sqrt((a as int) * (FX_ONE as int), len as int),
                            a as int >= 1,
                    ;
                }
                let dn = r.direction.dot(&rec.normal);
                let entering = dn > 0;
                proof {
                    if v(rec.normal).x < -(i128::MAX as int) || v(rec.normal).y < -(
                    i128::MAX as int) || v(rec.normal).z < -(i128::MAX as int) {
                        assert(false);
                    }
                }
                let outward = if entering {
                    rec.normal.neg()
                } else {
                    rec.normal
                };
                let ni_over_nt = if entering {
                    *ref_idx
                } else {
                    crate::fixed::fx_div(FX_ONE, *ref_idx)
                };
                proof {
                    crate::fixed::lemma_tdiv_abs((dn as int) * (FX_ONE as int), len as int);
                    crate::fixed::lemma_mul_abs(dn as int, FX_ONE as int);
                    crate::fixed::lemma_tdiv_abs(-(dn as int) * (FX_ONE as int), len as int);
                    crate::fixed::lemma_mul_abs(-(dn as int), FX_ONE as int);
                    crate::fixed::lemma_fmul_bound(
                        *ref_idx as int,
                        fdiv_s(dn as int, len as int),
                        4 * FX_ONE as int,
                        0x8000_0000_0000_0000,
                    );
                }
                let cosine_raw = if entering {
                    crate::fixed::fx_mul(*ref_idx, crate::fixed::fx_div(dn, len))
                } else {
                    crate::fixed::fx_div(-dn, len)
                };
                let cosine = if cosine_raw > FX_ONE {
                    FX_ONE
                } else if cosine_raw < -FX_ONE {
                    -FX_ONE
                } else {
                    cosine_raw
                };
                let refracted = refract(&r.direction, &outward, ni_over_nt);
                let draw = rng.next_fx();
                let dir = match refracted {
                    Some(refr) => {
                        let prob = schlick(cosine, *ref_idx);
                        if draw < prob {
                            reflect_of_unit(&r.direction, &rec.normal)
                        } else {
                            refr
                        }
                    },
                    None => reflect_of_unit(&r.direction, &rec.normal),
                };
                Some(
                    (
                        Ray { origin: rec.p, direction: dir, time: rec.time },
                        Vec3 { x: FX_ONE, y: FX_ONE, z: FX_ONE },
                    ),
                )
            },
            Material::DiffuseLight { emit } => None,
            Material::Isotropic { albedo } => {
                let sample = rng.in_unit_sphere();
                let att = albedo.value(rec.u, rec.v, &rec.p);
                Some((Ray { origin: rec.p, direction: sample, time: rec.time }, att))
            },
        }
    }

    /// The emitted radiance and the light-sample point at a surface point.
    pub fn emitted(&self, u: i128, vv: i128, p: &Vec3) -> (res: (Vec3, Vec3))
        requires
            mat_wf(*self),
            0 <= u <= FX_ONE,
            0 <= vv <= FX_ONE,
        ensures
            (v(res.0), v(res.1)) == emitted_s(*self, u as int, vv as int, v(*p)),
            bounded3(v(res.0), CHANNEL_MAX as int),
            res.1 == *p,
    {
        match self {
            Material::DiffuseLight { emit } => (emit.value(u, vv, p), *p),
            _ => (Vec3 { x: 0, y: 0, z: 0 }, *p),
        }
    }
}

/// The reflection of the unit incoming direction about the normal.
fn reflect_of_unit(d: &Vec3, n: &Vec3) -> (res: Vec3)
    requires
        bounded3(v(*d), 0x1_0000_0000),
        bounded3(v(*n), NORMAL_MAX as int),
    ensures
        v(res) == reflect_s(sunit(v(*d)), v(*n)),
        bounded3(v(res), 0x8_0000_0000_0000),
{
    proof {
        crate::vec3::lemma_unit_bounded(v(*d));
        crate::vec3::lemma_dot_safe(sunit(v(*d)), v(*n), 0x2000000, NORMAL_MAX as int);
        crate::vec3::lemma_scale_safe(
            v(*n),
            2 * sdot(sunit(v(*d)), v(*n)),
            NORMAL_MAX as int,
            0x80_0000_0000,
        );
    }
    let ud = d.unit();
    let dn = ud.dot(n);
    ud.sub(&n.scale(2 * dn))
}

/// The Snell refraction of `d` about the outward normal, or nothing under
/// total internal reflection.
fn refract(d: &Vec3, n: &Vec3, ni_over_nt: i128) -> (res: Option<Vec3>)
    requires
        bounded3(v(*d), 0x1_0000_0000),
        bounded3(v(*n), NORMAL_MAX as int),
        0 <= ni_over_nt <= 0x1_0000_0000,
    ensures
        match (res, refract_s(v(*d), v(*n), ni_over_nt as int)) {
            (Some(a), Some(b)) => v(a) == b && bounded3(v(a), 0x100_0000_0000_0000_0000),
            (None, None) => true,
            _ => false,
        },
{
    proof {
        crate::vec3::lemma_unit_bounded(v(*d));
        crate::vec3::lemma_dot_safe(sunit(v(*d)), v(*n), 0x2000000, NORMAL_MAX as int);
        crate::fixed::lemma_fmul_bound(
            sdot(sunit(v(*d)), v(*n)),
            sdot(sunit(v(*d)), v(*n)),
            0x40_0000_0000,
            0x40_0000_0000,
        );
    }
    let uv = d.unit();
    let dt = uv.dot(n);
    let inner = FX_ONE - crate::fixed::fx_mul(dt, dt);
    proof {
        crate::fixed::lemma_fmul_bound(
            ni_over_nt as int,
            inner as int,
            0x1_0000_0000,
            0x2000_0000_0000_0000,
        );
        crate::fixed::lemma_fmul_bound(
            ni_over_nt as int,
            fmul_s(ni_over_nt as int, inner as int),
            0x1_0000_0000,
            0x4000_0000_0000_0000_0000,
        );
    }
    let disc = FX_ONE - crate::fixed::fx_mul(ni_over_nt, crate::fixed::fx_mul(ni_over_nt, inner));
    if disc > 0 {
        proof {
            crate::vec3::lemma_scale_safe(v(*n), dt as int, NORMAL_MAX as int, 0x40_0000_0000);
            crate::vec3::lemma_scale_safe(
                ssub(sunit(v(*d)), sscale(v(*n), dt as int)),
                ni_over_nt as int,
                0x4_0000_0000_0000,
                0x1_0000_0000,
            );
        }
        let sq = crate::fixed::fx_sqrt(disc);
        proof {
            assert(sq as int <= 0x100_0000_0000_0000) by (nonlinear_arith)
                requires
                    crate::fixed::is_sqrt((disc as int) * (FX_ONE as int), sq as int),
                    0 <= (disc as int) * (FX_ONE as int) <= 0x100_0000_0000_0000
                        * 0x100_0000_0000_0000,
            ;
            crate::vec3::lemma_scale_safe(
                v(*n),
                sq as int,
                NORMAL_MAX as int,
                0x100_0000_0000_0000,
            );
        }
        let t1 = uv.sub(&n.scale(dt));
        let t2 = t1.scale(ni_over_nt);
        let t3 = n.scale(sq);
        Some(t2.sub(&t3))
    } else {
        None
    }
}

/// Schlick's reflectance.
fn schlick(cosine: i128, ref_idx: i128) -> (res: i128)
    requires
        0 < ref_idx <= 4 * FX_ONE,
        iabs(cosine as int) <= FX_ONE,
    ensures
        res as int == schlick_s(cosine as int, ref_idx as int),
{
    proof {
        crate::fixed::lemma_mul_abs((ref_idx - FX_ONE) as int, FX_ONE as int);
        crate::fixed::lemma_tdiv_bound(
            ((ref_idx - FX_ONE) as int) * (FX_ONE as int),
            (ref_idx + FX_ONE) as int,
            0x4_0000_0000,
        );
    }
    let r0a = crate::fixed::fx_div(ref_idx - FX_ONE, ref_idx + FX_ONE);
    proof {
        crate::fixed::lemma_fmul_bound(r0a as int, r0a as int, 0x4_0000_0000, 0x4_0000_0000);
    }
    let r0 = crate::fixed::fx_mul(r0a, r0a);
    let omc = FX_ONE - cosine;
    proof {
        crate::fixed::lemma_fmul_bound(omc as int, omc as int, 0x20000, 0x20000);
        crate::fixed::lemma_fmul_bound(omc as int, fmul_s(omc as int, omc as int), 0x20000, 0x40000);
        crate::fixed::lemma_fmul_bound(
            omc as int,
            fmul_s(omc as int, fmul_s(omc as int, omc as int)),
            0x20000,
            0x80000,
        );
        crate::fixed::lemma_fmul_bound(
            omc as int,
            fmul_s(omc as int, fmul_s(omc as int, fmul_s(omc as int, omc as int))),
            0x20000,
            0x100000,
        );
        crate::fixed::lemma_fmul_bound(
            (FX_ONE - r0) as int,
            fmul_s(
                omc as int,
                fmul_s(omc as int, fmul_s(omc as int, fmul_s(omc as int, omc as int))),
            ),
            0x40_0000_0000_0000,
            0x200000,
        );
    }
    let p5 = crate::fixed::fx_mul(
        omc,
        crate::fixed::fx_mul(omc, crate::fixed::fx_mul(omc, crate::fixed::fx_mul(omc, omc))),
    );
    r0 + crate::fixed::fx_mul(FX_ONE - r0, p5)
}

/// A metal with zero fuzz scatters exactly by the law of reflection: the
/// scattered direction is the mirror image of the unit incoming direction
/// about the normal, and scattering fails exactly when that reflection
/// points into the surface (its dot product with the normal is not
/// positive).
pub proof fn lemma_metal_perfect_reflection(
    albedo: Vec3,
    rd: V3i,
    rec: crate::hitable::HitS,
    s: int,
)
    ensures
        ({
            let m = Material::Metal { albedo, fuzz: 0 };
            let refl = reflect_s(sunit(rd), rec.normal);
            &&& scatter_s(m, rd, rec, s) is Some <==> sdot(refl, rec.normal) > 0
            &&& scatter_s(m, rd, rec, s) matches Some(sc) ==> sc.dir == refl
        }),
{
    reveal(scatter_s);
    let m = Material::Metal { albedo, fuzz: 0 };
    let (sample, s2) = rius_s(s, RIUS_FUEL as nat);
    let refl = reflect_s(sunit(rd), rec.normal);
    assert(fmul_s(sample.x, 0) == 0 && fmul_s(sample.y, 0) == 0 && fmul_s(sample.z, 0) == 0) by {
        crate::fixed::lemma_mul_abs(sample.x, 0);
        crate::fixed::lemma_tdiv_abs(sample.x * 0, FX_ONE as int);
        crate::fixed::lemma_mul_abs(sample.y, 0);
        crate::fixed::lemma_tdiv_abs(sample.y * 0, FX_ONE as int);
        crate::fixed::lemma_mul_abs(sample.z, 0);
        crate::fixed::lemma_tdiv_abs(sample.z * 0, FX_ONE as int);
    }
    assert(metal_dir_s(rd, rec.normal, 0, sample) == refl);
}

/// A dielectric whose refractive index is one does not bend an entering
/// ray: when the unit incoming direction meets the surface head on (so the
/// fixed-point square root involved is exact) and the reflectance draw
/// chooses refraction, the scattered direction equals the unit incoming
/// direction.
pub proof fn lemma_dielectric_index_one_straight(d: V3i, n: V3i, draw: int)
    requires
        sdot(d, n) < 0,
        sunit(d) == sneg(n),
        sdot(sunit(d), n) == -(FX_ONE as int),
        draw >= schlick_s(
            clamp_unit(fdiv_s(-sdot(d, n), crate::fixed::fsqrt_s(sdot(d, d)))),
            FX_ONE as int,
        ),
    ensures
        dielectric_dir_s(d, n, FX_ONE as int, draw) == sunit(d),
{
    let uv = sunit(d);
    let dt = sdot(uv, n);
    assert(dt == -(FX_ONE as int));
    assert(fmul_s(dt, dt) == FX_ONE as int) by {
        assert(dt * dt == (FX_ONE as int) * (FX_ONE as int)) by (nonlinear_arith)
            requires
                dt == -(FX_ONE as int),
        ;
        crate::fixed::lemma_tdiv_abs((FX_ONE as int) * (FX_ONE as int), FX_ONE as int);
        vstd::arithmetic::div_mod::lemma_div_multiples_vanish(FX_ONE as int, FX_ONE as int);
    }
    assert(fmul_s(FX_ONE as int, 0) == 0) by {
        crate::fixed::lemma_mul_abs(FX_ONE as int, 0);
        crate::fixed::lemma_tdiv_abs((FX_ONE as int) * 0, FX_ONE as int);
    }
    assert(fmul_s(FX_ONE as int, fmul_s(FX_ONE as int, 0)) == 0) by {
        crate::fixed::lemma_mul_abs(FX_ONE as int, 0);
        crate::fixed::lemma_tdiv_abs((FX_ONE as int) * 0, FX_ONE as int);
    }
    let disc = FX_ONE as int - fmul_s(FX_ONE as int, fmul_s(FX_ONE as int, FX_ONE as int - fmul_s(dt, dt)));
    assert(disc == FX_ONE as int);
    assert(crate::fixed::fsqrt_s(FX_ONE as int) == FX_ONE as int) by {
        assert((FX_ONE as int) * (FX_ONE as int) <= (FX_ONE as int) * (FX_ONE as int));
        assert((FX_ONE as int) * (FX_ONE as int) < ((FX_ONE as int) + 1) * ((FX_ONE as int) + 1))
            by (nonlinear_arith);
        crate::fixed::lemma_isqrt_unique((FX_ONE as int) * (FX_ONE as int), FX_ONE as int);
    }
    let refr = refract_s(d, n, FX_ONE as int);
    assert(refr is Some);
    let rv = refr->Some_0;
    assert(fdiv_s(FX_ONE as int, FX_ONE as int) == FX_ONE as int) by {
        crate::fixed::lemma_tdiv_abs((FX_ONE as int) * (FX_ONE as int), FX_ONE as int);
        vstd::arithmetic::div_mod::lemma_div_multiples_vanish(FX_ONE as int, FX_ONE as int);
    }
    lemma_scale_one(ssub(uv, sscale(n, dt)));
    lemma_scale_one(n);
    assert(rv == ssub(ssub(uv, sscale(n, dt)), sscale(n, FX_ONE as int)));
    assert(sscale(n, dt) == sneg(sscale(n, FX_ONE as int))) by {
        lemma_scale_neg_one(n);
    }
    assert(rv == uv);
}

/// Scaling by one is the identity, componentwise.
proof fn lemma_scale_one_comp(x: int)
    ensures
        fmul_s(x, FX_ONE as int) == x,
{
    crate::fixed::lemma_tdiv_abs(x * (FX_ONE as int), FX_ONE as int);
    if x >= 0 {
        vstd::arithmetic::div_mod::lemma_div_multiples_vanish(x, FX_ONE as int);
    } else {
        vstd::arithmetic::div_mod::lemma_div_multiples_vanish(-x, FX_ONE as int);
        assert(-(x * (FX_ONE as int)) == (-x) * (FX_ONE as int)) by (nonlinear_arith);
    }
}

proof fn lemma_scale_one(a: V3i)
    ensures
        sscale(a, FX_ONE as int) == a,
{
    lemma_scale_one_comp(a.x);
    lemma_scale_one_comp(a.y);
    lemma_scale_one_comp(a.z);
}

/// Scaling by minus one negates, componentwise.
proof fn lemma_scale_neg_one(a: V3i)
    ensures
        sscale(a, -(FX_ONE as int)) == sneg(a),
{
    lemma_scale_one_comp(a.x);
    lemma_scale_one_comp(a.y);
    lemma_scale_one_comp(a.z);
    assert(a.x * (-(FX_ONE as int)) == -(a.x * (FX_ONE as int))) by (nonlinear_arith);
    assert(a.y * (-(FX_ONE as int)) == -(a.y * (FX_ONE as int))) by (nonlinear_arith);
    assert(a.z * (-(FX_ONE as int)) == -(a.z * (FX_ONE as int))) by (nonlinear_arith);
}

} // verus!
