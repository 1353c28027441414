//! The per-pixel renderer: N jittered camera rays per pixel, their radiance
//! averaged, gamma-2 corrected (componentwise square root), scaled to the
//! 8-bit range and clamped. The result is a pure function of the scene, the
//! camera, the pixel and the seed, so a render is reproducible bit for bit,
//! and pixels (or rows) may be computed concurrently in any order.
use vstd::prelude::*;
use crate::camera::{cam_wf, get_ray_s, Camera};
use crate::fixed::{fdiv_s, fmul_s, fsqrt_s, iabs, tdiv, FX_ONE};
use crate::hitable::Hitable;
use crate::hitable_list::HitableList;
use crate::integrator::{color, color_s, rad_bound, scene_wf, Environment};
use crate::material::Material;
use crate::rng::{next_state, state_out, Rng48, LCG_MOD};
use crate::vec3::{bounded3, sadd, v, V3i, Vec3};

verus! {

/// 255.99 in fixed point: the scale from unit radiance to the byte range.
pub const BYTE_SCALE: i128 = 16776560;

/// The largest radiance a single sample can contribute.
pub const SAMPLE_MAX: i128 = 0xD000000;

/// The radiance sum and generator state after the first `n` samples of the
/// pixel (i, j).
pub open spec fn sample_loop_s(
    world: Seq<Hitable>,
    mats: Seq<Material>,
    env: Environment,
    cam: Camera,
    i: int,
    j: int,
    nx: int,
    ny: int,
    n: nat,
    state: int,
) -> (V3i, int)
    decreases n,
{
    if n == 0 {
        (V3i { x: 0, y: 0, z: 0 }, state)
    } else {
        let (acc, st) = sample_loop_s(world, mats, env, cam, i, j, nx, ny, (n - 1) as nat, state);
        let s1 = next_state(st);
        let u = fdiv_s(i * FX_ONE + state_out(s1), nx * FX_ONE);
        let s2 = next_state(s1);
        let vv = fdiv_s(j * FX_ONE + state_out(s2), ny * FX_ONE);
        let (o, d, tm, st3) = get_ray_s(cam, u, vv, s2);
        let (c, st4) = color_s(world, mats, env, o, d, tm, 0, st3);
        (sadd(acc, c), st4)
    }
}

/// One channel after averaging, gamma correction and byte scaling.
pub open spec fn channel_s(sum: int, ns: int) -> int {
    let avg = tdiv(sum, ns);
    let g = if avg < 0 {
        0
    } else {
        avg
    };
    let b = tdiv(fmul_s(fsqrt_s(g), BYTE_SCALE as int), FX_ONE as int);
    if b > 255 {
        255
    } else {
        b
    }
}

/// The pixel (i, j) of an nx-by-ny render with ns samples from a seed.
#[verifier::opaque]
pub open spec fn render_pixel_s(
    world: Seq<Hitable>,
    mats: Seq<Material>,
    env: Environment,
    cam: Camera,
    i: int,
    j: int,
    nx: int,
    ny: int,
    ns: int,
    seed: int,
) -> (int, int, int) {
    let (sum, st) = sample_loop_s(
        world,
        mats,
        env,
        cam,
        i,
        j,
        nx,
        ny,
        ns as nat,
        seed % (LCG_MOD as int),
    );
    (channel_s(sum.x, ns), channel_s(sum.y, ns), channel_s(sum.z, ns))
}

/// The seed assigned to a pixel: a deterministic function of the base seed
/// and the pixel's position, never of scheduling order.
pub open spec fn pixel_seed_s(seed: int, i: int, j: int, nx: int) -> int {
    (seed + (j * nx + i) * 2654435761) % 0x1_0000_0000_0000_0000
}

/// Renders one pixel: the average of ns jittered samples, gamma-corrected
/// and scaled to bytes. The result is a pure function of the arguments.
pub fn render_pixel(
    world: &HitableList,
    mats: &Vec<Material>,
    env: &Environment,
    cam: &Camera,
    i: usize,
    j: usize,
    nx: usize,
    ny: usize,
    ns: usize,
    seed: u64,
) -> (res: (u8, u8, u8))
    requires
        scene_wf(world.objects@, mats@, *env),
        cam_wf(*cam),
        0 < nx <= 0x10000,
        0 < ny <= 0x10000,
        i < nx,
        j < ny,
        0 < ns <= 0x10000,
    ensures
        ({
            let (r, g, b) = render_pixel_s(
                world.objects@,
                mats@,
                *env,
                *cam,
                i as int,
                j as int,
                nx as int,
                ny as int,
                ns as int,
                seed as int,
            );
            res.0 as int == r && res.1 as int == g && res.2 as int == b
        }),
{
    proof {
        reveal(render_pixel_s);
    }
    let mut rng = Rng48::new(seed);
    let mut col = Vec3 { x: 0, y: 0, z: 0 };
    let mut k: usize = 0;
    while k < ns
        invariant
            scene_wf(world.objects@, mats@, *env),
            cam_wf(*cam),
            0 < nx <= 0x10000,
            0 < ny <= 0x10000,
            i < nx,
            j < ny,
            0 < ns <= 0x10000,
            0 <= k <= ns,
            crate::rng::rng_wf(rng),
            (v(col), rng.state as int) == sample_loop_s(
                world.objects@,
                mats@,
                *env,
                *cam,
                i as int,
                j as int,
                nx as int,
                ny as int,
                k as nat,
                (seed as int) % (LCG_MOD as int),
            ),
            iabs(col.x as int) <= k * SAMPLE_MAX,
            iabs(col.y as int) <= k * SAMPLE_MAX,
            iabs(col.z as int) <= k * SAMPLE_MAX,
        decreases ns - k,
    {
        let ur = rng.next_fx();
        proof {
            crate::fixed::lemma_fdiv_unit(
                i as int * FX_ONE + ur as int,
                nx as int * FX_ONE,
            );
            assert(i as int * FX_ONE + ur < nx as int * FX_ONE && 0 <= i as int * FX_ONE)
                by (nonlinear_arith)
                requires
                    0 <= i as int <= nx as int - 1,
                    0 <= ur < FX_ONE,
                    1 <= nx as int,
            ;
        }
        let u = crate::fixed::fx_div(i as i128 * FX_ONE + ur, nx as i128 * FX_ONE);
        let vr = rng.next_fx();
        proof {
            crate::fixed::lemma_fdiv_unit(
                j as int * FX_ONE + vr as int,
                ny as int * FX_ONE,
            );
            assert(j as int * FX_ONE + vr < ny as int * FX_ONE && 0 <= j as int * FX_ONE)
                by (nonlinear_arith)
                requires
                    0 <= j as int <= ny as int - 1,
                    0 <= vr < FX_ONE,
                    1 <= ny as int,
            ;
        }
        let vv = crate::fixed::fx_div(j as i128 * FX_ONE + vr, ny as i128 * FX_ONE);
        let ray = cam.get_ray(u, vv, &mut rng);
        let c = color(&ray, world, mats, 0, env, &mut rng);
        proof {
            assert(rad_bound(0) == SAMPLE_MAX);
            assert((k + 1) * SAMPLE_MAX == k * SAMPLE_MAX + SAMPLE_MAX) by (nonlinear_arith);
        }
        col = col.add(&c);
        k = k + 1;
    }
    proof {
        assert(0x10000 * (SAMPLE_MAX as int) <= 0x10000_0000_0000) by (nonlinear_arith);
        assert(k * SAMPLE_MAX <= 0x10000 * (SAMPLE_MAX as int)) by (nonlinear_arith)
            requires
                0 <= k <= 0x10000,
        ;
    }
    let r = channel(col.x, ns as i128);
    let g = channel(col.y, ns as i128);
    let b = channel(col.z, ns as i128);
    (r, g, b)
}

/// One channel: average, clamp below at zero, gamma-2, byte scale, clamp.
fn channel(sum: i128, ns: i128) -> (res: u8)
    requires
        0 < ns,
        iabs(sum as int) <= 0x10000_0000_0000,
    ensures
        res as int == channel_s(sum as int, ns as int),
{
    proof {
        crate::fixed::lemma_tdiv_abs(sum as int, ns as int);
    }
    let avg = sum / ns;
    let gcl = if avg < 0 {
        0
    } else {
        avg
    };
    let sq = crate::fixed::fx_sqrt(gcl);
    proof {
        assert(sq as int <= 0x4_0000_0000) by (nonlinear_arith)
            requires
                crate::fixed::is_sqrt((gcl as int) * (FX_ONE as int), sq as int),
                0 <= (gcl as int) * (FX_ONE as int) <= 0x4_0000_0000 * 0x4_0000_0000,
        ;
        crate::fixed::lemma_fmul_bound(sq as int, BYTE_SCALE as int, 0x4_0000_0000, BYTE_SCALE as int);
        crate::fixed::lemma_tdiv_abs(
            fmul_s(sq as int, BYTE_SCALE as int),
            FX_ONE as int,
        );
    }
    let scaled = crate::fixed::fx_mul(sq, BYTE_SCALE);
    let byte = scaled / FX_ONE;
    if byte > 255 {
        255u8
    } else {
        byte as u8
    }
}

/// Determinism: a pixel's value is a function of the scene, the camera, the
/// pixel position, the grid, the sample count and the seed alone. Two
/// renders that agree on those agree bit for bit, whatever order or worker
/// produced them.
pub proof fn lemma_render_deterministic(
    world: Seq<Hitable>,
    mats: Seq<Material>,
    env: Environment,
    cam: Camera,
    i: int,
    j: int,
    nx: int,
    ny: int,
    ns: int,
    seed: int,
    p1: (int, int, int),
    p2: (int, int, int),
)
    requires
        p1 == render_pixel_s(world, mats, env, cam, i, j, nx, ny, ns, seed),
        p2 == render_pixel_s(world, mats, env, cam, i, j, nx, ny, ns, seed),
    ensures
        p1 == p2,
{
}

/// Renders one row of the image; each pixel's generator is seeded from the
/// base seed and the pixel's coordinates alone.
pub fn render_row(
    world: &HitableList,
    mats: &Vec<Material>,
    env: &Environment,
    cam: &Camera,
    j: usize,
    nx: usize,
    ny: usize,
    ns: usize,
    seed: u64,
) -> (res: Vec<(u8, u8, u8)>)
    requires
        scene_wf(world.objects@, mats@, *env),
        cam_wf(*cam),
        0 < nx <= 0x10000,
        0 < ny <= 0x10000,
        j < ny,
        0 < ns <= 0x10000,
    ensures
        res@.len() == nx,
        forall|i: int|
            0 <= i < nx ==> {
                let (r, g, b) = render_pixel_s(
                    world.objects@,
                    mats@,
                    *env,
                    *cam,
                    i,
                    j as int,
                    nx as int,
                    ny as int,
                    ns as int,
                    pixel_seed_s(seed as int, i, j as int, nx as int),
                );
                (#[trigger] res@[i]).0 as int == r && res@[i].1 as int == g && res@[i].2 as int
                    == b
            },
{
    let mut out: Vec<(u8, u8, u8)> = Vec::new();
    let mut i: usize = 0;
    while i < nx
        invariant
            scene_wf(world.objects@, mats@, *env),
            cam_wf(*cam),
            0 < nx <= 0x10000,
            0 < ny <= 0x10000,
            j < ny,
            0 < ns <= 0x10000,
            0 <= i <= nx,
            out@.len() == i,
            forall|q: int|
                0 <= q < i ==> {
                    let (r, g, b) = render_pixel_s(
                        world.objects@,
                        mats@,
                        *env,
                        *cam,
                        q,
                        j as int,
                        nx as int,
                        ny as int,
                        ns as int,
                        pixel_seed_s(seed as int, q, j as int, nx as int),
                    );
                    (#[trigger] out@[q]).0 as int == r && out@[q].1 as int == g && out@[q].2 as int
                        == b
                },
        decreases nx - i,
    {
        proof {
            assert((j as int) * (nx as int) + i as int <= 0x1_0000_0000) by (nonlinear_arith)
                requires
                    j < 0x10000 && nx <= 0x10000 && i < 0x10000,
            ;
        }
        let pix_index: u64 = (j as u64) * (nx as u64) + (i as u64);
        let pseed: u64 = seed.wrapping_add(pix_index.wrapping_mul(2654435761));
        let p = render_pixel(world, mats, env, cam, i, j, nx, ny, ns, pseed);
        out.push(p);
        i = i + 1;
    }
    out
}

} // verus!
