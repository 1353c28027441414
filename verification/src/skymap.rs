//! An equirectangular radiance panorama for image-based lighting. The
//! decoded texels arrive as plain colour values; this module holds the
//! (longitude, latitude) to texel indexing, with a configurable longitude
//! offset and wraparound. Deriving the angles from a direction is the
//! caller's concern.
use vstd::prelude::*;
use crate::fixed::{fdiv_s, iabs, tdiv, FX_ONE};
use crate::vec3::{v, Vec3};

verus! {

/// The angle pi in fixed point.
pub const PI_FX: i128 = 205887;

pub struct IBLSkyMap {
    pub pixels: Vec<Vec3>,
    pub height: usize,
    pub longitude_offset: i128,
}

pub open spec fn skymap_wf(m: IBLSkyMap) -> bool {
    &&& 1 <= m.height <= 0x8000
    &&& m.pixels@.len() == 2 * m.height * m.height
}

/// Truncating remainder (the remainder Rust's `%` computes), for a positive
/// modulus.
pub open spec fn trem(a: int, b: int) -> int {
    if a >= 0 {
        a % b
    } else {
        -((-a) % b)
    }
}

/// The texel index sampled for angles (theta, phi): longitude and latitude
/// become fractions of the image, wrap around, clamp at the poles, and pick
/// a row-major texel.
pub open spec fn skymap_index_s(m: IBLSkyMap, theta: int, phi: int) -> int {
    let w = 2 * m.height;
    let u = trem(fdiv_s(phi + PI_FX + m.longitude_offset, 2 * (PI_FX as int)), FX_ONE as int);
    let vv = trem(fdiv_s(theta, PI_FX as int), FX_ONE as int);
    let x0 = tdiv(w * u, FX_ONE as int);
    let y0 = tdiv(m.height * vv, FX_ONE as int);
    let x = if x0 < 0 {
        0
    } else {
        x0
    };
    let y = if y0 < 0 {
        0
    } else {
        y0
    };
    (y * w + x) % (w * m.height)
}

impl IBLSkyMap {
    pub fn new(pixels: Vec<Vec3>, height: usize, longitude_offset: i128) -> (r: IBLSkyMap)
        ensures
            r.pixels == pixels && r.height == height && r.longitude_offset == longitude_offset,
    {
        IBLSkyMap { pixels, height, longitude_offset }
    }
}

/// The panorama's radiance for the angles (theta, phi): the texel under the
/// wrapped longitude/latitude fractions.
pub fn radiance(map: &IBLSkyMap, theta: i128, phi: i128) -> (r: Vec3)
    requires
        skymap_wf(*map),
        iabs(theta as int) <= 8 * PI_FX,
        iabs(phi as int) <= 8 * PI_FX,
        iabs(map.longitude_offset as int) <= 8 * PI_FX,
    ensures
        v(r) == v(map.pixels@[skymap_index_s(*map, theta as int, phi as int)]),
{
    let w: usize = 2 * map.height;
    let u: i128 = crate::fixed::fx_div(phi + PI_FX + map.longitude_offset, 2 * PI_FX) % FX_ONE;
    let vv: i128 = crate::fixed::fx_div(theta, PI_FX) % FX_ONE;
    proof {
        crate::fixed::lemma_tdiv_abs((w as int) * (u as int), FX_ONE as int);
        crate::fixed::lemma_mul_abs(w as int, u as int);
        assert((w as int) * iabs(u as int) < (w as int) * (FX_ONE as int)) by (nonlinear_arith)
            requires
                1 <= w as int,
                iabs(u as int) < FX_ONE,
        ;
        assert(iabs(w as int) == w as int);
        crate::fixed::lemma_tdiv_abs((map.height as int) * (vv as int), FX_ONE as int);
        crate::fixed::lemma_mul_abs(map.height as int, vv as int);
        assert((map.height as int) * iabs(vv as int) < (map.height as int) * (FX_ONE as int))
            by (nonlinear_arith)
            requires
                1 <= map.height as int,
                iabs(vv as int) < FX_ONE,
        ;
        assert(iabs(map.height as int) == map.height as int);
        vstd::arithmetic::div_mod::lemma_multiply_divide_lt(
            (w as int) * (u as int),
            FX_ONE as int,
            w as int,
        );
        vstd::arithmetic::div_mod::lemma_multiply_divide_lt(
            (map.height as int) * (vv as int),
            FX_ONE as int,
            map.height as int,
        );
    }
    let x0: i128 = (w as i128 * u) / FX_ONE;
    let y0: i128 = (map.height as i128 * vv) / FX_ONE;
    let x: usize = if x0 < 0 {
        0
    } else {
        x0 as usize
    };
    let y: usize = if y0 < 0 {
        0
    } else {
        y0 as usize
    };
    proof {
        assert((y as int) * (w as int) + (x as int) < (w as int) * (map.height as int))
            by (nonlinear_arith)
            requires
                0 <= x as int,
                x as int <= w as int - 1,
                0 <= y as int,
                y as int <= map.height as int - 1,
                1 <= w as int,
        ;
        assert((w as int) * (map.height as int) == map.pixels@.len()) by (nonlinear_arith)
            requires
                w as int == 2 * map.height as int,
                map.pixels@.len() == 2 * (map.height as int) * (map.height as int),
        ;
    }
    let all: usize = map.pixels.len();
    let index: usize = (y * w + x) % all;
    proof {
        assert((w as int) * (map.height as int) * 2 / 2 == map.pixels@.len()) by (nonlinear_arith)
            requires
                w as int == 2 * map.height as int,
                map.pixels@.len() == 2 * (map.height as int) * (map.height as int),
        ;
        vstd::arithmetic::div_mod::lemma_small_mod(
            ((y as int) * (w as int) + (x as int)) as nat,
            map.pixels@.len() as nat,
        );
    }
    map.pixels[index]
}

} // verus!
