//! Texture-value providers: a constant colour, and a decoded bitmap sampled
//! by surface coordinates. Decoding a file into the pixel bytes is the
//! caller's concern; the lookup arithmetic lives here.
use vstd::prelude::*;
use crate::fixed::{fdiv_s, iabs, tdiv, FX_ONE};
use crate::vec3::{v, V3i, Vec3};

verus! {

/// Colour channel values of textures (and so attenuations) stay within one;
/// emitted radiance may reach this multiple of one.
pub const CHANNEL_MAX: i128 = 0x100000;

pub struct ImageTexture {
    pub pixels: Vec<u8>,
    pub nx: usize,
    pub ny: usize,
}

pub enum Texture {
    Constant(Vec3),
    Image(ImageTexture),
}

pub open spec fn img_wf(t: ImageTexture) -> bool {
    &&& t.pixels@.len() == 3 * t.nx * t.ny
    &&& 1 <= t.nx <= 0x10000
    &&& 1 <= t.ny <= 0x10000
    &&& 3 * t.nx * t.ny <= usize::MAX
}

pub open spec fn tex_wf(t: Texture) -> bool {
    match t {
        Texture::Constant(c) => crate::vec3::bounded3(v(c), CHANNEL_MAX as int),
        Texture::Image(img) => img_wf(img),
    }
}

/// The sampled colour: the pixel under (u, 1 - v), clamped to the image,
/// each byte rescaled into [0, 1].
pub open spec fn img_value_s(t: ImageTexture, u: int, vv: int) -> V3i {
    let i0 = tdiv(u * t.nx, FX_ONE as int);
    let j0 = tdiv((FX_ONE - vv) * t.ny, FX_ONE as int);
    let i = if i0 > t.nx - 1 {
        t.nx - 1
    } else {
        i0
    };
    let j = if j0 > t.ny - 1 {
        t.ny - 1
    } else {
        j0
    };
    let idx = 3 * i + 3 * t.nx * j;
    V3i {
        x: fdiv_s(t.pixels@[idx] as int, 255),
        y: fdiv_s(t.pixels@[idx + 1] as int, 255),
        z: fdiv_s(t.pixels@[idx + 2] as int, 255),
    }
}

pub open spec fn tex_value_s(t: Texture, u: int, vv: int, p: V3i) -> V3i {
    match t {
        Texture::Constant(c) => v(c),
        Texture::Image(img) => img_value_s(img, u, vv),
    }
}

impl ImageTexture {
    pub fn new(pixels: Vec<u8>, nx: usize, ny: usize) -> (r: ImageTexture)
        ensures
            r.pixels == pixels && r.nx == nx && r.ny == ny,
    {
        ImageTexture { pixels, nx, ny }
    }
}

impl Texture {
    /// The texture's colour at the surface coordinates (u, v) and point p.
    pub fn value(&self, u: i128, vv: i128, p: &Vec3) -> (r: Vec3)
        requires
            tex_wf(*self),
            0 <= u <= FX_ONE,
            0 <= vv <= FX_ONE,
        ensures
            v(r) == tex_value_s(*self, u as int, vv as int, v(*p)),
            crate::vec3::bounded3(v(r), CHANNEL_MAX as int),
            (self matches Texture::Image(_)) ==> crate::vec3::bounded3(v(r), FX_ONE as int),
    {
        match self {
            Texture::Constant(c) => *c,
            Texture::Image(img) => {
                proof {
                    crate::fixed::lemma_tdiv_abs(u as int * img.nx as int, FX_ONE as int);
                    crate::fixed::lemma_tdiv_abs(
                        (FX_ONE - vv) as int * img.ny as int,
                        FX_ONE as int,
                    );
                    vstd::arithmetic::div_mod::lemma_div_pos_is_pos(
                        u as int * img.nx as int,
                        FX_ONE as int,
                    );
                    vstd::arithmetic::div_mod::lemma_div_pos_is_pos(
                        (FX_ONE - vv) as int * img.ny as int,
                        FX_ONE as int,
                    );
                    assert(u as int * img.nx as int <= FX_ONE as int * img.nx as int)
                        by (nonlinear_arith)
                        requires
                            0 <= u <= FX_ONE,
                            img.nx >= 1,
                    ;
                    assert((FX_ONE - vv) as int * img.ny as int <= FX_ONE as int * img.ny as int)
                        by (nonlinear_arith)
                        requires
                            0 <= vv <= FX_ONE,
                            img.ny >= 1,
                    ;
                    assert(0 <= u as int * img.nx as int) by (nonlinear_arith)
                        requires
                            0 <= u,
                            img.nx >= 1,
                    ;
                    assert(0 <= (FX_ONE - vv) as int * img.ny as int) by (nonlinear_arith)
                        requires
                            vv <= FX_ONE,
                            img.ny >= 1,
                    ;
                    vstd::arithmetic::div_mod::lemma_div_is_ordered(
                        u as int * img.nx as int,
                        FX_ONE as int * img.nx as int,
                        FX_ONE as int,
                    );
                    vstd::arithmetic::div_mod::lemma_div_is_ordered(
                        (FX_ONE - vv) as int * img.ny as int,
                        FX_ONE as int * img.ny as int,
                        FX_ONE as int,
                    );
                    vstd::arithmetic::div_mod::lemma_div_multiples_vanish(
                        img.nx as int,
                        FX_ONE as int,
                    );
                    vstd::arithmetic::div_mod::lemma_div_multiples_vanish(
                        img.ny as int,
                        FX_ONE as int,
                    );
                }
                let iu: i128 = (u * img.nx as i128) / FX_ONE;
                let jv: i128 = ((FX_ONE - vv) * img.ny as i128) / FX_ONE;
                let mut i: usize = iu as usize;
                let mut j: usize = jv as usize;
                if i > img.nx - 1 {
                    i = img.nx - 1;
                }
                if j > img.ny - 1 {
                    j = img.ny - 1;
                }
                proof {
                    assert(3 * (i as int) + 3 * (img.nx as int) * (j as int) + 2 < 3 * (
                    img.nx as int) * (img.ny as int) && 3 * (img.nx as int) <= 3 * (img.nx as int)
                        * (img.ny as int) && 3 * (img.nx as int) * (j as int) <= 3 * (
                    img.nx as int) * (img.ny as int)) by (nonlinear_arith)
                        requires
                            0 <= i as int <= img.nx as int - 1,
                            0 <= j as int <= img.ny as int - 1,
                            1 <= img.nx as int,
                            1 <= img.ny as int,
                    ;
                }
                let idx: usize = 3 * i + 3 * img.nx * j;
                let r = crate::fixed::fx_div(img.pixels[idx] as i128, 255);
                let g = crate::fixed::fx_div(img.pixels[idx + 1] as i128, 255);
                let b = crate::fixed::fx_div(img.pixels[idx + 2] as i128, 255);
                proof {
                    crate::fixed::lemma_fdiv_unit(img.pixels@[idx as int] as int, 255);
                    crate::fixed::lemma_fdiv_unit(img.pixels@[idx as int + 1] as int, 255);
                    crate::fixed::lemma_fdiv_unit(img.pixels@[idx as int + 2] as int, 255);
                }
                Vec3 { x: r, y: g, z: b }
            },
        }
    }
}

} // verus!
