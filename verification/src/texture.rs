//! Textures: an immutable pixel buffer sampled in `[0, 1]^2` UV space.

use vstd::prelude::*;
use crate::fx::{bnd, qz, SCALE, lemma_mul_mag, lemma_qz_mag, lemma_qz_mag_le, wmul, divq};
use crate::vec3::Vec3;

verus! {

/// Limit on a texture's width, height and row pitch.
pub const TEXDIM: u32 = 0x10_0000;

/// Magnitude limit on the UV coordinates `sample` accepts (256 units).
pub const UVB: i64 = 0x100_0000;

pub struct Texture {
    pub data: Vec<u8>,
    pub width: u32,
    pub height: u32,
    pub pitch: u32,
    pub bpp: u32,
}

pub open spec fn tex_ok(t: &Texture) -> bool {
    &&& 1 <= t.width <= TEXDIM
    &&& 1 <= t.height <= TEXDIM
    &&& t.pitch <= TEXDIM
    &&& t.bpp <= 16
    &&& t.data@.len() == t.height * t.pitch
}

/// The byte at offset `i` of the pixel buffer; out-of-range offsets read as
/// zero (black).
pub open spec fn byte_at(t: &Texture, i: int) -> u8 {
    if 0 <= i < t.data@.len() {
        t.data@[i]
    } else {
        0
    }
}

/// A color channel byte rescaled into the fixed-point `[0, 1]`.
pub open spec fn channel_fx(b: u8) -> int {
    qz(b * (SCALE as int), 255)
}

/// The sampled color at `(u, v)`: the texel at `(floor(u * W), floor(v * H))`
/// read as three bytes from the buffer, each rescaled into `[0, 1]`.
pub open spec fn sample_s(t: &Texture, u: int, v: int) -> Vec3 {
    let x = qz(u * t.width, SCALE as int);
    let y = qz(v * t.height, SCALE as int);
    let idx = y * t.pitch + x * t.bpp;
    Vec3 {
        x: channel_fx(byte_at(t, idx)) as i64,
        y: channel_fx(byte_at(t, idx + 1)) as i64,
        z: channel_fx(byte_at(t, idx + 2)) as i64,
    }
}

impl Texture {
    /// Constructor from an already decoded pixel buffer, its dimensions, row
    /// pitch and bytes per pixel.
    pub fn from_parts(data: Vec<u8>, width: u32, height: u32, pitch: u32, bpp: u32) -> (r: Texture)
        requires
            1 <= width <= TEXDIM,
            1 <= height <= TEXDIM,
            pitch <= TEXDIM,
            bpp <= 16,
            data@.len() == height * pitch,
        ensures
            r.width == width,
            r.height == height,
            r.pitch == pitch,
            r.bpp == bpp,
            r.data@ == data@,
            tex_ok(&r),
    {
        Texture { data, width, height, pitch, bpp }
    }

    /// The byte at offset `i`, zero when `i` is outside the buffer.
    fn read_byte(&self, i: i128) -> (b: u8)
        ensures
            b == byte_at(self, i as int),
    {
        let n: i128 = self.data.len() as i128;
        if 0 <= i && i < n {
            self.data[i as usize]
        } else {
            0
        }
    }

    /// Sample the texture at `(u, v)` in fixed-point UV space. Coordinates
    /// outside `[0, 1]^2` land outside the pixel buffer and read as black;
    /// the result is a color with components in `[0, 1]`.
    pub fn sample(&self, u: i64, v: i64) -> (c: Vec3)
        requires
            tex_ok(self),
            bnd(u as int, UVB as int),
            bnd(v as int, UVB as int),
        ensures
            c == sample_s(self, u as int, v as int),
            crate::material::coeff_ok(c),
    {
        proof {
            lemma_mul_mag(u as int, self.width as int, UVB as int, TEXDIM as int);
            lemma_mul_mag(v as int, self.height as int, UVB as int, TEXDIM as int);
            lemma_qz_mag_le(u * self.width, (UVB as int) * (TEXDIM as int), SCALE as int);
            lemma_qz_mag_le(v * self.height, (UVB as int) * (TEXDIM as int), SCALE as int);
        }
        let x: i128 = divq(wmul(u, self.width as i64), SCALE as i128);
        let y: i128 = divq(wmul(v, self.height as i64), SCALE as i128);
        proof {
            let cap = ((UVB as int) * (TEXDIM as int)) / (SCALE as int);
            crate::fx::lemma_mul_mag(y as int, self.pitch as int, cap, TEXDIM as int);
            crate::fx::lemma_mul_mag(x as int, self.bpp as int, cap, 16);
        }
        let idx: i128 = y * (self.pitch as i128) + x * (self.bpp as i128);
        let cr = self.read_byte(idx);
        let cg = self.read_byte(idx + 1);
        let cb = self.read_byte(idx + 2);
        proof {
            lemma_channel_fx_box(cr);
            lemma_channel_fx_box(cg);
            lemma_channel_fx_box(cb);
        }
        Vec3 { x: channel(cr), y: channel(cg), z: channel(cb) }
    }
}

/// A channel byte rescaled into fixed-point `[0, 1]`.
fn channel(b: u8) -> (r: i64)
    ensures
        r == channel_fx(b),
{
    divq(wmul(b as i64, SCALE), 255) as i64
}

proof fn lemma_channel_fx_box(b: u8)
    ensures
        0 <= channel_fx(b) <= SCALE,
{
    lemma_mul_mag(b as int, SCALE as int, 255, SCALE as int);
    lemma_qz_mag_le(b * (SCALE as int), 255 * (SCALE as int), 255);
    assert((255 * (SCALE as int)) / 255 == SCALE as int) by {
        vstd::arithmetic::div_mod::lemma_div_multiples_vanish(SCALE as int, 255);
    }
    assert(b * (SCALE as int) >= 0) by (nonlinear_arith)
        requires
            b >= 0,
    ;
    assert((b * (SCALE as int)) / 255 >= 0) by {
        vstd::arithmetic::div_mod::lemma_div_pos_is_pos(b * (SCALE as int), 255);
    }
}

} // verus!
