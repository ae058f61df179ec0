//! The texture protocol: a color for a surface parameterization and a hit
//! point. Constant colors, a spatial checkerboard, procedural noise, and
//! lookups into a pre-decoded image.

use vstd::prelude::*;
use crate::fixed::{FP_ONE, in_fp, tdiv, emod_e, fdiv_e};
use crate::vec3::{Vec3, V3, v_in_fp, vscale};
use crate::perlin::{Perlin, perlin_wf, perlin_perms_ok, perlin_noise};
use crate::rng::Rng;

verus! {

/// The spatial cell width of the checker pattern: an approximation of
/// pi / 10 in fixed-point units, so that cell parity tracks the sign of
/// `sin(10 x) sin(10 y) sin(10 z)`.
pub const CHECKER_CELL: i64 = 20590;

/// Procedural noise texture: a grey level from the Perlin field at the
/// scaled hit point.
pub struct NoiseTexture {
    pub noise: Perlin,
    pub scale: i64,
}

/// An image lookup texture over a pre-decoded pixel buffer, row-major with
/// the top row first.
pub struct ImageTexture {
    pub width: usize,
    pub height: usize,
    pub pixels: Vec<Vec3>,
}

pub enum Texture {
    Solid(Vec3),
    Checker(Box<Texture>, Box<Texture>),
    Noise(NoiseTexture),
    Image(ImageTexture),
}

pub open spec fn image_wf(im: ImageTexture) -> bool {
    &&& 1 <= im.width <= 0x8000
    &&& 1 <= im.height <= 0x8000
    &&& im.pixels@.len() == im.width * im.height
    &&& forall|i: int| 0 <= i < im.pixels@.len() ==> v_in_fp(#[trigger] im.pixels@[i]@)
}

pub open spec fn texture_wf(t: Texture) -> bool
    decreases t,
{
    match t {
        Texture::Solid(c) => v_in_fp(c@),
        Texture::Checker(even, odd) => texture_wf(*even) && texture_wf(*odd),
        Texture::Noise(nt) => perlin_wf(nt.noise) && in_fp(nt.scale as int),
        Texture::Image(im) => image_wf(im),
    }
}

/// The parity of the checker cell a coordinate falls in.
pub open spec fn cell_parity(x: int) -> int {
    (x / (CHECKER_CELL as int)) % 2
}

/// Whether the point falls in an odd checker cell: the fixed-point stand-in
/// for a negative `sin(10 x) sin(10 y) sin(10 z)`.
pub open spec fn checker_odd(p: V3) -> bool {
    (cell_parity(p.x) + cell_parity(p.y) + cell_parity(p.z)) % 2 == 1
}

/// The clamped pixel coordinates of an image lookup.
pub open spec fn image_index(im: ImageTexture, u: int, v: int) -> int {
    let uc = if u < 0 { 0 } else if u > FP_ONE { FP_ONE as int } else { u };
    let vc = if v < 0 { 0 } else if v > FP_ONE { FP_ONE as int } else { v };
    let i0 = tdiv(uc * im.width, FP_ONE as int);
    let j0 = tdiv((FP_ONE - vc) * im.height, FP_ONE as int);
    let i = if i0 > im.width - 1 { im.width - 1 } else { i0 };
    let j = if j0 > im.height - 1 { im.height - 1 } else { j0 };
    j * im.width + i
}

/// The color a texture yields for texture coordinates `(u, v)` and a hit
/// point `p`.
pub open spec fn texture_value(t: Texture, u: int, v: int, p: V3) -> V3
    decreases t,
{
    match t {
        Texture::Solid(c) => c@,
        Texture::Checker(even, odd) => if checker_odd(p) {
            texture_value(*odd, u, v, p)
        } else {
            texture_value(*even, u, v, p)
        },
        Texture::Noise(nt) => vscale(
            V3 { x: FP_ONE as int, y: FP_ONE as int, z: FP_ONE as int },
            perlin_noise(nt.noise, vscale(p, nt.scale as int)),
        ),
        Texture::Image(im) => im.pixels@[image_index(im, u, v)]@,
    }
}

impl NoiseTexture {
    /// A noise texture with fresh tables and the given point scale.
    pub fn new(scale: i64, rng: &mut Rng) -> (nt: NoiseTexture)
        requires
            in_fp(scale as int),
        ensures
            perlin_wf(nt.noise),
            perlin_perms_ok(nt.noise),
            nt.scale == scale,
    {
        NoiseTexture { noise: Perlin::new(rng), scale }
    }
}

/// The default noise texture: fresh tables from a fixed seed, so that the
/// default is itself deterministic, at unit scale.
impl Default for NoiseTexture {
    fn default() -> (nt: NoiseTexture)
        ensures
            perlin_wf(nt.noise),
            perlin_perms_ok(nt.noise),
            nt.scale == FP_ONE,
    {
        let mut rng = Rng::new(0x9E3779B97F4A7C15);
        NoiseTexture { noise: Perlin::new(&mut rng), scale: FP_ONE }
    }
}

impl ImageTexture {
    /// An image texture over a pre-decoded row-major pixel buffer.
    pub fn new(width: usize, height: usize, pixels: Vec<Vec3>) -> (im: ImageTexture)
        requires
            1 <= width <= 0x8000,
            1 <= height <= 0x8000,
            pixels@.len() == width * height,
            forall|i: int| 0 <= i < pixels@.len() ==> v_in_fp(#[trigger] pixels@[i]@),
        ensures
            image_wf(im),
            im.width == width,
            im.height == height,
            im.pixels == pixels,
    {
        ImageTexture { width, height, pixels }
    }
}

impl Texture {
    /// A constant-color texture.
    pub fn solid(c: &Vec3) -> (t: Texture)
        requires
            v_in_fp(c@),
        ensures
            t == Texture::Solid(*c),
            texture_wf(t),
    {
        Texture::Solid(*c)
    }

    /// The checkerboard of two colors.
    pub fn checker_colors(even: &Vec3, odd: &Vec3) -> (t: Texture)
        requires
            v_in_fp(even@),
            v_in_fp(odd@),
        ensures
            t == Texture::Checker(
                Box::new(Texture::Solid(*even)),
                Box::new(Texture::Solid(*odd)),
            ),
            texture_wf(t),
    {
        let be = Box::new(Texture::Solid(*even));
        let bo = Box::new(Texture::Solid(*odd));
        proof {
            assert(texture_wf(Texture::Solid(*even)));
            assert(texture_wf(Texture::Solid(*odd)));
        }
        Texture::Checker(be, bo)
    }

    /// The color of the texture at `(u, v)` and point `p`.
    pub fn value(&self, u: i64, v: i64, p: &Vec3) -> (r: Vec3)
        requires
            texture_wf(*self),
            v_in_fp(p@),
        ensures
            r@ == texture_value(*self, u as int, v as int, p@),
            v_in_fp(r@),
        decreases *self,
    {
        match self {
            Texture::Solid(c) => *c,
            Texture::Checker(even, odd) => {
                let px = cell_parity_e(p.x);
                let py = cell_parity_e(p.y);
                let pz = cell_parity_e(p.z);
                if emod_e(px + py + pz, 2) == 1 {
                    odd.value(u, v, p)
                } else {
                    even.value(u, v, p)
                }
            },
            Texture::Noise(nt) => {
                let n = nt.noise.noise(&p.scale(nt.scale));
                Vec3::new(FP_ONE, FP_ONE, FP_ONE).scale(n)
            },
            Texture::Image(im) => {
                proof {
                    assert(image_wf(*im));
                }
                let uc = if u < 0 {
                    0
                } else if u > FP_ONE {
                    FP_ONE
                } else {
                    u
                };
                let vc = if v < 0 {
                    0
                } else if v > FP_ONE {
                    FP_ONE
                } else {
                    v
                };
                let ucw: u64 = uc as u64;
                let wqq: u64 = im.width as u64;
                let vcw: u64 = (FP_ONE - vc) as u64;
                let hqq: u64 = im.height as u64;
                proof {
                    lemma_small_prod(ucw as int, wqq as int);
                    lemma_small_prod(vcw as int, hqq as int);
                }
                let i0 = (ucw * wqq) / (FP_ONE as u64);
                let j0 = (vcw * hqq) / (FP_ONE as u64);
                let i = if i0 > (im.width - 1) as u64 {
                    im.width - 1
                } else {
                    i0 as usize
                };
                let j = if j0 > (im.height - 1) as u64 {
                    im.height - 1
                } else {
                    j0 as usize
                };
                let plen = im.pixels.len();
                proof {
                    lemma_image_index(*im, u as int, v as int, i as int, j as int);
                    assert(im.pixels@.len() == plen);
                    assert(ucw as int * wqq as int >= 0) by (nonlinear_arith)
                        requires
                            ucw >= 0,
                            wqq >= 0,
                    ;
                    assert(vcw as int * hqq as int >= 0) by (nonlinear_arith)
                        requires
                            vcw >= 0,
                            hqq >= 0,
                    ;
                }
                im.pixels[j * im.width + i]
            },
        }
    }
}

/// A product of two fixed-point-size factors stays small.
proof fn lemma_small_prod(a: int, b: int)
    by (nonlinear_arith)
    requires
        0 <= a <= 0x10000,
        0 <= b <= 0x8000,
    ensures
        0 <= a * b <= 0x8000_0000,
{
}

/// The clamped lookup coordinates stay inside the image.
proof fn lemma_image_index(im: ImageTexture, u: int, v: int, i: int, j: int)
    requires
        image_wf(im),
        0 <= i < im.width,
        0 <= j < im.height,
    ensures
        0 <= j * im.width + i < im.pixels@.len(),
{
    assert(0 <= j * im.width + i < im.height * im.width) by (nonlinear_arith)
        requires
            0 <= i < im.width,
            0 <= j < im.height,
    ;
    assert(im.height * im.width == im.width * im.height) by (nonlinear_arith);
}

/// The parity of the checker cell of one coordinate.
fn cell_parity_e(x: i64) -> (r: i64)
    requires
        in_fp(x as int),
    ensures
        r as int == cell_parity(x as int),
        0 <= r <= 1,
{
    let q = fdiv_e(x, CHECKER_CELL);
    proof {
        assert(in_fp(q as int));
    }
    emod_e(q, 2)
}

} // verus!
