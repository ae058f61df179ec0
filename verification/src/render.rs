//! The recursive radiance estimator and the pixel accumulation loop.

use vstd::prelude::*;
use crate::fixed::{FP_ONE, FP_LIMIT, in_fp, fp_div, fp_sqrt, div_fp, sqrt_fp};
use crate::camera::get_ray_spec;
use crate::vec3::lemma_rng_after_unfold;
use crate::vec3::{Vec3, V3, v_in_fp, vadd, vmul};
use crate::ray::{Ray, RayV, ray_in_fp};
use crate::hit::{HittableList, list_wf, objects_fold};
use crate::material::{Material, material_emitted, scatter_spec};
use crate::camera::{Camera, camera_wf};
use crate::rng::{Rng, rng_fp, rng_next, rng_after};

verus! {

/// The intersection window of the integrator: a small positive start to
/// suppress self-intersection, effectively unbounded on the far side.
pub const T_START: i64 = 66;

/// A ray misses the whole scene over the integrator's window.
pub open spec fn scene_miss(world: HittableList, r: Ray) -> bool {
    objects_fold(world.objects@, 0, r@, T_START as int, FP_LIMIT as int, None) is None
}

pub open spec fn black() -> V3 {
    V3 { x: 0, y: 0, z: 0 }
}

/// The radiance estimate and final generator state of the integrator, as a
/// function of the scene, the ray, the bounce budget and the generator
/// state: black on an exhausted budget, the background on a miss, and on a
/// hit the emission plus, if the material scatters, the attenuation times
/// the radiance of the scattered ray at the reduced budget.
pub open spec fn ray_color_spec(
    world: HittableList,
    r: RayV,
    background: V3,
    depth: int,
    s: u64,
) -> (V3, u64)
    decreases depth,
{
    if depth <= 0 {
        (black(), s)
    } else {
        match objects_fold(world.objects@, 0, r, T_START as int, FP_LIMIT as int, None) {
            None => (background, s),
            Some(h) => {
                let m = world.materials@[h.mat];
                let emitted = material_emitted(m, h.u, h.v, h.p);
                let sp = scatter_spec(m, r, h, s);
                match sp.0 {
                    None => (emitted, sp.1),
                    Some((att, sc)) => {
                        let rest = ray_color_spec(world, sc, background, depth - 1, sp.1);
                        (vadd(emitted, vmul(att, rest.0)), rest.1)
                    },
                }
            },
        }
    }
}

/// The estimated radiance carried to the eye along a ray.
///
/// An exhausted bounce budget yields black; a miss yields the background;
/// a hit yields the surface's own emission plus, if the material scatters,
/// the scattered radiance weighted by the attenuation.
pub fn ray_color(r: &Ray, background: &Vec3, world: &HittableList, depth: i32, rng: &mut Rng) -> (c:
    Vec3)
    requires
        ray_in_fp(r@),
        v_in_fp(background@),
        list_wf(*world),
    ensures
        v_in_fp(c@),
        depth <= 0 ==> c@ == black(),
        depth > 0 && scene_miss(*world, *r) ==> c@ == background@,
        depth > 0 ==> (objects_fold(
            world.objects@,
            0,
            r@,
            T_START as int,
            FP_LIMIT as int,
            None,
        ) matches Some(h) ==> (world.materials@[h.mat] matches Material::DiffuseLight(dl) ==> c@
            == dl.emit@)),
        (c@, final(rng).state) == ray_color_spec(
            *world,
            r@,
            background@,
            depth as int,
            old(rng).state,
        ),
    decreases depth,
{
    if depth <= 0 {
        return Vec3::zero();
    }
    match world.hit(r, T_START, FP_LIMIT) {
        None => *background,
        Some(rec) => {
            let m = &world.materials[rec.mat];
            let emitted = m.emitted(rec.u, rec.v, &rec.p);
            proof {
                assert(v_in_fp(emitted@)) by {
                    assert(crate::material::material_wf(world.materials@[rec.mat as int]));
                }
            }
            match m.scatter(r, &rec, rng) {
                None => emitted,
                Some((att, sc)) => {
                    let bounced = ray_color(&sc, background, world, depth - 1, rng);
                    emitted.add(&att.mul(&bounced))
                },
            }
        },
    }
}

/// One output pixel, eight bits per channel.
#[derive(Clone, Copy, PartialEq, Eq, Structural, Debug)]
pub struct Pixel {
    pub r: u8,
    pub g: u8,
    pub b: u8,
}

/// One channel of the pixel written for an accumulated color: the average
/// over the samples, gamma-corrected by a square root, clamped to just
/// below one and quantized to eight bits.
pub open spec fn channel_of(sum: int, samples: int) -> int {
    let avg = fp_div(sum, samples * FP_ONE);
    let pos = if avg < 0 { 0 } else { avg };
    let g = fp_sqrt(pos);
    let cl = if g > 65471 { 65471 } else { g };
    cl / 256
}

pub open spec fn pixel_of(sum: V3, samples: int) -> (int, int, int) {
    (channel_of(sum.x, samples), channel_of(sum.y, samples), channel_of(sum.z, samples))
}

fn channel_e(sum: i64, samples: usize) -> (r: u8)
    requires
        1 <= samples <= 0x8000,
        in_fp(sum as int),
    ensures
        r as int == channel_of(sum as int, samples as int),
{
    let avg = div_fp(sum, (samples as i64) * FP_ONE);
    let pos = if avg < 0 {
        0
    } else {
        avg
    };
    let g = sqrt_fp(pos);
    let cl = if g > 65471 {
        65471
    } else {
        g
    };
    let q = (cl as u64) / 256;
    proof {
        assert(q < 256);
    }
    q as u8
}

/// The written pixel of an accumulated sample sum.
pub fn write_color(sum: &Vec3, samples_per_pixel: usize) -> (px: Pixel)
    requires
        1 <= samples_per_pixel <= 0x8000,
        v_in_fp(sum@),
    ensures
        (px.r as int, px.g as int, px.b as int) == pixel_of(sum@, samples_per_pixel as int),
{
    Pixel {
        r: channel_e(sum.x, samples_per_pixel),
        g: channel_e(sum.y, samples_per_pixel),
        b: channel_e(sum.z, samples_per_pixel),
    }
}

/// The jittered plane coordinate drawn for index `i` of `n` from state
/// `st`.
pub open spec fn coord_draw(i: int, n: int, st: u64) -> int {
    fp_div(i * FP_ONE + rng_fp(st), (n - 1) * FP_ONE)
}

/// The sample accumulation of one pixel: `k` remaining jittered samples
/// folded onto `acc`, threading the generator state.
pub open spec fn samples_fold(
    world: HittableList,
    cam: Camera,
    i: int,
    j: int,
    w: int,
    h: int,
    depth: int,
    bg: V3,
    k: int,
    acc: V3,
    st: u64,
) -> (V3, u64)
    decreases k,
{
    if k <= 0 {
        (acc, st)
    } else {
        let u = coord_draw(i, w, st);
        let v = coord_draw(j, h, rng_next(st));
        let g = get_ray_spec(cam, u, v, rng_after(st, 2));
        let cc = ray_color_spec(world, g.0, bg, depth, g.1);
        samples_fold(world, cam, i, j, w, h, depth, bg, k - 1, vadd(acc, cc.0), cc.1)
    }
}

/// The pixel written for image position `(i, j)` and the state after its
/// samples.
pub open spec fn pixel_draw(
    world: HittableList,
    cam: Camera,
    i: int,
    j: int,
    w: int,
    h: int,
    spp: int,
    depth: int,
    bg: V3,
    st: u64,
) -> (Pixel, u64) {
    let sf = samples_fold(world, cam, i, j, w, h, depth, bg, spp, black(), st);
    (
        Pixel {
            r: channel_of(sf.0.x, spp) as u8,
            g: channel_of(sf.0.y, spp) as u8,
            b: channel_of(sf.0.z, spp) as u8,
        },
        sf.1,
    )
}

/// The whole image: rows from `j` down to zero, each row's pixels from `i`
/// rightward, appended to `acc` with the generator state threaded through.
pub open spec fn render_fold(
    world: HittableList,
    cam: Camera,
    w: int,
    h: int,
    spp: int,
    depth: int,
    bg: V3,
    j: int,
    i: int,
    acc: Seq<Pixel>,
    st: u64,
) -> (Seq<Pixel>, u64)
    decreases j, w - i,
{
    if j < 0 {
        (acc, st)
    } else if i >= w {
        if j == 0 {
            (acc, st)
        } else {
            render_fold(world, cam, w, h, spp, depth, bg, j - 1, 0, acc, st)
        }
    } else {
        let pd = pixel_draw(world, cam, i, j, w, h, spp, depth, bg, st);
        render_fold(world, cam, w, h, spp, depth, bg, j, i + 1, acc.push(pd.0), pd.1)
    }
}

/// Renders the scene: one pixel per image position, row by row from the
/// top, each averaged over jittered sub-pixel samples.
pub fn render(
    world: &HittableList,
    camera: &Camera,
    width: usize,
    height: usize,
    samples_per_pixel: usize,
    max_depth: i32,
    background: &Vec3,
    rng: &mut Rng,
) -> (pixels: Vec<Pixel>)
    requires
        list_wf(*world),
        camera_wf(*camera),
        2 <= width <= 0x8000,
        2 <= height <= 0x8000,
        1 <= samples_per_pixel <= 0x8000,
        v_in_fp(background@),
    ensures
        pixels@.len() == width * height,
        (pixels@, final(rng).state) == render_fold(
            *world,
            *camera,
            width as int,
            height as int,
            samples_per_pixel as int,
            max_depth as int,
            background@,
            height as int - 1,
            0,
            Seq::empty(),
            old(rng).state,
        ),
{
    let mut pixels: Vec<Pixel> = Vec::new();
    let mut j: usize = height;
    while j > 0
        invariant
            list_wf(*world),
            camera_wf(*camera),
            2 <= width <= 0x8000,
            2 <= height <= 0x8000,
            1 <= samples_per_pixel <= 0x8000,
            v_in_fp(background@),
            j <= height,
            pixels@.len() == (height - j) * width,
            render_fold(
                *world,
                *camera,
                width as int,
                height as int,
                samples_per_pixel as int,
                max_depth as int,
                background@,
                height as int - 1,
                0,
                Seq::empty(),
                old(rng).state,
            ) == render_fold(
                *world,
                *camera,
                width as int,
                height as int,
                samples_per_pixel as int,
                max_depth as int,
                background@,
                j as int - 1,
                0,
                pixels@,
                rng.state,
            ),
        decreases j,
    {
        j = j - 1;
        let mut i: usize = 0;
        while i < width
            invariant
                list_wf(*world),
                camera_wf(*camera),
                2 <= width <= 0x8000,
                2 <= height <= 0x8000,
                1 <= samples_per_pixel <= 0x8000,
                v_in_fp(background@),
                j < height,
                i <= width,
                pixels@.len() == (height - j - 1) * width + i,
                render_fold(
                    *world,
                    *camera,
                    width as int,
                    height as int,
                    samples_per_pixel as int,
                    max_depth as int,
                    background@,
                    height as int - 1,
                    0,
                    Seq::empty(),
                    old(rng).state,
                ) == render_fold(
                    *world,
                    *camera,
                    width as int,
                    height as int,
                    samples_per_pixel as int,
                    max_depth as int,
                    background@,
                    j as int,
                    i as int,
                    pixels@,
                    rng.state,
                ),
            decreases width - i,
        {
            let ghost st_px = rng.state;
            let mut sum = Vec3::zero();
            let mut s: usize = 0;
            while s < samples_per_pixel
                invariant
                    list_wf(*world),
                    camera_wf(*camera),
                    2 <= width <= 0x8000,
                    2 <= height <= 0x8000,
                    1 <= samples_per_pixel <= 0x8000,
                    v_in_fp(background@),
                    v_in_fp(sum@),
                    j < height,
                    i < width,
                    s <= samples_per_pixel,
                    samples_fold(
                        *world,
                        *camera,
                        i as int,
                        j as int,
                        width as int,
                        height as int,
                        max_depth as int,
                        background@,
                        samples_per_pixel as int,
                        black(),
                        st_px,
                    ) == samples_fold(
                        *world,
                        *camera,
                        i as int,
                        j as int,
                        width as int,
                        height as int,
                        max_depth as int,
                        background@,
                        samples_per_pixel as int - s as int,
                        sum@,
                        rng.state,
                    ),
                decreases samples_per_pixel - s,
            {
                let ghost st_s = rng.state;
                let u = sample_coord(i, width, rng);
                let v = sample_coord(j, height, rng);
                proof {
                    lemma_rng_after_unfold(st_s);
                }
                let ray = camera.get_ray(u, v, rng);
                let c = ray_color(&ray, background, world, max_depth, rng);
                sum = sum.add(&c);
                s = s + 1;
            }
            let px = write_color(&sum, samples_per_pixel);
            proof {
                let pd = pixel_draw(
                    *world,
                    *camera,
                    i as int,
                    j as int,
                    width as int,
                    height as int,
                    samples_per_pixel as int,
                    max_depth as int,
                    background@,
                    st_px,
                );
                assert(pd == (
                    Pixel { r: px.r, g: px.g, b: px.b },
                    rng.state,
                ));
                assert(pd.0 == px);
            }
            pixels.push(px);
            i = i + 1;
        }
        proof {
            assert((height - j) as int * width as int == (height - j - 1) as int * width as int
                + width as int) by (nonlinear_arith);
            assert(pixels@.len() == (height - j) * width);
        }
    }
    proof {
        assert(height as int * width as int == width as int * height as int) by (nonlinear_arith);
        assert(pixels@.len() == width * height);
    }
    pixels
}

/// A jittered normalized plane coordinate for pixel index `i` of `n`:
/// `(i + jitter) / (n - 1)` in fixed point.
fn sample_coord(i: usize, n: usize, rng: &mut Rng) -> (c: i64)
    requires
        i < n,
        2 <= n <= 0x8000,
    ensures
        in_fp(c as int),
        c as int == coord_draw(i as int, n as int, old(rng).state),
        final(rng).state == rng_next(old(rng).state),
{
    let jitter = rng.next_fp();
    proof {
        assert(i as int * 65536 <= 0x8000 * 65536) by (nonlinear_arith)
            requires
                i <= 0x8000,
        ;
    }
    let num = (i as i64) * FP_ONE + jitter;
    let den = ((n - 1) as i64) * FP_ONE;
    div_fp(num, den)
}

} // verus!
