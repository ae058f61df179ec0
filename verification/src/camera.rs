//! The camera: an orthonormal basis and an image plane at the focus
//! distance, turning normalized plane coordinates into world-space rays
//! with lens sampling for depth of field and a shutter interval for motion
//! blur.

use vstd::prelude::*;
use crate::fixed::{FP_ONE, in_fp, fp_add, fp_mul, fp_div, add_fp, mul_fp, div_fp};
use crate::vec3::{Vec3, V3, v_in_fp, vadd, vsub, vscale, vcross, vunit, disk_draw};
use crate::ray::{Ray, RayV, ray_in_fp};
use crate::rng::{Rng, rng_next, range_draw};

verus! {

pub struct Camera {
    pub origin: Vec3,
    pub lower_left: Vec3,
    pub horizontal: Vec3,
    pub vertical: Vec3,
    pub u: Vec3,
    pub v: Vec3,
    pub w: Vec3,
    pub lens_radius: i64,
    pub time0: i64,
    pub time1: i64,
}

pub open spec fn camera_wf(c: Camera) -> bool {
    &&& v_in_fp(c.origin@)
    &&& v_in_fp(c.lower_left@)
    &&& v_in_fp(c.horizontal@)
    &&& v_in_fp(c.vertical@)
    &&& v_in_fp(c.u@)
    &&& v_in_fp(c.v@)
    &&& in_fp(c.lens_radius as int)
    &&& in_fp(c.time0 as int)
    &&& in_fp(c.time1 as int)
    &&& c.time0 <= c.time1
}

/// The direction through the plane point `(s, t)`, ignoring the lens
/// offset: `lower_left + s * horizontal + t * vertical - origin`.
pub open spec fn cam_dir(c: Camera, s: int, t: int) -> V3 {
    vsub(
        vadd(vadd(c.lower_left@, vscale(c.horizontal@, s)), vscale(c.vertical@, t)),
        c.origin@,
    )
}

/// The ray and final generator state a camera produces for plane
/// coordinates `(s, t)` from generator state `st`: a lens-disk draw jitters
/// the origin, a range draw picks the shutter time.
pub open spec fn get_ray_spec(c: Camera, s: int, t: int, st: u64) -> (RayV, u64) {
    let d = disk_draw(st, 0);
    let rd = vscale(d.0, c.lens_radius as int);
    let offset = vadd(vscale(c.u@, rd.x), vscale(c.v@, rd.y));
    let origin = vadd(c.origin@, offset);
    let dir = vsub(
        vadd(vadd(c.lower_left@, vscale(c.horizontal@, s)), vscale(c.vertical@, t)),
        origin,
    );
    let time = range_draw(d.1, c.time0 as int, c.time1 as int);
    (RayV { origin, dir, time }, rng_next(d.1))
}

impl Camera {
    /// A camera from eye geometry. The vertical field of view enters as
    /// the tangent of its half angle, a fixed-point scalar; aspect is the
    /// width-to-height ratio of the image plane.
    pub fn new(
        lookfrom: &Vec3,
        lookat: &Vec3,
        vup: &Vec3,
        tan_half_vfov: i64,
        aspect: i64,
        aperture: i64,
        focus_dist: i64,
        time0: i64,
        time1: i64,
    ) -> (c: Camera)
        requires
            v_in_fp(lookfrom@),
            v_in_fp(lookat@),
            v_in_fp(vup@),
            in_fp(tan_half_vfov as int),
            in_fp(aspect as int),
            in_fp(aperture as int),
            in_fp(focus_dist as int),
            in_fp(time0 as int),
            in_fp(time1 as int),
            time0 <= time1,
        ensures
            camera_wf(c),
            c.origin@ == lookfrom@,
            c.time0 == time0,
            c.time1 == time1,
            c.w@ == vunit(vsub(lookfrom@, lookat@)),
            c.u@ == vunit(vcross(vup@, c.w@)),
            c.v@ == vcross(c.w@, c.u@),
            c.lens_radius as int == fp_div(aperture as int, 2 * FP_ONE),
            ({
                let vh = fp_add(tan_half_vfov as int, tan_half_vfov as int);
                &&& c.horizontal@ == vscale(c.u@, fp_mul(fp_mul(vh, aspect as int), focus_dist as int))
                &&& c.vertical@ == vscale(c.v@, fp_mul(vh, focus_dist as int))
                &&& c.lower_left@ == vsub(
                    vsub(
                        vsub(lookfrom@, vscale(c.horizontal@, FP_ONE as int / 2)),
                        vscale(c.vertical@, FP_ONE as int / 2),
                    ),
                    vscale(c.w@, focus_dist as int),
                )
            }),
    {
        let viewport_height = add_fp(tan_half_vfov, tan_half_vfov);
        let viewport_width = mul_fp(viewport_height, aspect);
        let w = lookfrom.sub(lookat).unit();
        let u = vup.cross(&w).unit();
        let v = w.cross(&u);
        let origin = *lookfrom;
        let horizontal = u.scale(mul_fp(viewport_width, focus_dist));
        let vertical = v.scale(mul_fp(viewport_height, focus_dist));
        let half: i64 = FP_ONE / 2;
        let lower_left = origin.sub(&horizontal.scale(half)).sub(&vertical.scale(half)).sub(
            &w.scale(focus_dist),
        );
        let lens_radius = div_fp(aperture, 2 * FP_ONE);
        Camera {
            origin,
            lower_left,
            horizontal,
            vertical,
            u,
            v,
            w,
            lens_radius,
            time0,
            time1,
        }
    }

    /// The world ray through plane coordinates `(s, t)`: the origin is
    /// jittered on the lens disk, the time drawn from the shutter interval.
    /// With a closed lens the ray leaves exactly from the eye toward the
    /// plane point.
    #[verifier::rlimit(100)]
    #[verifier::spinoff_prover]
    pub fn get_ray(&self, s: i64, t: i64, rng: &mut Rng) -> (ray: Ray)
        requires
            camera_wf(*self),
            in_fp(s as int),
            in_fp(t as int),
        ensures
            ray_in_fp(ray@),
            self.time0 <= ray.time <= self.time1,
            (ray@, final(rng).state) == get_ray_spec(*self, s as int, t as int, old(rng).state),
            self.lens_radius == 0 ==> ray@.origin == self.origin@ && ray@.dir == cam_dir(
                *self,
                s as int,
                t as int,
            ),
    {
        let d0 = Vec3::random_in_unit_disk(rng);
        let rd = d0.scale(self.lens_radius);
        let offset = self.u.scale(rd.x).add(&self.v.scale(rd.y));
        proof {
            if self.lens_radius == 0 {
                lemma_scale_zero(d0@);
                assert(rd@ == (V3 { x: 0, y: 0, z: 0 }));
                lemma_scale_zero(self.u@);
                lemma_scale_zero(self.v@);
                assert(offset@ == vadd(V3 { x: 0, y: 0, z: 0 }, V3 { x: 0, y: 0, z: 0 }));
                assert(offset@ == (V3 { x: 0, y: 0, z: 0 }));
            }
        }
        let origin = self.origin.add(&offset);
        proof {
            if self.lens_radius == 0 {
                lemma_scale_zero(self.origin@);
                assert(origin@ == self.origin@);
            }
        }
        let dir = self.lower_left.add(&self.horizontal.scale(s)).add(&self.vertical.scale(t)).sub(
            &origin,
        );
        let time = rng.next_range(self.time0, self.time1);
        Ray::new(&origin, &dir, time)
    }
}

/// Scaling any vector by zero gives the zero vector, and the zero offset
/// leaves a sum unchanged.
proof fn lemma_scale_zero(a: V3)
    ensures
        vscale(a, 0) == (V3 { x: 0, y: 0, z: 0 }),
        v_in_fp(a) ==> vadd(a, V3 { x: 0, y: 0, z: 0 }) == a,
{
    assert(a.x * 0 == 0) by (nonlinear_arith);
    assert(a.y * 0 == 0) by (nonlinear_arith);
    assert(a.z * 0 == 0) by (nonlinear_arith);
}

} // verus!
