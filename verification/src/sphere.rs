//! Spheres, still and moving, and the quadratic intersection they share.

use vstd::prelude::*;
use crate::fixed::{
    FP_ONE, in_fp, clip, tdiv, fp_abs, fp_add, fp_sub, fp_mul, fp_div, fp_sqrt,
    add_fp, sub_fp, mul_fp, div_fp, sqrt_fp,
};
use crate::vec3::{Vec3, V3, v_in_fp, vadd, vsub, vscale, vdivs, vdot, vlen_sq};
use crate::ray::{Ray, RayV, ray_at, ray_in_fp};
use crate::hit::{HitRecord, HR, is_front_face, oriented_normal};

verus! {

pub const HALF_TURN: i64 = 32768;

pub const QUARTER_TURN: i64 = 16384;

pub const THREE_QUARTER_TURN: i64 = 49152;

/// The quadratic coefficients of a ray against a sphere, as the engine
/// rounds them: `a t^2 + 2 half_b t + c = 0`.
pub open spec fn sph_a(r: RayV) -> int {
    vlen_sq(r.dir)
}

pub open spec fn sph_half_b(c: V3, r: RayV) -> int {
    vdot(vsub(r.origin, c), r.dir)
}

pub open spec fn sph_c(c: V3, rad: int, r: RayV) -> int {
    fp_sub(vlen_sq(vsub(r.origin, c)), fp_mul(rad, rad))
}

pub open spec fn sph_disc(c: V3, rad: int, r: RayV) -> int {
    fp_sub(fp_mul(sph_half_b(c, r), sph_half_b(c, r)), fp_mul(sph_a(r), sph_c(c, rad, r)))
}

/// The smaller candidate root.
pub open spec fn sph_root1(c: V3, rad: int, r: RayV) -> int {
    fp_div(fp_sub(fp_sub(0, sph_half_b(c, r)), fp_sqrt(sph_disc(c, rad, r))), sph_a(r))
}

/// The larger candidate root.
pub open spec fn sph_root2(c: V3, rad: int, r: RayV) -> int {
    fp_div(fp_add(fp_sub(0, sph_half_b(c, r)), fp_sqrt(sph_disc(c, rad, r))), sph_a(r))
}

/// `t` is an intersection parameter of the ray with the sphere: one of the
/// two candidate roots of a non-degenerate quadratic.
pub open spec fn sphere_hits_at(c: V3, rad: int, r: RayV, t: int) -> bool {
    &&& sph_a(r) != 0
    &&& sph_disc(c, rad, r) >= 0
    &&& (t == sph_root1(c, rad, r) || t == sph_root2(c, rad, r))
}

/// One-octant arctangent in turns of a ratio in `[0, FP_ONE]`:
/// the linear approximation `q / 8`, exact at both octant ends.
pub open spec fn atan_octant(q: int) -> int {
    tdiv(q, 8)
}

/// The angle of the plane vector `(x, y)` as a fraction of a full turn in
/// `[0, FP_ONE]`, from the octant of the point and the one-octant arctangent.
pub open spec fn atan2_turns(y: int, x: int) -> int {
    let ax = fp_abs(x);
    let ay = fp_abs(y);
    if ax == 0 && ay == 0 {
        0
    } else if ay <= ax {
        let base = atan_octant(fp_div(ay, ax));
        if x >= 0 && y >= 0 {
            base
        } else if x < 0 && y >= 0 {
            (HALF_TURN as int) - base
        } else if x < 0 {
            (HALF_TURN as int) + base
        } else {
            (FP_ONE as int) - base
        }
    } else {
        let base = atan_octant(fp_div(ax, ay));
        if y >= 0 && x >= 0 {
            (QUARTER_TURN as int) - base
        } else if y >= 0 {
            (QUARTER_TURN as int) + base
        } else if x < 0 {
            (THREE_QUARTER_TURN as int) - base
        } else {
            (THREE_QUARTER_TURN as int) + base
        }
    }
}

/// Surface u of a point of the unit sphere: the azimuth of the outward
/// normal around the y axis, as a fraction of a full turn.
pub open spec fn sphere_uv_u(outward: V3) -> int {
    atan2_turns(outward.z, fp_sub(0, outward.x))
}

/// Surface v: the polar angle from the `-y` pole as a fraction of a half
/// turn.
pub open spec fn sphere_uv_v(outward: V3) -> int {
    let rho = fp_sqrt(fp_add(fp_mul(outward.x, outward.x), fp_mul(outward.z, outward.z)));
    let t = atan2_turns(rho, fp_sub(0, outward.y));
    fp_add(t, t)
}

/// The record reported for a hit of the sphere at parameter `t`.
pub open spec fn sphere_record(c: V3, rad: int, mat: int, r: RayV, t: int) -> HR {
    let p = ray_at(r, t);
    let outward = vdivs(vsub(p, c), rad);
    HR {
        p,
        normal: oriented_normal(r.dir, outward),
        t,
        u: sphere_uv_u(outward),
        v: sphere_uv_v(outward),
        front_face: is_front_face(r.dir, outward),
        mat,
    }
}

/// The full intersection result: the nearer candidate root inside the open
/// window, else the farther, else a miss. A ray with a degenerate (all-zero)
/// direction misses everything.
pub open spec fn sphere_hit(c: V3, rad: int, mat: int, r: RayV, t_min: int, t_max: int) -> Option<
    HR,
> {
    if sph_a(r) == 0 || sph_disc(c, rad, r) < 0 {
        None
    } else {
        let r1 = sph_root1(c, rad, r);
        let r2 = sph_root2(c, rad, r);
        if t_min < r1 && r1 < t_max {
            Some(sphere_record(c, rad, mat, r, r1))
        } else if t_min < r2 && r2 < t_max {
            Some(sphere_record(c, rad, mat, r, r2))
        } else {
            None
        }
    }
}

/// A sphere with a handle to its material in the scene's arena.
pub struct Sphere {
    pub center: Vec3,
    pub radius: i64,
    pub material: usize,
}

/// The mathematical value of a sphere.
pub struct SphereV {
    pub center: V3,
    pub radius: int,
    pub mat: int,
}

impl View for Sphere {
    type V = SphereV;

    open spec fn view(&self) -> SphereV {
        SphereV { center: self.center@, radius: self.radius as int, mat: self.material as int }
    }
}

pub open spec fn sphere_in_fp(s: SphereV) -> bool {
    v_in_fp(s.center) && in_fp(s.radius)
}

impl Sphere {
    pub fn new(cen: Vec3, r: i64, m: usize) -> (s: Sphere)
        ensures
            s@.center == cen@,
            s@.radius == r as int,
            s@.mat == m as int,
    {
        Sphere { center: cen, radius: r, material: m }
    }

    /// The nearest intersection of the ray in the open window, if any.
    pub fn hit(&self, r: &Ray, t_min: i64, t_max: i64) -> (res: Option<HitRecord>)
        requires
            ray_in_fp(r@),
            sphere_in_fp(self@),
        ensures
            res matches Some(rec) ==> sphere_hit(
                self@.center,
                self@.radius,
                self@.mat,
                r@,
                t_min as int,
                t_max as int,
            ) == Some(rec@) && t_min < rec.t < t_max && rec@.mat == self@.mat
                && crate::hit::hr_in_fp(rec@) && sphere_hits_at(self@.center, self@.radius, r@, rec@.t) && (forall|t: int|
                sphere_hits_at(self@.center, self@.radius, r@, t) && t_min < t < t_max
                    ==> rec@.t <= t),
            res is None ==> sphere_hit(
                self@.center,
                self@.radius,
                self@.mat,
                r@,
                t_min as int,
                t_max as int,
            ) is None && (forall|t: int|
                !(sphere_hits_at(self@.center, self@.radius, r@, t) && t_min < t < t_max)),
    {
        hit_with_center(&self.center, self.radius, self.material, r, t_min, t_max)
    }
}

/// The quadratic intersection against a sphere of the given center.
pub fn hit_with_center(center: &Vec3, radius: i64, material: usize, r: &Ray, t_min: i64, t_max: i64) -> (res: Option<HitRecord>)
    requires
        ray_in_fp(r@),
        v_in_fp(center@),
        in_fp(radius as int),
    ensures
        res matches Some(rec) ==> sphere_hit(
            center@,
            radius as int,
            material as int,
            r@,
            t_min as int,
            t_max as int,
        ) == Some(rec@) && t_min < rec.t < t_max && rec@.mat == material as int
            && crate::hit::hr_in_fp(rec@) && sphere_hits_at(center@, radius as int, r@, rec@.t) && (forall|t: int|
            sphere_hits_at(center@, radius as int, r@, t) && t_min < t < t_max
                ==> rec@.t <= t),
        res is None ==> sphere_hit(
            center@,
            radius as int,
            material as int,
            r@,
            t_min as int,
            t_max as int,
        ) is None && (forall|t: int|
            !(sphere_hits_at(center@, radius as int, r@, t) && t_min < t < t_max)),
{
    let oc = r.origin().sub(center);
    let a = r.dir().length_squared();
    let half_b = oc.dot(r.dir());
    let c = sub_fp(oc.length_squared(), mul_fp(radius, radius));
    let disc = sub_fp(mul_fp(half_b, half_b), mul_fp(a, c));
    if a == 0 || disc < 0 {
        return None;
    }
    let sq = sqrt_fp(disc);
    let nn = sub_fp(0, half_b);
    let root1 = div_fp(sub_fp(nn, sq), a);
    let root2 = div_fp(add_fp(nn, sq), a);
    proof {
        assert(root1 as int == sph_root1(center@, radius as int, r@));
        assert(root2 as int == sph_root2(center@, radius as int, r@));
        assert(fp_sub(nn as int, sq as int) <= fp_add(nn as int, sq as int));
        crate::fixed::lemma_tdiv_mono(
            fp_sub(nn as int, sq as int) * FP_ONE,
            fp_add(nn as int, sq as int) * FP_ONE,
            a as int,
        );
        assert(root1 <= root2);
    }
    let root = if t_min < root1 && root1 < t_max {
        root1
    } else if t_min < root2 && root2 < t_max {
        root2
    } else {
        return None;
    };
    Some(sphere_record_e(center, radius, material, r, root))
}

/// A sphere whose center moves linearly between two keyframes; the center
/// seen by a ray is interpolated at the ray's time.
pub struct MovingSphere {
    pub center0: Vec3,
    pub center1: Vec3,
    pub time0: i64,
    pub time1: i64,
    pub radius: i64,
    pub material: usize,
}

/// The mathematical value of a moving sphere.
pub struct MovingSphereV {
    pub center0: V3,
    pub center1: V3,
    pub time0: int,
    pub time1: int,
    pub radius: int,
    pub mat: int,
}

impl View for MovingSphere {
    type V = MovingSphereV;

    open spec fn view(&self) -> MovingSphereV {
        MovingSphereV {
            center0: self.center0@,
            center1: self.center1@,
            time0: self.time0 as int,
            time1: self.time1 as int,
            radius: self.radius as int,
            mat: self.material as int,
        }
    }
}

pub open spec fn msphere_in_fp(s: MovingSphereV) -> bool {
    v_in_fp(s.center0) && v_in_fp(s.center1) && in_fp(s.time0) && in_fp(s.time1) && in_fp(s.radius)
}

/// The interpolated center at a ray time; a degenerate keyframe interval
/// pins the sphere to its first center.
pub open spec fn msphere_center(s: MovingSphereV, time: int) -> V3 {
    vadd(
        s.center0,
        vscale(vsub(s.center1, s.center0), fp_div(fp_sub(time, s.time0), fp_sub(s.time1, s.time0))),
    )
}

impl MovingSphere {
    pub fn new(center0: Vec3, center1: Vec3, time0: i64, time1: i64, radius: i64, material: usize) -> (s: MovingSphere)
        ensures
            s@ == (MovingSphereV {
                center0: center0@,
                center1: center1@,
                time0: time0 as int,
                time1: time1 as int,
                radius: radius as int,
                mat: material as int,
            }),
    {
        MovingSphere { center0, center1, time0, time1, radius, material }
    }

    /// The center of the sphere at the given time.
    pub fn center(&self, time: i64) -> (c: Vec3)
        requires
            msphere_in_fp(self@),
            in_fp(time as int),
        ensures
            c@ == msphere_center(self@, time as int),
            v_in_fp(c@),
    {
        let dt = sub_fp(self.time1, self.time0);
        let f = if dt == 0 {
            0
        } else {
            div_fp(sub_fp(time, self.time0), dt)
        };
        proof {
            assert(f as int == fp_div(fp_sub(time as int, self@.time0), fp_sub(self@.time1, self@.time0)));
        }
        self.center0.add(&self.center1.sub(&self.center0).scale(f))
    }

    /// The nearest intersection, against the center at the ray's time.
    pub fn hit(&self, r: &Ray, t_min: i64, t_max: i64) -> (res: Option<HitRecord>)
        requires
            ray_in_fp(r@),
            msphere_in_fp(self@),
        ensures
            res matches Some(rec) ==> sphere_hit(
                msphere_center(self@, r@.time),
                self@.radius,
                self@.mat,
                r@,
                t_min as int,
                t_max as int,
            ) == Some(rec@) && t_min < rec.t < t_max && rec@.mat == self@.mat
                && crate::hit::hr_in_fp(rec@) && sphere_hits_at(msphere_center(self@, r@.time), self@.radius, r@, rec@.t) && (
            forall|t: int|
                sphere_hits_at(msphere_center(self@, r@.time), self@.radius, r@, t) && t_min < t
                    < t_max ==> rec@.t <= t),
            res is None ==> sphere_hit(
                msphere_center(self@, r@.time),
                self@.radius,
                self@.mat,
                r@,
                t_min as int,
                t_max as int,
            ) is None && (forall|t: int|
                !(sphere_hits_at(msphere_center(self@, r@.time), self@.radius, r@, t) && t_min < t
                    < t_max)),
    {
        let c = self.center(r.time());
        hit_with_center(&c, self.radius, self.material, r, t_min, t_max)
    }
}

/// Every reported sphere hit is geometrically consistent: the point is the
/// ray evaluated at the reported parameter, the stored normal is the
/// radius-normalized offset of that point from the center oriented against
/// the ray, the front flag matches the sign of the direction against the
/// outward normal, and the parameter is a root of the intersection
/// quadratic inside the open window.
pub proof fn lemma_sphere_hit_geometry(
    c: V3,
    rad: int,
    mat: int,
    r: RayV,
    t_min: int,
    t_max: int,
)
    ensures
        sphere_hit(c, rad, mat, r, t_min, t_max) matches Some(h) ==> {
            let outward = vdivs(vsub(h.p, c), rad);
            &&& h.p == ray_at(r, h.t)
            &&& h.normal == oriented_normal(r.dir, outward)
            &&& h.front_face == is_front_face(r.dir, outward)
            &&& sphere_hits_at(c, rad, r, h.t)
            &&& t_min < h.t < t_max
        },
{
}

/// The radius-normalized offset of a point from the center never points
/// toward the center: its dot product with the offset is nonnegative.
/// (Strict positivity can be lost to truncation only when every component
/// of the offset is smaller than one part in 2^16 of the radius.)
pub proof fn lemma_outward_dot_nonneg(w: V3, rad: int)
    requires
        1 <= rad,
    ensures
        vdot(vdivs(w, rad), w) >= 0,
{
    let s = FP_ONE as int;
    let u = vdivs(w, rad);
    lemma_div_sign(w.x, rad);
    lemma_div_sign(w.y, rad);
    lemma_div_sign(w.z, rad);
    let q = u.x * w.x + u.y * w.y + u.z * w.z;
    assert(q >= 0);
    assert(tdiv(q, s) == q / s);
    vstd::arithmetic::div_mod::lemma_div_pos_is_pos(q, s);
    assert(vdot(u, w) == clip(q / s));
}

/// Dividing by a positive radius keeps each component's sign, so the
/// product with the original component is nonnegative.
proof fn lemma_div_sign(x: int, rad: int)
    requires
        1 <= rad,
    ensures
        fp_div(x, rad) * x >= 0,
{
    let t = tdiv(x * FP_ONE, rad);
    if x >= 0 {
        assert(x * FP_ONE >= 0) by (nonlinear_arith)
            requires
                x >= 0,
        ;
        vstd::arithmetic::div_mod::lemma_div_pos_is_pos(fp_abs(x * FP_ONE), rad);
        assert(t >= 0);
        assert(clip(t) * x >= 0) by (nonlinear_arith)
            requires
                clip(t) >= 0,
                x >= 0,
        ;
    } else {
        assert(x * FP_ONE <= 0) by (nonlinear_arith)
            requires
                x < 0,
        ;
        vstd::arithmetic::div_mod::lemma_div_pos_is_pos(fp_abs(x * FP_ONE), rad);
        assert(t <= 0);
        assert(clip(t) * x >= 0) by (nonlinear_arith)
            requires
                clip(t) <= 0,
                x < 0,
        ;
    }
}

/// Builds the hit record of a sphere surface point at parameter `t`.
fn sphere_record_e(center: &Vec3, radius: i64, material: usize, r: &Ray, t: i64) -> (rec:
    HitRecord)
    requires
        ray_in_fp(r@),
        v_in_fp(center@),
        in_fp(radius as int),
        in_fp(t as int),
    ensures
        rec@ == sphere_record(center@, radius as int, material as int, r@, t as int),
        crate::hit::hr_in_fp(rec@),
{
    let p = r.at(t);
    let outward = if radius == 0 {
        let z = Vec3::zero();
        proof {
            assert(z@ == vdivs(vsub(p@, center@), radius as int));
        }
        z
    } else {
        p.sub(center).divs(radius)
    };
    let d = r.dir().dot(&outward);
    let ff = d < 0;
    let normal = if ff {
        outward
    } else {
        outward.neg()
    };
    let u = sphere_u_e(&outward);
    let v = sphere_v_e(&outward);
    HitRecord { p, normal, t, u, v, front_face: ff, mat: material }
}

fn div8(q: i64) -> (r: i64)
    ensures
        r as int == tdiv(q as int, 8),
        fp_abs(r as int) <= fp_abs(q as int),
{
    if q >= 0 {
        let m = (q as u64) / 8;
        proof {
            vstd::arithmetic::div_mod::lemma_div_nonincreasing(q as int, 8);
            vstd::arithmetic::div_mod::lemma_div_pos_is_pos(q as int, 8);
        }
        m as i64
    } else {
        let m = ((-(q as i128)) as u64) / 8;
        proof {
            vstd::arithmetic::div_mod::lemma_div_nonincreasing(-(q as int), 8);
            vstd::arithmetic::div_mod::lemma_div_pos_is_pos(-(q as int), 8);
        }
        -(m as i64)
    }
}

fn abs_e(a: i64) -> (r: i64)
    requires
        in_fp(a as int),
    ensures
        r as int == fp_abs(a as int),
        r >= 0,
        in_fp(r as int),
{
    if a < 0 {
        -a
    } else {
        a
    }
}

/// The executable octant arctangent; mirrors `atan2_turns`.
fn atan2_turns_e(y: i64, x: i64) -> (r: i64)
    requires
        in_fp(x as int),
        in_fp(y as int),
    ensures
        r as int == atan2_turns(y as int, x as int),
        in_fp(r as int),
{
    let ax = abs_e(x);
    let ay = abs_e(y);
    if ax == 0 && ay == 0 {
        0
    } else if ay <= ax {
        let q = div_fp(ay, ax);
        proof {
            lemma_ratio_unit(ay as int, ax as int);
        }
        let base = div8(q);
        if x >= 0 && y >= 0 {
            base
        } else if x < 0 && y >= 0 {
            HALF_TURN - base
        } else if x < 0 {
            HALF_TURN + base
        } else {
            FP_ONE - base
        }
    } else {
        let q = div_fp(ax, ay);
        proof {
            lemma_ratio_unit(ax as int, ay as int);
        }
        let base = div8(q);
        if y >= 0 && x >= 0 {
            QUARTER_TURN - base
        } else if y >= 0 {
            QUARTER_TURN + base
        } else if x < 0 {
            THREE_QUARTER_TURN - base
        } else {
            THREE_QUARTER_TURN + base
        }
    }
}

/// A ratio of a part to a whole, rescaled to fixed point, lies in `[0, FP_ONE]`.
proof fn lemma_ratio_unit(n: int, d: int)
    requires
        0 <= n <= d,
        1 <= d,
    ensures
        0 <= fp_div(n, d) <= FP_ONE,
{
    assert(n * FP_ONE >= 0) by (nonlinear_arith)
        requires
            n >= 0,
    ;
    assert(n * FP_ONE <= d * FP_ONE) by (nonlinear_arith)
        requires
            n <= d,
    ;
    assert(tdiv(n * FP_ONE, d) == (n * FP_ONE) / d);
    vstd::arithmetic::div_mod::lemma_div_pos_is_pos(n * FP_ONE, d);
    vstd::arithmetic::div_mod::lemma_div_is_ordered(n * FP_ONE, d * FP_ONE, d);
    vstd::arithmetic::div_mod::lemma_div_by_multiple(FP_ONE as int, d);
    assert((d * FP_ONE) / d == FP_ONE as int) by {
        assert(d * FP_ONE == FP_ONE * d) by (nonlinear_arith);
    }
}

/// A fixed-point square is nonnegative.
proof fn lemma_fp_square_nonneg(a: int)
    ensures
        fp_mul(a, a) >= 0,
{
    assert(a * a >= 0) by (nonlinear_arith);
    assert(tdiv(a * a, FP_ONE as int) == (a * a) / (FP_ONE as int));
    vstd::arithmetic::div_mod::lemma_div_pos_is_pos(a * a, FP_ONE as int);
}

fn sphere_u_e(outward: &Vec3) -> (r: i64)
    requires
        v_in_fp(outward@),
    ensures
        r as int == sphere_uv_u(outward@),
        in_fp(r as int),
{
    atan2_turns_e(outward.z, sub_fp(0, outward.x))
}

fn sphere_v_e(outward: &Vec3) -> (r: i64)
    requires
        v_in_fp(outward@),
    ensures
        r as int == sphere_uv_v(outward@),
        in_fp(r as int),
{
    let xx = mul_fp(outward.x, outward.x);
    let zz = mul_fp(outward.z, outward.z);
    proof {
        lemma_fp_square_nonneg(outward@.x);
        lemma_fp_square_nonneg(outward@.z);
    }
    let rho = sqrt_fp(add_fp(xx, zz));
    let t = atan2_turns_e(rho, sub_fp(0, outward.y));
    add_fp(t, t)
}

} // verus!
