//! Three-component fixed-point vectors, used as points, directions and colors.

use vstd::prelude::*;
use crate::fixed::{
    FP_ONE, FP_LIMIT, in_fp, clip, tdiv, fp_abs, fp_add, fp_sub, fp_mul, fp_div, fp_sqrt,
    add_fp, sub_fp, mul_fp, div_fp, sqrt_fp, is_isqrt, lemma_isqrt_exists,
};
use crate::rng::{Rng, rng_fp, rng_next, rng_after, range_draw};

verus! {

/// The mathematical value of a vector: three integers in fixed-point units.
pub struct V3 {
    pub x: int,
    pub y: int,
    pub z: int,
}

/// All three components in the scalar range.
pub open spec fn v_in_fp(v: V3) -> bool {
    in_fp(v.x) && in_fp(v.y) && in_fp(v.z)
}

pub open spec fn vadd(a: V3, b: V3) -> V3 {
    V3 { x: fp_add(a.x, b.x), y: fp_add(a.y, b.y), z: fp_add(a.z, b.z) }
}

pub open spec fn vsub(a: V3, b: V3) -> V3 {
    V3 { x: fp_sub(a.x, b.x), y: fp_sub(a.y, b.y), z: fp_sub(a.z, b.z) }
}

pub open spec fn vneg(a: V3) -> V3 {
    V3 { x: fp_sub(0, a.x), y: fp_sub(0, a.y), z: fp_sub(0, a.z) }
}

/// Component-wise product, the attenuation product on colors.
pub open spec fn vmul(a: V3, b: V3) -> V3 {
    V3 { x: fp_mul(a.x, b.x), y: fp_mul(a.y, b.y), z: fp_mul(a.z, b.z) }
}

/// Scale by a scalar.
pub open spec fn vscale(a: V3, s: int) -> V3 {
    V3 { x: fp_mul(a.x, s), y: fp_mul(a.y, s), z: fp_mul(a.z, s) }
}

/// Divide each component by a scalar.
pub open spec fn vdivs(a: V3, s: int) -> V3 {
    V3 { x: fp_div(a.x, s), y: fp_div(a.y, s), z: fp_div(a.z, s) }
}

/// Dot product, rounded once at the end.
pub open spec fn vdot(a: V3, b: V3) -> int {
    clip(tdiv(a.x * b.x + a.y * b.y + a.z * b.z, FP_ONE as int))
}

pub open spec fn vlen_sq(a: V3) -> int {
    vdot(a, a)
}

pub open spec fn vlen(a: V3) -> int {
    fp_sqrt(vlen_sq(a))
}

pub open spec fn vcross(a: V3, b: V3) -> V3 {
    V3 {
        x: fp_sub(fp_mul(a.y, b.z), fp_mul(a.z, b.y)),
        y: fp_sub(fp_mul(a.z, b.x), fp_mul(a.x, b.z)),
        z: fp_sub(fp_mul(a.x, b.y), fp_mul(a.y, b.x)),
    }
}

/// The unit of a vector; a zero-length vector is returned unchanged.
pub open spec fn vunit(a: V3) -> V3 {
    if vlen(a) == 0 {
        a
    } else {
        vdivs(a, vlen(a))
    }
}

/// All components exactly zero: the degenerate-direction predicate.
pub open spec fn vnear_zero(a: V3) -> bool {
    a.x == 0 && a.y == 0 && a.z == 0
}

/// Mirror reflection of `v` about the normal `n`: `v - 2 (v . n) n`.
pub open spec fn vreflect(v: V3, n: V3) -> V3 {
    let d = vdot(v, n);
    vsub(v, vscale(n, fp_add(d, d)))
}

/// Snell refraction of the unit direction `uv` at normal `n` with
/// refraction-index ratio `eta`, by the perpendicular/parallel split.
pub open spec fn vrefract(uv: V3, n: V3, eta: int) -> V3 {
    let cos_theta = min_fp(vdot(vneg(uv), n), FP_ONE as int);
    let r_perp = vscale(vadd(uv, vscale(n, cos_theta)), eta);
    let r_par = vscale(n, fp_sub(0, fp_sqrt(fp_abs(fp_sub(FP_ONE as int, vlen_sq(r_perp))))));
    vadd(r_perp, r_par)
}

pub open spec fn min_fp(a: int, b: int) -> int {
    if a < b { a } else { b }
}

/// The vector of three consecutive range draws from state `s`.
pub open spec fn vec_range_draw(s: u64, a: int, b: int) -> V3 {
    V3 {
        x: range_draw(s, a, b),
        y: range_draw(rng_after(s, 1), a, b),
        z: range_draw(rng_after(s, 2), a, b),
    }
}

/// A unit-sphere candidate is accepted when it lies strictly inside the
/// sphere and not too close to the center.
pub open spec fn sphere_accept(p: V3) -> bool {
    16384 <= vlen_sq(p) < FP_ONE
}

/// The point and final state of the bounded rejection sampler for the unit
/// sphere, starting at attempt `tries`: the first accepted three-component
/// draw, or the center after the attempts run out.
pub open spec fn sphere_draw(s: u64, tries: int) -> (V3, u64)
    decreases 64 - tries,
{
    if tries < 0 || tries >= 64 {
        (V3 { x: 0, y: 0, z: 0 }, s)
    } else {
        let p = vec_range_draw(s, -(FP_ONE as int), FP_ONE as int);
        let s3 = rng_after(s, 3);
        if sphere_accept(p) {
            (p, s3)
        } else {
            sphere_draw(s3, tries + 1)
        }
    }
}

/// The point and final state of the bounded rejection sampler for the unit
/// disk of the x-y plane.
pub open spec fn disk_draw(s: u64, tries: int) -> (V3, u64)
    decreases 64 - tries,
{
    if tries < 0 || tries >= 64 {
        (V3 { x: 0, y: 0, z: 0 }, s)
    } else {
        let p = V3 {
            x: range_draw(s, -(FP_ONE as int), FP_ONE as int),
            y: range_draw(rng_after(s, 1), -(FP_ONE as int), FP_ONE as int),
            z: 0,
        };
        let s2 = rng_after(s, 2);
        if vlen_sq(p) < FP_ONE {
            (p, s2)
        } else {
            disk_draw(s2, tries + 1)
        }
    }
}

/// The unit direction drawn from the sphere sampler.
pub open spec fn unit_draw(s: u64) -> (V3, u64) {
    let d = sphere_draw(s, 0);
    (vunit(d.0), d.1)
}

/// Every outcome of the sphere sampler is the center or an accepted draw.
pub proof fn lemma_sphere_draw_range(s: u64, tries: int)
    ensures
        ({
            let d = sphere_draw(s, tries);
            d.0 == (V3 { x: 0, y: 0, z: 0 }) || sphere_accept(d.0)
        }),
    decreases 64 - tries,
{
    if 0 <= tries < 64 {
        let p = vec_range_draw(s, -(FP_ONE as int), FP_ONE as int);
        if !sphere_accept(p) {
            lemma_sphere_draw_range(rng_after(s, 3), tries + 1);
        }
    }
}

#[derive(Clone, Copy, PartialEq, Eq, Structural, Debug)]
pub struct Vec3 {
    pub x: i64,
    pub y: i64,
    pub z: i64,
}

impl View for Vec3 {
    type V = V3;

    open spec fn view(&self) -> V3 {
        V3 { x: self.x as int, y: self.y as int, z: self.z as int }
    }
}

/// Nonnegativity of a sum of squares.
proof fn lemma_sq_sum_nonneg(x: int, y: int, z: int)
    by (nonlinear_arith)
    ensures
        x * x + y * y + z * z >= 0,
{
}

impl Vec3 {
    /// A vector from raw components, saturated to the scalar range.
    pub fn new(x: i64, y: i64, z: i64) -> (r: Vec3)
        ensures
            r@ == (V3 { x: clip(x as int), y: clip(y as int), z: clip(z as int) }),
            v_in_fp(r@),
    {
        Vec3 { x: clip64(x), y: clip64(y), z: clip64(z) }
    }

    pub fn zero() -> (r: Vec3)
        ensures
            r@ == (V3 { x: 0, y: 0, z: 0 }),
            v_in_fp(r@),
    {
        Vec3 { x: 0, y: 0, z: 0 }
    }

    pub fn add(&self, o: &Vec3) -> (r: Vec3)
        ensures
            r@ == vadd(self@, o@),
            v_in_fp(r@),
    {
        Vec3 { x: add_fp(self.x, o.x), y: add_fp(self.y, o.y), z: add_fp(self.z, o.z) }
    }

    pub fn sub(&self, o: &Vec3) -> (r: Vec3)
        ensures
            r@ == vsub(self@, o@),
            v_in_fp(r@),
    {
        Vec3 { x: sub_fp(self.x, o.x), y: sub_fp(self.y, o.y), z: sub_fp(self.z, o.z) }
    }

    pub fn neg(&self) -> (r: Vec3)
        ensures
            r@ == vneg(self@),
            v_in_fp(r@),
    {
        Vec3 { x: sub_fp(0, self.x), y: sub_fp(0, self.y), z: sub_fp(0, self.z) }
    }

    pub fn mul(&self, o: &Vec3) -> (r: Vec3)
        ensures
            r@ == vmul(self@, o@),
            v_in_fp(r@),
    {
        Vec3 { x: mul_fp(self.x, o.x), y: mul_fp(self.y, o.y), z: mul_fp(self.z, o.z) }
    }

    pub fn scale(&self, s: i64) -> (r: Vec3)
        ensures
            r@ == vscale(self@, s as int),
            v_in_fp(r@),
    {
        Vec3 { x: mul_fp(self.x, s), y: mul_fp(self.y, s), z: mul_fp(self.z, s) }
    }

    pub fn divs(&self, s: i64) -> (r: Vec3)
        requires
            s != 0,
        ensures
            r@ == vdivs(self@, s as int),
            v_in_fp(r@),
    {
        Vec3 { x: div_fp(self.x, s), y: div_fp(self.y, s), z: div_fp(self.z, s) }
    }

    pub fn dot(&self, o: &Vec3) -> (r: i64)
        requires
            v_in_fp(self@),
            v_in_fp(o@),
        ensures
            r as int == vdot(self@, o@),
            in_fp(r as int),
    {
        let px = wide3(self.x, o.x);
        let py = wide3(self.y, o.y);
        let pz = wide3(self.z, o.z);
        proof {
            lemma_prod_bound(self@.x, o@.x);
            lemma_prod_bound(self@.y, o@.y);
            lemma_prod_bound(self@.z, o@.z);
        }
        let s: i128 = px + py + pz;
        div_one_clip(s)
    }

    pub fn length_squared(&self) -> (r: i64)
        requires
            v_in_fp(self@),
        ensures
            r as int == vlen_sq(self@),
            0 <= r,
            in_fp(r as int),
    {
        proof {
            lemma_sq_sum_nonneg(self@.x, self@.y, self@.z);
        }
        self.dot(self)
    }

    pub fn length(&self) -> (r: i64)
        requires
            v_in_fp(self@),
        ensures
            r as int == vlen(self@),
            0 <= r,
            in_fp(r as int),
    {
        let q = self.length_squared();
        sqrt_fp(q)
    }

    pub fn cross(&self, o: &Vec3) -> (r: Vec3)
        ensures
            r@ == vcross(self@, o@),
            v_in_fp(r@),
    {
        Vec3 {
            x: sub_fp(mul_fp(self.y, o.z), mul_fp(self.z, o.y)),
            y: sub_fp(mul_fp(self.z, o.x), mul_fp(self.x, o.z)),
            z: sub_fp(mul_fp(self.x, o.y), mul_fp(self.y, o.x)),
        }
    }

    /// Direction normalized to unit length; a zero vector stays as it is.
    pub fn unit(&self) -> (r: Vec3)
        requires
            v_in_fp(self@),
        ensures
            r@ == vunit(self@),
            v_in_fp(r@),
    {
        let l = self.length();
        if l == 0 {
            *self
        } else {
            self.divs(l)
        }
    }

    pub fn near_zero(&self) -> (r: bool)
        ensures
            r == vnear_zero(self@),
    {
        self.x == 0 && self.y == 0 && self.z == 0
    }

    /// `v - 2 (v . n) n`.
    pub fn reflect(&self, n: &Vec3) -> (r: Vec3)
        requires
            v_in_fp(self@),
            v_in_fp(n@),
        ensures
            r@ == vreflect(self@, n@),
            v_in_fp(r@),
    {
        let d = self.dot(n);
        let two_d = add_fp(d, d);
        self.sub(&n.scale(two_d))
    }

    /// Snell refraction; `self` is expected to be a unit direction.
    pub fn refract(&self, n: &Vec3, eta: i64) -> (r: Vec3)
        requires
            v_in_fp(self@),
            v_in_fp(n@),
        ensures
            r@ == vrefract(self@, n@, eta as int),
            v_in_fp(r@),
    {
        let mcos = self.neg().dot(n);
        let cos_theta = if mcos < FP_ONE { mcos } else { FP_ONE };
        let r_perp = self.add(&n.scale(cos_theta)).scale(eta);
        let q = r_perp.length_squared();
        let inner = sub_fp(FP_ONE, q);
        let inner_abs = if inner < 0 { sub_fp(0, inner) } else { inner };
        proof {
            assert(inner_abs as int == fp_abs(fp_sub(FP_ONE as int, vlen_sq(r_perp@))));
        }
        let r_par = n.scale(sub_fp(0, sqrt_fp(inner_abs)));
        r_perp.add(&r_par)
    }

    /// A vector with each component uniform in `[0, FP_ONE)`: three
    /// consecutive fraction draws.
    pub fn random(rng: &mut Rng) -> (r: Vec3)
        ensures
            v_in_fp(r@),
            0 <= r@.x < FP_ONE,
            0 <= r@.y < FP_ONE,
            0 <= r@.z < FP_ONE,
            r@ == (V3 {
                x: rng_fp(old(rng).state),
                y: rng_fp(rng_after(old(rng).state, 1)),
                z: rng_fp(rng_after(old(rng).state, 2)),
            }),
            final(rng).state == rng_after(old(rng).state, 3),
    {
        let ghost s0 = rng.state;
        let x = rng.next_fp();
        let y = rng.next_fp();
        let z = rng.next_fp();
        proof {
            lemma_rng_after_unfold(s0);
        }
        Vec3 { x, y, z }
    }

    /// A vector with each component uniform in `[a, b]`.
    pub fn random_by_range(rng: &mut Rng, a: i64, b: i64) -> (r: Vec3)
        requires
            a <= b,
            in_fp(a as int),
            in_fp(b as int),
        ensures
            v_in_fp(r@),
            a <= r@.x <= b,
            a <= r@.y <= b,
            a <= r@.z <= b,
            r@ == vec_range_draw(old(rng).state, a as int, b as int),
            final(rng).state == rng_after(old(rng).state, 3),
    {
        let ghost s0 = rng.state;
        let x = rng.next_range(a, b);
        let y = rng.next_range(a, b);
        let z = rng.next_range(a, b);
        proof {
            lemma_rng_after_unfold(s0);
        }
        Vec3 { x, y, z }
    }

    /// A point strictly inside the unit sphere, by bounded rejection
    /// sampling; the candidate is also kept away from the center so that
    /// normalizing it is meaningful.
    #[verifier::rlimit(100)]
    pub fn random_in_unit_sphere(rng: &mut Rng) -> (r: Vec3)
        ensures
            v_in_fp(r@),
            vlen_sq(r@) < FP_ONE,
            (r@, final(rng).state) == sphere_draw(old(rng).state, 0),
    {
        let mut tries: u32 = 0;
        while tries < 64
            invariant
                tries <= 64,
                sphere_draw(old(rng).state, 0) == sphere_draw(rng.state, tries as int),
            decreases 64 - tries,
        {
            let ghost si = rng.state;
            let p = Vec3::random_by_range(rng, -FP_ONE, FP_ONE);
            let q = p.length_squared();
            proof {
                assert(sphere_draw(si, tries as int) == (if sphere_accept(p@) {
                    (p@, rng_after(si, 3))
                } else {
                    sphere_draw(rng_after(si, 3), tries as int + 1)
                }));
            }
            if q < FP_ONE && q >= 16384 {
                return p;
            }
            tries = tries + 1;
        }
        let f = Vec3 { x: 0, y: 0, z: 0 };
        proof {
            assert(f@.x * f@.x + f@.y * f@.y + f@.z * f@.z == 0);
            assert(tdiv(0, FP_ONE as int) == 0);
            assert(vlen_sq(f@) == 0);
        }
        f
    }

    /// A unit-length direction drawn from the unit sphere: its squared
    /// length is one up to a few rounding steps, or zero for the rare
    /// fallback draw.
    pub fn random_unit_vector(rng: &mut Rng) -> (r: Vec3)
        ensures
            v_in_fp(r@),
            (r@, final(rng).state) == unit_draw(old(rng).state),
            vlen_sq(r@) <= FP_ONE + 32,
    {
        let p = Vec3::random_in_unit_sphere(rng);
        let r = p.unit();
        proof {
            lemma_sphere_draw_range(old(rng).state, 0);
            if p@ == (V3 { x: 0, y: 0, z: 0 }) {
                assert(p@.x == 0 && p@.y == 0 && p@.z == 0);
                assert(p@.x * p@.x == 0 && p@.y * p@.y == 0 && p@.z * p@.z == 0)
                    by (nonlinear_arith)
                    requires
                        p@.x == 0,
                        p@.y == 0,
                        p@.z == 0,
                ;
                assert(tdiv(0, FP_ONE as int) == 0);
                assert(vlen_sq(p@) == 0);
                assert(vlen_sq(r@) == 0);
            } else {
                lemma_unit_near_unit(p@);
            }
        }
        r
    }

    /// A point inside the unit disk of the x-y plane, for lens sampling.
    #[verifier::rlimit(100)]
    pub fn random_in_unit_disk(rng: &mut Rng) -> (r: Vec3)
        ensures
            v_in_fp(r@),
            vlen_sq(r@) < FP_ONE,
            r@.z == 0,
            (r@, final(rng).state) == disk_draw(old(rng).state, 0),
    {
        let mut tries: u32 = 0;
        while tries < 64
            invariant
                tries <= 64,
                disk_draw(old(rng).state, 0) == disk_draw(rng.state, tries as int),
            decreases 64 - tries,
        {
            let ghost si = rng.state;
            let x = rng.next_range(-FP_ONE, FP_ONE);
            let y = rng.next_range(-FP_ONE, FP_ONE);
            let p = Vec3 { x, y, z: 0 };
            let q = p.length_squared();
            proof {
                lemma_rng_after_unfold(si);
                assert(disk_draw(si, tries as int) == (if vlen_sq(p@) < FP_ONE {
                    (p@, rng_after(si, 2))
                } else {
                    disk_draw(rng_after(si, 2), tries as int + 1)
                }));
            }
            if q < FP_ONE {
                return p;
            }
            tries = tries + 1;
        }
        let f = Vec3 { x: 0, y: 0, z: 0 };
        proof {
            assert(f@.x * f@.x + f@.y * f@.y + f@.z * f@.z == 0);
            assert(tdiv(0, FP_ONE as int) == 0);
            assert(vlen_sq(f@) == 0);
        }
        f
    }
}

/// One truncated quotient scaled back by its divisor undershoots the
/// dividend in magnitude.
proof fn lemma_tdiv_scaled(x: int, l: int)
    requires
        1 <= l,
    ensures
        fp_abs(tdiv(x, l)) * l <= fp_abs(x),
        fp_abs(tdiv(x, l)) * fp_abs(tdiv(x, l)) * (l * l) <= x * x,
{
    let m = fp_abs(x);
    vstd::arithmetic::div_mod::lemma_fundamental_div_mod(m, l);
    assert(l * (m / l) <= m);
    assert(fp_abs(tdiv(x, l)) == m / l);
    vstd::arithmetic::div_mod::lemma_div_pos_is_pos(m, l);
    assert(fp_abs(tdiv(x, l)) * l <= fp_abs(x)) by (nonlinear_arith)
        requires
            l * (m / l) <= m,
            fp_abs(tdiv(x, l)) == m / l,
            m == fp_abs(x),
    ;
    assert(fp_abs(x) * fp_abs(x) == x * x) by (nonlinear_arith);
    assert(fp_abs(tdiv(x, l)) * fp_abs(tdiv(x, l)) * (l * l) <= x * x) by (nonlinear_arith)
        requires
            fp_abs(tdiv(x, l)) * l <= fp_abs(x),
            fp_abs(tdiv(x, l)) >= 0,
            fp_abs(x) >= 0,
            l >= 1,
            fp_abs(x) * fp_abs(x) == x * x,
    ;
}

/// Normalizing a sample whose squared length lies in `[FP_ONE / 4, FP_ONE)`
/// yields a direction of unit length up to a few rounding steps.
pub proof fn lemma_unit_near_unit(v: V3)
    requires
        v_in_fp(v),
        16384 <= vlen_sq(v) < FP_ONE,
    ensures
        0 <= vlen_sq(vunit(v)) <= FP_ONE + 32,
{
    let s = FP_ONE as int;
    let q = v.x * v.x + v.y * v.y + v.z * v.z;
    let lsq = vlen_sq(v);
    assert(v.x * v.x >= 0 && v.y * v.y >= 0 && v.z * v.z >= 0) by (nonlinear_arith);
    assert(tdiv(q, s) == q / s);
    assert(lsq == clip(q / s));
    vstd::arithmetic::div_mod::lemma_div_pos_is_pos(q, s);
    assert(lsq == q / s);
    vstd::arithmetic::div_mod::lemma_fundamental_div_mod(q, s);
    assert(lsq * s <= q < (lsq + 1) * s) by (nonlinear_arith)
        requires
            q == s * (q / s) + q % s,
            0 <= q % s < s,
            lsq == q / s,
    ;
    let ls = lsq * s;
    assert(0 <= ls <= 65535 * 65536) by (nonlinear_arith)
        requires
            16384 <= lsq <= 65535,
            ls == lsq * s,
            s == 65536,
    ;
    lemma_isqrt_exists(ls);
    let l = fp_sqrt(lsq);
    assert(is_isqrt(ls, l));
    assert(l >= 32768) by (nonlinear_arith)
        requires
            (l + 1) * (l + 1) > ls,
            ls >= 16384 * 65536,
            l >= 0,
    ;
    assert(l <= 65535) by (nonlinear_arith)
        requires
            l * l <= ls,
            ls <= 65535 * 65536,
            l >= 0,
    ;
    assert(vlen(v) == l);
    assert(vunit(v) == vdivs(v, l));
    let u = vdivs(v, l);
    assert(v.x * v.x <= q && v.y * v.y <= q && v.z * v.z <= q);
    assert(q < s * s) by (nonlinear_arith)
        requires
            q < (lsq + 1) * s,
            lsq + 1 <= s,
            s > 0,
    ;
    lemma_tdiv_scaled(v.x * s, l);
    lemma_tdiv_scaled(v.y * s, l);
    lemma_tdiv_scaled(v.z * s, l);
    assert(fp_abs(tdiv(v.x * s, l)) <= 131072 && fp_abs(tdiv(v.y * s, l)) <= 131072 && fp_abs(
        tdiv(v.z * s, l),
    ) <= 131072) by (nonlinear_arith)
        requires
            fp_abs(tdiv(v.x * s, l)) * l <= fp_abs(v.x * s),
            fp_abs(tdiv(v.y * s, l)) * l <= fp_abs(v.y * s),
            fp_abs(tdiv(v.z * s, l)) * l <= fp_abs(v.z * s),
            v.x * v.x <= q,
            v.y * v.y <= q,
            v.z * v.z <= q,
            q < s * s,
            s == 65536,
            l >= 32768,
            fp_abs(tdiv(v.x * s, l)) >= 0,
            fp_abs(tdiv(v.y * s, l)) >= 0,
            fp_abs(tdiv(v.z * s, l)) >= 0,
    ;
    assert(u.x == tdiv(v.x * s, l) && u.y == tdiv(v.y * s, l) && u.z == tdiv(v.z * s, l));
    let su = u.x * u.x + u.y * u.y + u.z * u.z;
    assert(u.x * u.x * (l * l) <= (v.x * v.x) * (s * s)) by {
        assert(fp_abs(u.x) * fp_abs(u.x) * (l * l) <= (v.x * s) * (v.x * s));
        assert(fp_abs(u.x) * fp_abs(u.x) == u.x * u.x) by (nonlinear_arith);
        assert((v.x * s) * (v.x * s) == (v.x * v.x) * (s * s)) by (nonlinear_arith);
    }
    assert(u.y * u.y * (l * l) <= (v.y * v.y) * (s * s)) by {
        assert(fp_abs(u.y) * fp_abs(u.y) * (l * l) <= (v.y * s) * (v.y * s));
        assert(fp_abs(u.y) * fp_abs(u.y) == u.y * u.y) by (nonlinear_arith);
        assert((v.y * s) * (v.y * s) == (v.y * v.y) * (s * s)) by (nonlinear_arith);
    }
    assert(u.z * u.z * (l * l) <= (v.z * v.z) * (s * s)) by {
        assert(fp_abs(u.z) * fp_abs(u.z) * (l * l) <= (v.z * s) * (v.z * s));
        assert(fp_abs(u.z) * fp_abs(u.z) == u.z * u.z) by (nonlinear_arith);
        assert((v.z * s) * (v.z * s) == (v.z * v.z) * (s * s)) by (nonlinear_arith);
    }
    assert(su * (l * l) <= q * (s * s)) by (nonlinear_arith)
        requires
            u.x * u.x * (l * l) <= (v.x * v.x) * (s * s),
            u.y * u.y * (l * l) <= (v.y * v.y) * (s * s),
            u.z * u.z * (l * l) <= (v.z * v.z) * (s * s),
            su == u.x * u.x + u.y * u.y + u.z * u.z,
            q == v.x * v.x + v.y * v.y + v.z * v.z,
    ;
    assert((lsq + 1) * (s * s) <= (s + 33) * (ls - 131070)) by (nonlinear_arith)
        requires
            16384 <= lsq <= 65535,
            ls == lsq * s,
            s == 65536,
    ;
    assert(l * l >= ls - 131070) by (nonlinear_arith)
        requires
            (l + 1) * (l + 1) > ls,
            32768 <= l <= 65535,
    ;
    assert(su * (l * l) < (s + 33) * s * (l * l)) by (nonlinear_arith)
        requires
            su * (l * l) <= q * (s * s),
            q < (lsq + 1) * s,
            (lsq + 1) * (s * s) <= (s + 33) * (ls - 131070),
            l * l >= ls - 131070,
            s == 65536,
            l >= 32768,
            s + 33 > 0,
    ;
    assert(su < (s + 33) * s) by (nonlinear_arith)
        requires
            su * (l * l) < (s + 33) * s * (l * l),
            l >= 32768,
    ;
    assert(u.x * u.x >= 0 && u.y * u.y >= 0 && u.z * u.z >= 0) by (nonlinear_arith);
    assert(su >= 0);
    assert(tdiv(su, s) == su / s);
    vstd::arithmetic::div_mod::lemma_div_pos_is_pos(su, s);
    vstd::arithmetic::div_mod::lemma_div_is_ordered(su, (s + 33) * s - 1, s);
    vstd::arithmetic::div_mod::lemma_fundamental_div_mod_converse((s + 33) * s - 1, s, s + 32, s - 1);
    assert((s + 33) * s - 1 == (s + 32) * s + (s - 1)) by (nonlinear_arith);
    assert(su / s <= s + 32);
    assert(vlen_sq(u) == clip(su / s));
    assert(0 <= vlen_sq(vunit(v)) <= FP_ONE + 32);
}

/// Unfolds the step counter of the generator for the first three draws.
pub proof fn lemma_rng_after_unfold(s: u64)
    ensures
        rng_after(s, 0) == s,
        rng_after(s, 1) == rng_next(s),
        rng_after(s, 2) == rng_next(rng_next(s)),
        rng_after(s, 3) == rng_next(rng_next(rng_next(s))),
{
    assert(rng_after(s, 0) == s);
    assert(rng_after(s, 1) == rng_next(rng_after(s, 0)));
    assert(rng_after(s, 2) == rng_next(rng_after(s, 1)));
    assert(rng_after(s, 3) == rng_next(rng_after(s, 2)));
}

fn clip64(a: i64) -> (r: i64)
    ensures
        r as int == clip(a as int),
        in_fp(r as int),
{
    if a > FP_LIMIT {
        FP_LIMIT
    } else if a < -FP_LIMIT {
        -FP_LIMIT
    } else {
        a
    }
}

/// The product of two in-range scalars stays well inside `i128`.
proof fn lemma_prod_bound(a: int, b: int)
    by (nonlinear_arith)
    requires
        in_fp(a),
        in_fp(b),
    ensures
        fp_abs(a * b) <= FP_LIMIT as int * FP_LIMIT as int,
{
}

fn wide3(a: i64, b: i64) -> (r: i128)
    ensures
        r as int == a as int * b as int,
{
    proof {
        assert(i128::MIN <= a as int * b as int <= i128::MAX) by (nonlinear_arith);
    }
    (a as i128) * (b as i128)
}

/// Divide a wide sum of products by `FP_ONE` and saturate.
fn div_one_clip(s: i128) -> (r: i64)
    requires
        i128::MIN < s,
    ensures
        r as int == clip(tdiv(s as int, FP_ONE as int)),
        in_fp(r as int),
{
    let sm: u128 = if s < 0 { (-s) as u128 } else { s as u128 };
    let qm: u128 = sm / (FP_ONE as u128);
    let q: i128 = if s < 0 { -(qm as i128) } else { qm as i128 };
    proof {
        assert(qm as int <= sm as int) by (nonlinear_arith)
            requires
                qm as int == sm as int / 65536,
                sm >= 0,
        ;
    }
    if q > FP_LIMIT as i128 {
        FP_LIMIT
    } else if q < -(FP_LIMIT as i128) {
        -FP_LIMIT
    } else {
        q as i64
    }
}

} // verus!
