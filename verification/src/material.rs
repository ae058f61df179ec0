//! The material protocol: an optional scattered ray with its attenuation,
//! and the light a surface emits on its own.

use vstd::prelude::*;
use crate::fixed::{
    FP_ONE, in_fp, fp_add, fp_sub, fp_mul, fp_div, fp_sqrt,
    add_fp, sub_fp, mul_fp, div_fp, sqrt_fp,
};
use crate::vec3::{Vec3, V3, v_in_fp, vadd, vscale, vdot, vlen_sq, vreflect, vrefract, vunit, vnear_zero, min_fp, unit_draw, sphere_draw};
use crate::ray::{Ray, RayV, ray_in_fp};
use crate::hit::{HitRecord, HR, hr_in_fp};
use crate::texture::{Texture, texture_wf, texture_value};
use crate::rng::{Rng, rng_fp, rng_next};

verus! {

/// Diffuse material: scatters around the surface normal, attenuated by its
/// albedo texture.
pub struct Lambertian {
    pub albedo: Texture,
}

/// Reflective material with a fuzz radius in `[0, FP_ONE]`.
pub struct Metal {
    pub albedo: Vec3,
    pub fuzz: i64,
}

/// Refractive material with a fixed-point refraction index.
pub struct Dielectric {
    pub ir: i64,
}

/// A surface that only emits a constant color.
pub struct DiffuseLight {
    pub emit: Vec3,
}

pub enum Material {
    Lambertian(Lambertian),
    Metal(Metal),
    Dielectric(Dielectric),
    DiffuseLight(DiffuseLight),
}

pub open spec fn material_wf(m: Material) -> bool {
    match m {
        Material::Lambertian(l) => texture_wf(l.albedo),
        Material::Metal(mt) => v_in_fp(mt.albedo@) && 0 <= mt.fuzz <= FP_ONE,
        Material::Dielectric(d) => 1 <= d.ir && in_fp(d.ir as int),
        Material::DiffuseLight(dl) => v_in_fp(dl.emit@),
    }
}

/// The light a material emits by itself: black for all but diffuse lights.
pub open spec fn material_emitted(m: Material, u: int, v: int, p: V3) -> V3 {
    match m {
        Material::DiffuseLight(dl) => dl.emit@,
        _ => V3 { x: 0, y: 0, z: 0 },
    }
}

/// Schlick's reflectance approximation, in fixed point.
pub open spec fn schlick(cosine: int, ratio: int) -> int {
    let r0 = fp_div(fp_sub(FP_ONE as int, ratio), fp_add(FP_ONE as int, ratio));
    let r0sq = fp_mul(r0, r0);
    fp_add(r0sq, fp_mul(fp_sub(FP_ONE as int, r0sq), pow5(fp_sub(FP_ONE as int, cosine))))
}

pub open spec fn pow5(x: int) -> int {
    fp_mul(fp_mul(fp_mul(fp_mul(x, x), x), x), x)
}

/// The refraction-index ratio seen by the ray: inverted when it enters
/// from the front.
pub open spec fn dielectric_ratio(ir: int, front_face: bool) -> int {
    if front_face {
        fp_div(FP_ONE as int, ir)
    } else {
        ir
    }
}

/// The cosine the dielectric uses: the incoming unit direction against the
/// stored normal, capped at one.
pub open spec fn dielectric_cos(unit_dir: V3, normal: V3) -> int {
    min_fp(vdot(crate::vec3::vneg(unit_dir), normal), FP_ONE as int)
}

/// The sine from the cosine, guarded against rounding below zero.
pub open spec fn dielectric_sin(cos: int) -> int {
    let s2 = fp_sub(FP_ONE as int, fp_mul(cos, cos));
    if s2 <= 0 {
        0
    } else {
        fp_sqrt(s2)
    }
}

/// The scattered direction of the dielectric: reflection when refraction is
/// geometrically impossible or the Schlick draw chooses it, else Snell
/// refraction.
pub open spec fn dielectric_dir(ir: int, front_face: bool, normal: V3, unit_dir: V3, draw: int) -> V3 {
    let ratio = dielectric_ratio(ir, front_face);
    let cos = dielectric_cos(unit_dir, normal);
    let sin = dielectric_sin(cos);
    let cannot_refract = fp_mul(ratio, sin) > FP_ONE;
    if cannot_refract || schlick(cos, ratio) > draw {
        vreflect(unit_dir, normal)
    } else {
        vrefract(unit_dir, normal, ratio)
    }
}

/// The scatter outcome and final generator state of a material on a hit:
/// the full protocol as a function of the incoming ray, the record and the
/// generator state.
pub open spec fn scatter_spec(m: Material, r: RayV, rec: HR, s: u64) -> (Option<(V3, RayV)>, u64) {
    match m {
        Material::Lambertian(l) => {
            let d = unit_draw(s);
            let d0 = vadd(rec.normal, d.0);
            let dir = if vnear_zero(d0) {
                rec.normal
            } else {
                d0
            };
            (
                Some(
                    (
                        texture_value(l.albedo, rec.u, rec.v, rec.p),
                        RayV { origin: rec.p, dir, time: r.time },
                    ),
                ),
                d.1,
            )
        },
        Material::Metal(mt) => {
            let refl = vreflect(vunit(r.dir), rec.normal);
            let d = sphere_draw(s, 0);
            let dir = vadd(refl, vscale(d.0, mt.fuzz as int));
            if vdot(dir, rec.normal) > 0 {
                (Some((mt.albedo@, RayV { origin: rec.p, dir, time: r.time })), d.1)
            } else {
                (None, d.1)
            }
        },
        Material::Dielectric(dm) => {
            let dir = dielectric_dir(
                dm.ir as int,
                rec.front_face,
                rec.normal,
                vunit(r.dir),
                rng_fp(s),
            );
            (
                Some(
                    (
                        V3 { x: FP_ONE as int, y: FP_ONE as int, z: FP_ONE as int },
                        RayV { origin: rec.p, dir, time: r.time },
                    ),
                ),
                rng_next(s),
            )
        },
        Material::DiffuseLight(_) => (None, s),
    }
}

impl Lambertian {
    /// A diffuse material of one constant color.
    pub fn new(albedo: &Vec3) -> (m: Lambertian)
        requires
            v_in_fp(albedo@),
        ensures
            m.albedo == Texture::Solid(*albedo),
            material_wf(Material::Lambertian(m)),
    {
        Lambertian { albedo: Texture::Solid(*albedo) }
    }

    /// A diffuse material over an arbitrary texture.
    pub fn new_with_texture(albedo: Texture) -> (m: Lambertian)
        requires
            texture_wf(albedo),
        ensures
            m.albedo == albedo,
            material_wf(Material::Lambertian(m)),
    {
        Lambertian { albedo }
    }

    /// Always scatters: from the hit point, around the normal, with the
    /// degenerate direction falling back to the normal itself; attenuation
    /// is the albedo at the hit.
    pub fn scatter(&self, r_in: &Ray, rec: &HitRecord, rng: &mut Rng) -> (res: Option<(Vec3, Ray)>)
        requires
            texture_wf(self.albedo),
            ray_in_fp(r_in@),
            hr_in_fp(rec@),
        ensures
            res is Some,
            res matches Some((att, sc)) ==> {
                &&& sc@.origin == rec@.p
                &&& sc@.time == r_in@.time
                &&& att@ == texture_value(self.albedo, rec@.u, rec@.v, rec@.p)
                &&& ray_in_fp(sc@)
                &&& v_in_fp(att@)
                &&& (sc@.dir == rec@.normal || exists|e: V3|
                    v_in_fp(e) && vlen_sq(e) <= FP_ONE + 32 && sc@.dir == vadd(rec@.normal, e))
                &&& (!vnear_zero(rec@.normal) ==> !vnear_zero(sc@.dir))
            },
            ({
                let sp = scatter_spec(
                    Material::Lambertian(*self),
                    r_in@,
                    rec@,
                    old(rng).state,
                );
                &&& final(rng).state == sp.1
                &&& (res matches Some((att, sc)) ==> sp.0 == Some((att@, sc@)))
            }),
    {
        let rv = Vec3::random_unit_vector(rng);
        let mut dir = rec.normal.add(&rv);
        if dir.near_zero() {
            dir = rec.normal;
            proof {
                assert(dir@ == rec@.normal);
            }
        }
        let att = self.albedo.value(rec.u, rec.v, &rec.p);
        let sc = Ray::new(&rec.p, &dir, r_in.time());
        proof {
            if !vnear_zero(vadd(rec@.normal, rv@)) {
                assert(v_in_fp(rv@) && sc@.dir == vadd(rec@.normal, rv@));
            }
        }
        Some((att, sc))
    }
}

impl Metal {
    /// A reflective material; fuzz is clamped to `[0, FP_ONE]`.
    pub fn new(albedo: &Vec3, fuzz: i64) -> (m: Metal)
        requires
            v_in_fp(albedo@),
        ensures
            m.albedo == *albedo,
            m.fuzz == (if fuzz < 0 { 0i64 } else if fuzz > FP_ONE { FP_ONE } else { fuzz }),
            material_wf(Material::Metal(m)),
    {
        let f = if fuzz < 0 {
            0
        } else if fuzz > FP_ONE {
            FP_ONE
        } else {
            fuzz
        };
        Metal { albedo: *albedo, fuzz: f }
    }

    /// Scatters the mirror reflection of the incoming direction, fuzzed by
    /// a random offset, and only if the result still points away from the
    /// surface; with zero fuzz the direction is exactly the reflection.
    pub fn scatter(&self, r_in: &Ray, rec: &HitRecord, rng: &mut Rng) -> (res: Option<(Vec3, Ray)>)
        requires
            v_in_fp(self.albedo@),
            0 <= self.fuzz <= FP_ONE,
            ray_in_fp(r_in@),
            hr_in_fp(rec@),
        ensures
            res matches Some((att, sc)) ==> {
                &&& att == self.albedo
                &&& sc@.origin == rec@.p
                &&& sc@.time == r_in@.time
                &&& vdot(sc@.dir, rec@.normal) > 0
                &&& ray_in_fp(sc@)
            },
            self.fuzz == 0 ==> {
                let refl = vreflect(vunit(r_in@.dir), rec@.normal);
                &&& (res is Some <==> vdot(refl, rec@.normal) > 0)
                &&& (res matches Some((att, sc)) ==> sc@.dir == refl)
            },
            ({
                let sp = scatter_spec(Material::Metal(*self), r_in@, rec@, old(rng).state);
                &&& final(rng).state == sp.1
                &&& (res matches Some((att, sc)) ==> sp.0 == Some((att@, sc@)))
                &&& (res is None ==> sp.0 is None)
            }),
    {
        let reflected = r_in.dir().unit().reflect(&rec.normal);
        let fz = Vec3::random_in_unit_sphere(rng).scale(self.fuzz);
        let dir = reflected.add(&fz);
        proof {
            if self.fuzz == 0 {
                assert(fz@ == (V3 { x: 0, y: 0, z: 0 }));
                assert(dir@ == reflected@);
            }
        }
        let d = dir.dot(&rec.normal);
        if d > 0 {
            Some((self.albedo, Ray::new(&rec.p, &dir, r_in.time())))
        } else {
            None
        }
    }
}

impl Dielectric {
    /// A refractive material with the given index.
    pub fn new(ir: i64) -> (m: Dielectric)
        requires
            1 <= ir,
            in_fp(ir as int),
        ensures
            m.ir == ir,
            material_wf(Material::Dielectric(m)),
    {
        Dielectric { ir }
    }

    /// Always scatters with no tint; the direction is reflection or Snell
    /// refraction, chosen by total internal reflection and one Schlick draw
    /// from the generator.
    pub fn scatter(&self, r_in: &Ray, rec: &HitRecord, rng: &mut Rng) -> (res: Option<(Vec3, Ray)>)
        requires
            1 <= self.ir,
            in_fp(self.ir as int),
            ray_in_fp(r_in@),
            hr_in_fp(rec@),
        ensures
            res is Some,
            res matches Some((att, sc)) ==> {
                &&& att@ == (V3 { x: FP_ONE as int, y: FP_ONE as int, z: FP_ONE as int })
                &&& sc@.origin == rec@.p
                &&& sc@.time == r_in@.time
                &&& sc@.dir == dielectric_dir(
                    self.ir as int,
                    rec@.front_face,
                    rec@.normal,
                    vunit(r_in@.dir),
                    rng_fp(old(rng).state),
                )
                &&& ray_in_fp(sc@)
            },
            final(rng).state == rng_next(old(rng).state),
            ({
                let sp = scatter_spec(Material::Dielectric(*self), r_in@, rec@, old(rng).state);
                &&& final(rng).state == sp.1
                &&& (res matches Some((att, sc)) ==> sp.0 == Some((att@, sc@)))
            }),
    {
        let att = Vec3::new(FP_ONE, FP_ONE, FP_ONE);
        let ratio = if rec.front_face {
            div_fp(FP_ONE, self.ir)
        } else {
            self.ir
        };
        let unit_dir = r_in.dir().unit();
        let mcos = unit_dir.neg().dot(&rec.normal);
        let cos = if mcos < FP_ONE {
            mcos
        } else {
            FP_ONE
        };
        let s2 = sub_fp(FP_ONE, mul_fp(cos, cos));
        let sin = if s2 <= 0 {
            0
        } else {
            sqrt_fp(s2)
        };
        let cannot_refract = mul_fp(ratio, sin) > FP_ONE;
        let draw = rng.next_fp();
        let dir = if cannot_refract || schlick_e(cos, ratio) > draw {
            unit_dir.reflect(&rec.normal)
        } else {
            unit_dir.refract(&rec.normal, ratio)
        };
        Some((att, Ray::new(&rec.p, &dir, r_in.time())))
    }
}

/// Schlick's reflectance, executably.
fn schlick_e(cosine: i64, ratio: i64) -> (r: i64)
    requires
        in_fp(cosine as int),
        in_fp(ratio as int),
    ensures
        r as int == schlick(cosine as int, ratio as int),
{
    let denom = add_fp(FP_ONE, ratio);
    let r0 = if denom == 0 {
        0
    } else {
        div_fp(sub_fp(FP_ONE, ratio), denom)
    };
    let r0sq = mul_fp(r0, r0);
    let x = sub_fp(FP_ONE, cosine);
    let x5 = mul_fp(mul_fp(mul_fp(mul_fp(x, x), x), x), x);
    add_fp(r0sq, mul_fp(sub_fp(FP_ONE, r0sq), x5))
}

impl DiffuseLight {
    /// A light of one constant color.
    pub fn new_with_color(emit: Vec3) -> (m: DiffuseLight)
        requires
            v_in_fp(emit@),
        ensures
            m.emit == emit,
            material_wf(Material::DiffuseLight(m)),
    {
        DiffuseLight { emit }
    }
}

impl Material {
    /// The light the material emits at the hit.
    pub fn emitted(&self, u: i64, v: i64, p: &Vec3) -> (r: Vec3)
        ensures
            r@ == material_emitted(*self, u as int, v as int, p@),
    {
        match self {
            Material::DiffuseLight(dl) => dl.emit,
            _ => Vec3::zero(),
        }
    }

    /// Dispatches the scatter protocol to the variant.
    pub fn scatter(&self, r_in: &Ray, rec: &HitRecord, rng: &mut Rng) -> (res: Option<(Vec3, Ray)>)
        requires
            material_wf(*self),
            ray_in_fp(r_in@),
            hr_in_fp(rec@),
        ensures
            res matches Some((att, sc)) ==> {
                &&& sc@.origin == rec@.p
                &&& sc@.time == r_in@.time
                &&& ray_in_fp(sc@)
                &&& v_in_fp(att@)
            },
            self matches Material::Lambertian(l) ==> res is Some && (res matches Some((att, sc))
                ==> att@ == texture_value(l.albedo, rec@.u, rec@.v, rec@.p)),
            self matches Material::Dielectric(d) ==> res is Some && (res matches Some((att, sc))
                ==> att@ == (V3 { x: FP_ONE as int, y: FP_ONE as int, z: FP_ONE as int })
                && sc@.dir == dielectric_dir(
                d.ir as int,
                rec@.front_face,
                rec@.normal,
                vunit(r_in@.dir),
                rng_fp(old(rng).state),
            )),
            self matches Material::Metal(mt) ==> (res matches Some((att, sc)) ==> att == mt.albedo
                && vdot(sc@.dir, rec@.normal) > 0) && (mt.fuzz == 0 ==> {
                let refl = vreflect(vunit(r_in@.dir), rec@.normal);
                &&& (res is Some <==> vdot(refl, rec@.normal) > 0)
                &&& (res matches Some((att, sc)) ==> sc@.dir == refl)
            }),
            self is DiffuseLight ==> res is None,
            ({
                let sp = scatter_spec(*self, r_in@, rec@, old(rng).state);
                &&& final(rng).state == sp.1
                &&& (res matches Some((att, sc)) ==> sp.0 == Some((att@, sc@)))
                &&& (res is None ==> sp.0 is None)
            }),
    {
        match self {
            Material::Lambertian(l) => l.scatter(r_in, rec, rng),
            Material::Metal(mt) => mt.scatter(r_in, rec, rng),
            Material::Dielectric(d) => d.scatter(r_in, rec, rng),
            Material::DiffuseLight(_) => None,
        }
    }
}

} // verus!
