//! The intersection protocol: hit records, the primitive variants and the
//! composite list that reports the globally nearest hit.

use vstd::prelude::*;
use crate::fixed::in_fp;
use crate::vec3::{Vec3, V3, v_in_fp, vdot, vneg};
use crate::ray::{Ray, RayV, ray_in_fp};
use crate::sphere::{
    Sphere, MovingSphere, sphere_in_fp, msphere_in_fp, sphere_hit, sphere_hits_at, msphere_center,
};
use crate::rect::{Rect, AxisBox, rect_in_fp, axis_box_in_fp, rect_hit, rect_hits_at, rects_fold};
use crate::material::{Material, material_wf};

verus! {

/// The mathematical value of a hit record.
pub struct HR {
    pub p: V3,
    pub normal: V3,
    pub t: int,
    pub u: int,
    pub v: int,
    pub front_face: bool,
    pub mat: int,
}

/// Output of one intersection query: the hit point, the normal oriented
/// against the incoming ray, the ray parameter, texture coordinates and
/// the handle of the material at the surface.
#[derive(Clone, Copy)]
pub struct HitRecord {
    pub p: Vec3,
    pub normal: Vec3,
    pub t: i64,
    pub u: i64,
    pub v: i64,
    pub front_face: bool,
    pub mat: usize,
}

impl View for HitRecord {
    type V = HR;

    open spec fn view(&self) -> HR {
        HR {
            p: self.p@,
            normal: self.normal@,
            t: self.t as int,
            u: self.u as int,
            v: self.v as int,
            front_face: self.front_face,
            mat: self.mat as int,
        }
    }
}

/// Whether the ray meets the surface from the front: its direction points
/// against the outward normal.
pub open spec fn is_front_face(dir: V3, outward: V3) -> bool {
    vdot(dir, outward) < 0
}

/// The stored normal: the outward normal flipped against the ray.
pub open spec fn oriented_normal(dir: V3, outward: V3) -> V3 {
    if is_front_face(dir, outward) {
        outward
    } else {
        vneg(outward)
    }
}

/// All scalars of the record in range.
pub open spec fn hr_in_fp(h: HR) -> bool {
    v_in_fp(h.p) && v_in_fp(h.normal) && in_fp(h.t) && in_fp(h.u) && in_fp(h.v)
}

/// A primitive of the scene.
pub enum Hittable {
    Sphere(Sphere),
    MovingSphere(MovingSphere),
    Rect(Rect),
    AxisBox(AxisBox),
}

pub open spec fn object_in_fp(o: Hittable) -> bool {
    match o {
        Hittable::Sphere(s) => sphere_in_fp(s@),
        Hittable::MovingSphere(m) => msphere_in_fp(m@),
        Hittable::Rect(rc) => rect_in_fp(rc@),
        Hittable::AxisBox(b) => axis_box_in_fp(b@),
    }
}

/// Every material handle of the primitive lies below `n`.
pub open spec fn object_mat_ok(o: Hittable, n: int) -> bool {
    match o {
        Hittable::Sphere(s) => 0 <= s@.mat < n,
        Hittable::MovingSphere(m) => 0 <= m@.mat < n,
        Hittable::Rect(rc) => 0 <= rc@.mat < n,
        Hittable::AxisBox(b) => forall|f: int| 0 <= f < b@.len() ==> 0 <= (#[trigger] b@[f]).mat < n,
    }
}

/// The intersection result of one primitive over an open window.
pub open spec fn object_hit(o: Hittable, r: RayV, t_min: int, t_max: int) -> Option<HR> {
    match o {
        Hittable::Sphere(s) => sphere_hit(s@.center, s@.radius, s@.mat, r, t_min, t_max),
        Hittable::MovingSphere(m) => sphere_hit(
            msphere_center(m@, r.time),
            m@.radius,
            m@.mat,
            r,
            t_min,
            t_max,
        ),
        Hittable::Rect(rc) => rect_hit(rc@, r, t_min, t_max),
        Hittable::AxisBox(b) => rects_fold(b@, 0, r, t_min, t_max, None),
    }
}

/// `t` is an intersection parameter of the ray with the primitive.
pub open spec fn object_hits_at(o: Hittable, r: RayV, t: int) -> bool {
    match o {
        Hittable::Sphere(s) => sphere_hits_at(s@.center, s@.radius, r, t),
        Hittable::MovingSphere(m) => sphere_hits_at(msphere_center(m@, r.time), m@.radius, r, t),
        Hittable::Rect(rc) => rect_hits_at(rc@, r, t),
        Hittable::AxisBox(b) => exists|f: int|
            0 <= f < b@.len() && rect_hits_at(#[trigger] b@[f], r, t),
    }
}

impl Hittable {
    /// The nearest intersection of the ray with the primitive in the open
    /// window, if any.
    pub fn hit(&self, r: &Ray, t_min: i64, t_max: i64) -> (res: Option<HitRecord>)
        requires
            ray_in_fp(r@),
            object_in_fp(*self),
        ensures
            res matches Some(rec) ==> object_hit(*self, r@, t_min as int, t_max as int) == Some(
                rec@,
            ) && t_min < rec.t < t_max && hr_in_fp(rec@) && object_hits_at(*self, r@, rec@.t) && (
            forall|t: int|
                object_hits_at(*self, r@, t) && t_min < t < t_max ==> rec@.t <= t) && (forall|
                n: int,
            |
                #[trigger] object_mat_ok(*self, n) ==> 0 <= rec@.mat < n),
            res is None ==> object_hit(*self, r@, t_min as int, t_max as int) is None && (forall|
                t: int,
            |
                !(object_hits_at(*self, r@, t) && t_min < t < t_max)),
    {
        match self {
            Hittable::Sphere(s) => s.hit(r, t_min, t_max),
            Hittable::MovingSphere(m) => m.hit(r, t_min, t_max),
            Hittable::Rect(rc) => rc.hit(r, t_min, t_max),
            Hittable::AxisBox(b) => b.hit(r, t_min, t_max),
        }
    }
}

/// The composite scene: an ordered collection of primitives, and the arena
/// of the materials their handles point into.
pub struct HittableList {
    pub objects: Vec<Hittable>,
    pub materials: Vec<Material>,
}

/// Well-formed scene: every primitive's scalars in range, every material
/// handle inside the arena, every material well formed.
pub open spec fn list_wf(l: HittableList) -> bool {
    &&& forall|i: int|
        0 <= i < l.objects@.len() ==> object_in_fp(#[trigger] l.objects@[i]) && object_mat_ok(
            l.objects@[i],
            l.materials@.len() as int,
        )
    &&& forall|m: int| 0 <= m < l.materials@.len() ==> material_wf(#[trigger] l.materials@[m])
}

/// Folds the primitives of a scene from index `i`, keeping the nearest hit
/// found so far and shrinking the window to it, as the executable loop
/// does.
pub open spec fn objects_fold(
    objs: Seq<Hittable>,
    i: int,
    r: RayV,
    t_min: int,
    cur_max: int,
    best: Option<HR>,
) -> Option<HR>
    decreases objs.len() - i,
{
    if i < 0 || i >= objs.len() {
        best
    } else {
        match object_hit(objs[i], r, t_min, cur_max) {
            Some(h) => objects_fold(objs, i + 1, r, t_min, h.t, Some(h)),
            None => objects_fold(objs, i + 1, r, t_min, cur_max, best),
        }
    }
}

impl HittableList {
    /// An empty scene.
    pub fn new() -> (l: HittableList)
        ensures
            l.objects@.len() == 0,
            l.materials@.len() == 0,
            list_wf(l),
    {
        HittableList { objects: Vec::new(), materials: Vec::new() }
    }

    /// Puts a material into the arena and hands back its handle.
    pub fn add_material(&mut self, m: Material) -> (idx: usize)
        requires
            material_wf(m),
            list_wf(*old(self)),
        ensures
            list_wf(*final(self)),
            final(self).materials@ == old(self).materials@.push(m),
            final(self).objects@ == old(self).objects@,
            idx as int == old(self).materials@.len(),
    {
        let idx = self.materials.len();
        self.materials.push(m);
        proof {
            assert forall|i: int| 0 <= i < self.objects@.len() implies object_in_fp(
                #[trigger] self.objects@[i],
            ) && object_mat_ok(self.objects@[i], self.materials@.len() as int) by {
                assert(object_mat_ok(self.objects@[i], old(self).materials@.len() as int));
                lemma_mat_ok_widen(
                    self.objects@[i],
                    old(self).materials@.len() as int,
                    self.materials@.len() as int,
                );
            }
        }
        idx
    }

    /// Adds a primitive whose material handles point into the arena.
    pub fn add(&mut self, o: Hittable)
        requires
            object_in_fp(o),
            object_mat_ok(o, old(self).materials@.len() as int),
            list_wf(*old(self)),
        ensures
            list_wf(*final(self)),
            final(self).objects@ == old(self).objects@.push(o),
            final(self).materials@ == old(self).materials@,
    {
        self.objects.push(o);
    }

    /// The globally nearest intersection among all primitives in the open
    /// window: the reported hit has the smallest parameter of any child's
    /// intersection there, whatever the insertion order.
    #[verifier::rlimit(80)]
    pub fn hit(&self, r: &Ray, t_min: i64, t_max: i64) -> (res: Option<HitRecord>)
        requires
            ray_in_fp(r@),
            list_wf(*self),
        ensures
            res matches Some(rec) ==> objects_fold(
                self.objects@,
                0,
                r@,
                t_min as int,
                t_max as int,
                None,
            ) == Some(rec@) && t_min < rec.t < t_max && hr_in_fp(rec@) && 0 <= rec.mat
                < self.materials@.len() && (exists|oi: int|
                0 <= oi < self.objects@.len() && #[trigger] object_hits_at(
                    self.objects@[oi],
                    r@,
                    rec@.t,
                )) && (forall|oi: int, t: int|
                0 <= oi < self.objects@.len() && #[trigger] object_hits_at(self.objects@[oi], r@, t)
                    && t_min < t < t_max ==> rec@.t <= t),
            res is None ==> objects_fold(
                self.objects@,
                0,
                r@,
                t_min as int,
                t_max as int,
                None,
            ) is None && (forall|oi: int, t: int|
                0 <= oi < self.objects@.len() ==> !(#[trigger] object_hits_at(
                    self.objects@[oi],
                    r@,
                    t,
                ) && t_min < t < t_max)),
    {
        let mut best: Option<HitRecord> = None;
        let mut closest: i64 = t_max;
        let n = self.objects.len();
        let mut i: usize = 0;
        while i < n
            invariant
                n == self.objects@.len(),
                0 <= i <= n,
                ray_in_fp(r@),
                list_wf(*self),
                objects_fold(self.objects@, 0, r@, t_min as int, t_max as int, None)
                    == objects_fold(
                    self.objects@,
                    i as int,
                    r@,
                    t_min as int,
                    closest as int,
                    match best {
                        Some(b) => Some(b@),
                        None => None,
                    },
                ),
                best matches Some(b) ==> t_min < b.t < t_max && closest == b.t && hr_in_fp(b@) && 0
                    <= b.mat < self.materials@.len() && (exists|oi: int|
                    0 <= oi < i && #[trigger] object_hits_at(self.objects@[oi], r@, b@.t)) && (
                forall|oi: int, t: int|
                    0 <= oi < i && #[trigger] object_hits_at(self.objects@[oi], r@, t) && t_min < t
                        < t_max ==> b@.t <= t),
                best is None ==> closest == t_max && (forall|oi: int, t: int|
                    0 <= oi < i ==> !(#[trigger] object_hits_at(self.objects@[oi], r@, t) && t_min
                        < t < t_max)),
            decreases n - i,
        {
            let obj = &self.objects[i];
            proof {
                assert(object_in_fp(self.objects@[i as int]));
                assert(object_mat_ok(self.objects@[i as int], self.materials@.len() as int));
            }
            match obj.hit(r, t_min, closest) {
                Some(rec) => {
                    closest = rec.t;
                    best = Some(rec);
                },
                None => {},
            }
            i = i + 1;
        }
        best
    }
}

/// A handle below one bound is below any larger bound.
proof fn lemma_mat_ok_widen(o: Hittable, n1: int, n2: int)
    requires
        object_mat_ok(o, n1),
        n1 <= n2,
    ensures
        object_mat_ok(o, n2),
{
}

} // verus!
