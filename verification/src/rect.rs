//! Axis-aligned rectangles in the three coordinate planes, and the
//! axis-aligned box composed of six of them.

use vstd::prelude::*;
use crate::fixed::{in_fp, fp_sub, fp_div, sub_fp, div_fp};
use crate::vec3::{Vec3, V3};
use crate::ray::{Ray, RayV, ray_at, ray_in_fp};
use crate::hit::{HitRecord, HR, is_front_face, oriented_normal};

verus! {

/// The coordinate plane a rectangle lies in, named by its two free axes.
#[derive(Clone, Copy, PartialEq, Eq, Structural, Debug)]
pub enum Plane {
    Xy,
    Xz,
    Yz,
}

/// An axis-aligned rectangle: free coordinates in `[a0, a1] x [b0, b1]`,
/// fixed coordinate `k`, and a material handle.
pub struct Rect {
    pub plane: Plane,
    pub a0: i64,
    pub a1: i64,
    pub b0: i64,
    pub b1: i64,
    pub k: i64,
    pub material: usize,
}

/// The mathematical value of a rectangle.
pub struct RectV {
    pub plane: Plane,
    pub a0: int,
    pub a1: int,
    pub b0: int,
    pub b1: int,
    pub k: int,
    pub mat: int,
}

impl View for Rect {
    type V = RectV;

    open spec fn view(&self) -> RectV {
        RectV {
            plane: self.plane,
            a0: self.a0 as int,
            a1: self.a1 as int,
            b0: self.b0 as int,
            b1: self.b1 as int,
            k: self.k as int,
            mat: self.material as int,
        }
    }
}

pub open spec fn rect_in_fp(rc: RectV) -> bool {
    in_fp(rc.a0) && in_fp(rc.a1) && in_fp(rc.b0) && in_fp(rc.b1) && in_fp(rc.k)
}

/// The component of a vector along the fixed axis of the plane.
pub open spec fn fixed_comp(plane: Plane, v: V3) -> int {
    match plane {
        Plane::Xy => v.z,
        Plane::Xz => v.y,
        Plane::Yz => v.x,
    }
}

/// The two components of a vector along the free axes of the plane.
pub open spec fn free_a(plane: Plane, v: V3) -> int {
    match plane {
        Plane::Xy => v.x,
        Plane::Xz => v.x,
        Plane::Yz => v.y,
    }
}

pub open spec fn free_b(plane: Plane, v: V3) -> int {
    match plane {
        Plane::Xy => v.y,
        Plane::Xz => v.z,
        Plane::Yz => v.z,
    }
}

/// The outward normal of the plane: the unit vector of its fixed axis.
pub open spec fn plane_normal(plane: Plane) -> V3 {
    match plane {
        Plane::Xy => V3 { x: 0, y: 0, z: crate::fixed::FP_ONE as int },
        Plane::Xz => V3 { x: 0, y: crate::fixed::FP_ONE as int, z: 0 },
        Plane::Yz => V3 { x: crate::fixed::FP_ONE as int, y: 0, z: 0 },
    }
}

/// The parameter at which the ray crosses the rectangle's plane.
pub open spec fn rect_t(rc: RectV, r: RayV) -> int {
    fp_div(fp_sub(rc.k, fixed_comp(rc.plane, r.origin)), fixed_comp(rc.plane, r.dir))
}

/// `t` is an intersection parameter of the ray with the rectangle: the ray
/// is not parallel to the plane, `t` is the plane crossing, and the crossing
/// point lies inside the rectangle's bounds.
pub open spec fn rect_hits_at(rc: RectV, r: RayV, t: int) -> bool {
    let p = ray_at(r, t);
    &&& fixed_comp(rc.plane, r.dir) != 0
    &&& t == rect_t(rc, r)
    &&& rc.a0 <= free_a(rc.plane, p) <= rc.a1
    &&& rc.b0 <= free_b(rc.plane, p) <= rc.b1
}

/// The record reported for a rectangle hit at parameter `t`.
pub open spec fn rect_record(rc: RectV, r: RayV, t: int) -> HR {
    let p = ray_at(r, t);
    let outward = plane_normal(rc.plane);
    HR {
        p,
        normal: oriented_normal(r.dir, outward),
        t,
        u: fp_div(fp_sub(free_a(rc.plane, p), rc.a0), fp_sub(rc.a1, rc.a0)),
        v: fp_div(fp_sub(free_b(rc.plane, p), rc.b0), fp_sub(rc.b1, rc.b0)),
        front_face: is_front_face(r.dir, outward),
        mat: rc.mat,
    }
}

/// The full intersection result of a rectangle over an open window.
pub open spec fn rect_hit(rc: RectV, r: RayV, t_min: int, t_max: int) -> Option<HR> {
    if fixed_comp(rc.plane, r.dir) == 0 {
        None
    } else {
        let t = rect_t(rc, r);
        if !(t_min < t && t < t_max) {
            None
        } else {
            let p = ray_at(r, t);
            if rc.a0 <= free_a(rc.plane, p) <= rc.a1 && rc.b0 <= free_b(rc.plane, p) <= rc.b1 {
                Some(rect_record(rc, r, t))
            } else {
                None
            }
        }
    }
}

impl Rect {
    /// A rectangle of the x-y plane at `z = k`.
    pub fn new_xy(x0: i64, x1: i64, y0: i64, y1: i64, k: i64, material: usize) -> (rc: Rect)
        ensures
            rc@ == (RectV {
                plane: Plane::Xy,
                a0: x0 as int,
                a1: x1 as int,
                b0: y0 as int,
                b1: y1 as int,
                k: k as int,
                mat: material as int,
            }),
    {
        Rect { plane: Plane::Xy, a0: x0, a1: x1, b0: y0, b1: y1, k, material }
    }

    /// A rectangle of the x-z plane at `y = k`.
    pub fn new_xz(x0: i64, x1: i64, z0: i64, z1: i64, k: i64, material: usize) -> (rc: Rect)
        ensures
            rc@ == (RectV {
                plane: Plane::Xz,
                a0: x0 as int,
                a1: x1 as int,
                b0: z0 as int,
                b1: z1 as int,
                k: k as int,
                mat: material as int,
            }),
    {
        Rect { plane: Plane::Xz, a0: x0, a1: x1, b0: z0, b1: z1, k, material }
    }

    /// A rectangle of the y-z plane at `x = k`.
    pub fn new_yz(y0: i64, y1: i64, z0: i64, z1: i64, k: i64, material: usize) -> (rc: Rect)
        ensures
            rc@ == (RectV {
                plane: Plane::Yz,
                a0: y0 as int,
                a1: y1 as int,
                b0: z0 as int,
                b1: z1 as int,
                k: k as int,
                mat: material as int,
            }),
    {
        Rect { plane: Plane::Yz, a0: y0, a1: y1, b0: z0, b1: z1, k, material }
    }

    /// The intersection of the ray with the rectangle's plane, if it lies in
    /// the open window and inside the bounds.
    pub fn hit(&self, r: &Ray, t_min: i64, t_max: i64) -> (res: Option<HitRecord>)
        requires
            ray_in_fp(r@),
            rect_in_fp(self@),
        ensures
            res matches Some(rec) ==> rect_hit(self@, r@, t_min as int, t_max as int) == Some(rec@)
                && t_min < rec.t < t_max && rec@.mat == self@.mat && crate::hit::hr_in_fp(rec@)
                && rect_hits_at(
                self@,
                r@,
                rec@.t,
            ) && (forall|t: int|
                rect_hits_at(self@, r@, t) && t_min < t < t_max ==> rec@.t <= t),
            res is None ==> rect_hit(self@, r@, t_min as int, t_max as int) is None && (forall|
                t: int,
            |
                !(rect_hits_at(self@, r@, t) && t_min < t < t_max)),
    {
        let dk = match self.plane {
            Plane::Xy => r.dir().z,
            Plane::Xz => r.dir().y,
            Plane::Yz => r.dir().x,
        };
        if dk == 0 {
            return None;
        }
        let ok = match self.plane {
            Plane::Xy => r.origin().z,
            Plane::Xz => r.origin().y,
            Plane::Yz => r.origin().x,
        };
        let t = div_fp(sub_fp(self.k, ok), dk);
        if !(t_min < t && t < t_max) {
            return None;
        }
        let p = r.at(t);
        let pa = match self.plane {
            Plane::Xy => p.x,
            Plane::Xz => p.x,
            Plane::Yz => p.y,
        };
        let pb = match self.plane {
            Plane::Xy => p.y,
            Plane::Xz => p.z,
            Plane::Yz => p.z,
        };
        if !(self.a0 <= pa && pa <= self.a1 && self.b0 <= pb && pb <= self.b1) {
            return None;
        }
        let da = sub_fp(self.a1, self.a0);
        let u = if da == 0 {
            0
        } else {
            div_fp(sub_fp(pa, self.a0), da)
        };
        let db = sub_fp(self.b1, self.b0);
        let v = if db == 0 {
            0
        } else {
            div_fp(sub_fp(pb, self.b0), db)
        };
        let outward = match self.plane {
            Plane::Xy => Vec3 { x: 0, y: 0, z: crate::fixed::FP_ONE },
            Plane::Xz => Vec3 { x: 0, y: crate::fixed::FP_ONE, z: 0 },
            Plane::Yz => Vec3 { x: crate::fixed::FP_ONE, y: 0, z: 0 },
        };
        let d = r.dir().dot(&outward);
        let ff = d < 0;
        let normal = if ff {
            outward
        } else {
            outward.neg()
        };
        Some(HitRecord { p, normal, t, u, v, front_face: ff, mat: self.material })
    }
}

/// The mathematical values of a vector of rectangles.
pub open spec fn rect_views(faces: Seq<Rect>) -> Seq<RectV> {
    faces.map_values(|rc: Rect| rc@)
}

/// Folds the rectangles of a sequence from index `i`, keeping the nearest
/// hit found so far and shrinking the window to it, as the executable loop
/// does.
pub open spec fn rects_fold(
    faces: Seq<RectV>,
    i: int,
    r: RayV,
    t_min: int,
    cur_max: int,
    best: Option<HR>,
) -> Option<HR>
    decreases faces.len() - i,
{
    if i < 0 || i >= faces.len() {
        best
    } else {
        match rect_hit(faces[i], r, t_min, cur_max) {
            Some(h) => rects_fold(faces, i + 1, r, t_min, h.t, Some(h)),
            None => rects_fold(faces, i + 1, r, t_min, cur_max, best),
        }
    }
}

/// An axis-aligned box: the six rectangle faces spanned by two opposite
/// corners. Intersection is the nearest hit among the faces.
pub struct AxisBox {
    pub faces: Vec<Rect>,
}

/// The six faces of the box with corners `p0`, `p1`.
pub open spec fn box_faces(p0: V3, p1: V3, mat: int) -> Seq<RectV> {
    seq![
        RectV { plane: Plane::Xy, a0: p0.x, a1: p1.x, b0: p0.y, b1: p1.y, k: p1.z, mat },
        RectV { plane: Plane::Xy, a0: p0.x, a1: p1.x, b0: p0.y, b1: p1.y, k: p0.z, mat },
        RectV { plane: Plane::Xz, a0: p0.x, a1: p1.x, b0: p0.z, b1: p1.z, k: p1.y, mat },
        RectV { plane: Plane::Xz, a0: p0.x, a1: p1.x, b0: p0.z, b1: p1.z, k: p0.y, mat },
        RectV { plane: Plane::Yz, a0: p0.y, a1: p1.y, b0: p0.z, b1: p1.z, k: p1.x, mat },
        RectV { plane: Plane::Yz, a0: p0.y, a1: p1.y, b0: p0.z, b1: p1.z, k: p0.x, mat },
    ]
}

impl View for AxisBox {
    type V = Seq<RectV>;

    open spec fn view(&self) -> Seq<RectV> {
        rect_views(self.faces@)
    }
}

pub open spec fn axis_box_in_fp(faces: Seq<RectV>) -> bool {
    forall|i: int| 0 <= i < faces.len() ==> rect_in_fp(#[trigger] faces[i])
}

impl AxisBox {
    /// The box spanned by two opposite corners.
    pub fn new(p0: &Vec3, p1: &Vec3, material: usize) -> (b: AxisBox)
        ensures
            b@ == box_faces(p0@, p1@, material as int),
    {
        let mut faces: Vec<Rect> = Vec::new();
        faces.push(Rect::new_xy(p0.x, p1.x, p0.y, p1.y, p1.z, material));
        faces.push(Rect::new_xy(p0.x, p1.x, p0.y, p1.y, p0.z, material));
        faces.push(Rect::new_xz(p0.x, p1.x, p0.z, p1.z, p1.y, material));
        faces.push(Rect::new_xz(p0.x, p1.x, p0.z, p1.z, p0.y, material));
        faces.push(Rect::new_yz(p0.y, p1.y, p0.z, p1.z, p1.x, material));
        faces.push(Rect::new_yz(p0.y, p1.y, p0.z, p1.z, p0.x, material));
        let b = AxisBox { faces };
        proof {
            assert(b@ =~= box_faces(p0@, p1@, material as int));
        }
        b
    }

    /// The nearest hit among the six faces in the open window.
    pub fn hit(&self, r: &Ray, t_min: i64, t_max: i64) -> (res: Option<HitRecord>)
        requires
            ray_in_fp(r@),
            axis_box_in_fp(self@),
        ensures
            match res {
                Some(rec) => rects_fold(self@, 0, r@, t_min as int, t_max as int, None) == Some(
                    rec@,
                ) && t_min < rec.t < t_max && crate::hit::hr_in_fp(rec@) && (exists|f: int|
                    0 <= f < self@.len() && #[trigger] rect_hits_at(self@[f], r@, rec@.t)
                        && rec@.mat == self@[f].mat) && (forall|f: int, t: int|
                    0 <= f < self@.len() && #[trigger] rect_hits_at(self@[f], r@, t) && t_min < t
                        < t_max ==> rec@.t <= t),
                None => rects_fold(self@, 0, r@, t_min as int, t_max as int, None) is None && (
                forall|f: int, t: int|
                    0 <= f < self@.len() ==> !(#[trigger] rect_hits_at(self@[f], r@, t) && t_min
                        < t < t_max)),
            },
    {
        rects_hit(&self.faces, r, t_min, t_max)
    }
}

/// The nearest hit of a slice of rectangles: the executable fold.
pub fn rects_hit(faces: &Vec<Rect>, r: &Ray, t_min: i64, t_max: i64) -> (res: Option<HitRecord>)
    requires
        ray_in_fp(r@),
        axis_box_in_fp(rect_views(faces@)),
    ensures
        match res {
            Some(rec) => rects_fold(
                rect_views(faces@),
                0,
                r@,
                t_min as int,
                t_max as int,
                None,
            ) == Some(rec@) && t_min < rec.t < t_max && crate::hit::hr_in_fp(rec@) && (exists|
                f: int,
            |
                0 <= f < faces@.len() && #[trigger] rect_hits_at(
                    rect_views(faces@)[f],
                    r@,
                    rec@.t,
                ) && rec@.mat == rect_views(faces@)[f].mat) && (forall|
                f: int,
                t: int,
            |
                0 <= f < faces@.len() && #[trigger] rect_hits_at(
                    rect_views(faces@)[f],
                    r@,
                    t,
                ) && t_min < t < t_max ==> rec@.t <= t),
            None => rects_fold(
                rect_views(faces@),
                0,
                r@,
                t_min as int,
                t_max as int,
                None,
            ) is None && (forall|f: int, t: int|
                0 <= f < faces@.len() ==> !(#[trigger] rect_hits_at(
                    rect_views(faces@)[f],
                    r@,
                    t,
                ) && t_min < t < t_max)),
        },
{
    let ghost fv = rect_views(faces@);
    let mut best: Option<HitRecord> = None;
    let mut closest: i64 = t_max;
    let n = faces.len();
    let mut i: usize = 0;
    while i < n
        invariant
            n == faces.len(),
            0 <= i <= n,
            fv == rect_views(faces@),
            ray_in_fp(r@),
            axis_box_in_fp(fv),
            rects_fold(fv, 0, r@, t_min as int, t_max as int, None) == rects_fold(
                fv,
                i as int,
                r@,
                t_min as int,
                closest as int,
                match best {
                    Some(b) => Some(b@),
                    None => None,
                },
            ),
            best matches Some(b) ==> t_min < b.t < t_max && closest == b.t
                && crate::hit::hr_in_fp(b@) && (exists|f: int|
                0 <= f < i && #[trigger] rect_hits_at(fv[f], r@, b@.t) && b@.mat == fv[f].mat) && (
            forall|f: int, t: int|
                0 <= f < i && #[trigger] rect_hits_at(fv[f], r@, t) && t_min < t < t_max
                    ==> b@.t <= t),
            best is None ==> closest == t_max && (forall|f: int, t: int|
                0 <= f < i ==> !(#[trigger] rect_hits_at(fv[f], r@, t) && t_min < t < t_max)),
        decreases n - i,
    {
        let face = &faces[i];
        proof {
            assert(fv[i as int] == face@);
        }
        match face.hit(r, t_min, closest) {
            Some(rec) => {
                proof {
                    assert(t_min < rec.t < closest);
                }
                closest = rec.t;
                best = Some(rec);
            },
            None => {},
        }
        i = i + 1;
    }
    best
}

} // verus!
