//! Parametric rays: origin, direction and a shutter time for motion blur.

use vstd::prelude::*;
use crate::fixed::in_fp;
use crate::vec3::{Vec3, V3, v_in_fp, vadd, vscale};

verus! {

/// The mathematical value of a ray.
pub struct RayV {
    pub origin: V3,
    pub dir: V3,
    pub time: int,
}

/// All stored scalars of the ray in range.
pub open spec fn ray_in_fp(r: RayV) -> bool {
    v_in_fp(r.origin) && v_in_fp(r.dir) && in_fp(r.time)
}

/// The point the ray reaches at parameter `t`.
pub open spec fn ray_at(r: RayV, t: int) -> V3 {
    vadd(r.origin, vscale(r.dir, t))
}

#[derive(Clone, Copy)]
pub struct Ray {
    pub origin: Vec3,
    pub dir: Vec3,
    pub time: i64,
}

impl View for Ray {
    type V = RayV;

    open spec fn view(&self) -> RayV {
        RayV { origin: self.origin@, dir: self.dir@, time: self.time as int }
    }
}

impl Ray {
    pub fn new(origin: &Vec3, dir: &Vec3, time: i64) -> (r: Ray)
        ensures
            r@ == (RayV { origin: origin@, dir: dir@, time: time as int }),
    {
        Ray { origin: *origin, dir: *dir, time }
    }

    pub fn origin(&self) -> (r: &Vec3)
        ensures
            r@ == self@.origin,
    {
        &self.origin
    }

    pub fn dir(&self) -> (r: &Vec3)
        ensures
            r@ == self@.dir,
    {
        &self.dir
    }

    pub fn time(&self) -> (r: i64)
        ensures
            r as int == self@.time,
    {
        self.time
    }

    /// `origin + t * dir`.
    pub fn at(&self, t: i64) -> (r: Vec3)
        ensures
            r@ == ray_at(self@, t as int),
            v_in_fp(r@),
    {
        self.origin.add(&self.dir.scale(t))
    }
}

} // verus!
