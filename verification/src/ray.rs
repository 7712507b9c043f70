//! Parametric rays: an origin and a (not necessarily unit) direction.

use vstd::prelude::*;
use crate::vec3::{Vec3, V3, vadd, vscale};

verus! {

/// Mathematical model of a ray.
pub struct RayV {
    pub orig: V3,
    pub dir: V3,
}

/// The point `origin + direction * t`.
pub open spec fn ray_at(r: RayV, t: int) -> V3 {
    vadd(r.orig, vscale(r.dir, t))
}

#[derive(Clone, Copy, Debug, PartialEq, Eq, Structural)]
pub struct Ray {
    u: Vec3,
    v: Vec3,
}

impl View for Ray {
    type V = RayV;

    closed spec fn view(&self) -> RayV {
        RayV { orig: self.u@, dir: self.v@ }
    }
}

impl Ray {
    pub fn new(u: Vec3, v: Vec3) -> (r: Ray)
        ensures
            r@ == (RayV { orig: u@, dir: v@ }),
    {
        Ray { u, v }
    }

    pub fn origin(self) -> (r: Vec3)
        ensures
            r@ == self@.orig,
    {
        self.u
    }

    pub fn direction(self) -> (r: Vec3)
        ensures
            r@ == self@.dir,
    {
        self.v
    }

    pub fn at(self, t: i64) -> (r: Vec3)
        ensures
            r@ == ray_at(self@, t as int),
    {
        Vec3::add(self.u, self.v.scale(t))
    }
}

} // verus!
