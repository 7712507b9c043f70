//! Hit records: where and how a ray struck a surface.

use vstd::prelude::*;
use crate::vec3::{Vec3, V3, vdot, vneg, vlen2, in_range3, lemma_vdot_neg_right};
use crate::ray::{Ray, RayV};
use crate::interval::{Interval, IntervalV};
use crate::material::{Material, MaterialV};
use crate::fx::fxs_neg;

verus! {

/// Mathematical model of a hit record.
pub struct HitV {
    pub p: V3,
    pub normal: V3,
    pub t: int,
    pub material: MaterialV,
    pub front_face: bool,
}

/// The front-face flag and outward-corrected normal for a ray striking a
/// surface whose outward geometric normal is `outward`: the stored normal
/// always opposes the incoming ray.
pub open spec fn face_normal(ray: RayV, outward: V3) -> (bool, V3) {
    if vdot(ray.dir, outward) < 0 {
        (true, outward)
    } else {
        (false, vneg(outward))
    }
}

pub open spec fn opt_hit_view(r: Option<Hit>) -> Option<HitV> {
    match r {
        Some(h) => Some(h@),
        None => None,
    }
}

/// A transient record of a ray-surface intersection. It carries the
/// governing material by value.
#[derive(Clone, Copy, Debug)]
pub struct Hit {
    pub p: Vec3,
    pub normal: Vec3,
    pub t: i64,
    pub material: Material,
    pub front_face: bool,
}

impl View for Hit {
    type V = HitV;

    open spec fn view(&self) -> HitV {
        HitV {
            p: self.p@,
            normal: self.normal@,
            t: self.t as int,
            material: self.material@,
            front_face: self.front_face,
        }
    }
}

impl Hit {
    /// Store `outward_normal` flipped, if needed, to oppose the ray.
    pub fn set_face_normal(&mut self, r: &Ray, outward_normal: Vec3)
        ensures
            final(self)@.front_face == face_normal(r@, outward_normal@).0,
            final(self)@.normal == face_normal(r@, outward_normal@).1,
            final(self)@.p == old(self)@.p,
            final(self)@.t == old(self)@.t,
            final(self)@.material == old(self)@.material,
    {
        self.front_face = Vec3::dot(r.direction(), outward_normal) < 0;
        self.normal = if self.front_face {
            outward_normal
        } else {
            outward_normal.neg()
        };
    }
}

/// The intersection capability shared by all primitives: given a ray and
/// an interval of valid distances, report the nearest hit inside it, or
/// none. Each implementer pins its answer to its own spec function.
pub trait Hittable {
    spec fn hit_spec(&self, ray: RayV, itv: IntervalV) -> Option<HitV>;

    /// The nearest valid intersection, if any. A reported hit implies the
    /// ray direction registers at this scale, and carries a normal that
    /// opposes the incoming ray.
    fn hit(&self, ray: &Ray, interval: &Interval) -> (r: Option<Hit>)
        ensures
            opt_hit_view(r) == self.hit_spec(ray@, interval@),
            r is Some ==> vlen2(ray@.dir) >= 1,
            r matches Some(h) ==> vdot(ray@.dir, h@.normal) <= 0,
    ;
}

/// The corrected normal never points with the incoming ray: its dot
/// product with the ray direction is at most zero.
pub proof fn lemma_face_normal_opposes(ray: RayV, outward: V3)
    requires
        in_range3(outward),
    ensures
        vdot(ray.dir, face_normal(ray, outward).1) <= 0,
{
    if vdot(ray.dir, outward) >= 0 {
        lemma_vdot_neg_right(ray.dir, outward);
        assert(vdot(ray.dir, vneg(outward)) == fxs_neg(vdot(ray.dir, outward)));
    }
}

} // verus!
