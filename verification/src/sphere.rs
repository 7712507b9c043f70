//! The sphere primitive and its ray-intersection search.

use vstd::prelude::*;
use crate::fx::{
    fxs_add, fxs_sub, fxs_mul, fxs_div, fxs_neg, fxs_sqrt, fx_add, fx_sub, fx_mul, fx_div, fx_neg,
    fx_sqrt, lemma_fxs_div_mono,
};
use crate::vec3::{Vec3, V3, vsub, vdiv, vdot, vlen2, lemma_vlen2_nonneg};
use crate::ray::{Ray, RayV, ray_at};
use crate::interval::{Interval, IntervalV, interval_surrounds};
use crate::hittable::{Hit, HitV, Hittable, face_normal, opt_hit_view, lemma_face_normal_opposes};
use crate::material::{Material, MaterialV};

verus! {

/// Mathematical model of a sphere with its surface material.
pub struct SphereV {
    pub center: V3,
    pub radius: int,
    pub material: MaterialV,
}

/// The hit record for a sphere struck at parameter `t`: hit point, outward
/// normal scaled to unit length by the radius, and front-face correction.
pub open spec fn sphere_hit_record(s: SphereV, ray: RayV, t: int) -> HitV
    recommends
        s.radius != 0,
{
    let p = ray_at(ray, t);
    let outward = vdiv(vsub(p, s.center), s.radius);
    let face = face_normal(ray, outward);
    HitV { p, normal: face.1, t, material: s.material, front_face: face.0 }
}

/// The two candidate roots of the ray-sphere quadratic, by the half-b
/// formulation. The smaller root is preferred; a root counts only if the
/// interval strictly surrounds it. Rays whose direction is too short to
/// register at this scale hit nothing.
pub open spec fn sphere_hit_spec(s: SphereV, ray: RayV, itv: IntervalV) -> Option<HitV>
    recommends
        s.radius > 0,
{
    let oc = vsub(ray.orig, s.center);
    let a = vlen2(ray.dir);
    let half_b = vdot(oc, ray.dir);
    let c = fxs_sub(vlen2(oc), fxs_mul(s.radius, s.radius));
    let discriminant = fxs_sub(fxs_mul(half_b, half_b), fxs_mul(a, c));
    if discriminant < 0 || a <= 0 {
        None
    } else {
        let sqrtd = fxs_sqrt(discriminant);
        let root1 = fxs_div(fxs_sub(fxs_neg(half_b), sqrtd), a);
        let root2 = fxs_div(fxs_add(fxs_neg(half_b), sqrtd), a);
        if interval_surrounds(itv, root1) {
            Some(sphere_hit_record(s, ray, root1))
        } else if interval_surrounds(itv, root2) {
            Some(sphere_hit_record(s, ray, root2))
        } else {
            None
        }
    }
}

#[derive(Clone, Copy, Debug)]
pub struct Sphere {
    center: Vec3,
    radius: i64,
    material: Material,
}

impl View for Sphere {
    type V = SphereV;

    closed spec fn view(&self) -> SphereV {
        SphereV { center: self.center@, radius: self.radius as int, material: self.material@ }
    }
}

impl Sphere {
    #[verifier::type_invariant]
    spec fn wf(self) -> bool {
        self.radius > 0
    }

    /// A non-positive radius is a caller error.
    pub fn new(center: Vec3, radius: i64, material: Material) -> (r: Sphere)
        requires
            radius > 0,
        ensures
            r@ == (SphereV { center: center@, radius: radius as int, material: material@ }),
    {
        Sphere { center, radius, material }
    }

}

impl Hittable for Sphere {
    open spec fn hit_spec(&self, ray: RayV, itv: IntervalV) -> Option<HitV> {
        sphere_hit_spec(self@, ray, itv)
    }

    fn hit(&self, r: &Ray, ray_t: &Interval) -> (res: Option<Hit>) {
        proof {
            use_type_invariant(*self);
            lemma_vlen2_nonneg(r@.dir);
        }
        let oc = Vec3::sub(r.origin(), self.center);
        let a = r.direction().length_squared();
        let half_b = Vec3::dot(oc, r.direction());
        let c = fx_sub(oc.length_squared(), fx_mul(self.radius, self.radius));
        let discriminant = fx_sub(fx_mul(half_b, half_b), fx_mul(a, c));
        if discriminant < 0 || a <= 0 {
            return None;
        }
        let sqrtd = fx_sqrt(discriminant);
        let neg_hb = fx_neg(half_b);
        let mut root = fx_div(fx_sub(neg_hb, sqrtd), a);
        if !ray_t.surrounds(root) {
            root = fx_div(fx_add(neg_hb, sqrtd), a);
            if !ray_t.surrounds(root) {
                return None;
            }
        }
        let t = root;
        let p = r.at(t);
        let outward_normal = Vec3::sub(p, self.center).div(self.radius);
        let mut hit = Hit {
            p,
            normal: outward_normal,
            t,
            material: self.material,
            front_face: false,
        };
        hit.set_face_normal(r, outward_normal);
        proof {
            use_type_invariant(outward_normal);
            lemma_face_normal_opposes(r@, outward_normal@);
        }
        Some(hit)
    }
}

/// A reported sphere hit lies strictly inside the query interval.
pub proof fn lemma_sphere_hit_surrounds(s: SphereV, ray: RayV, itv: IntervalV)
    ensures
        sphere_hit_spec(s, ray, itv) matches Some(h) ==> interval_surrounds(itv, h.t),
{
}

/// Shrinking the upper end of the query interval can only keep the same
/// hit, move to a strictly nearer root, or lose the hit because it lies at
/// or beyond the new bound. This is what lets an aggregate scan keep only
/// its closest hit so far.
pub proof fn lemma_sphere_hit_shrink(s: SphereV, ray: RayV, itv: IntervalV, bound: int)
    requires
        bound <= itv.max,
    ensures
        match (sphere_hit_spec(s, ray, itv), sphere_hit_spec(
            s,
            ray,
            IntervalV { min: itv.min, max: bound },
        )) {
            (Some(hf), Some(hs)) => hs.t <= hf.t,
            (Some(hf), None) => bound <= hf.t,
            (None, Some(hs)) => false,
            (None, None) => true,
        },
{
    let a = vlen2(ray.dir);
    let oc = vsub(ray.orig, s.center);
    let half_b = vdot(oc, ray.dir);
    let c = fxs_sub(vlen2(oc), fxs_mul(s.radius, s.radius));
    let discriminant = fxs_sub(fxs_mul(half_b, half_b), fxs_mul(a, c));
    if discriminant >= 0 && a > 0 {
        let sqrtd = fxs_sqrt(discriminant);
        lemma_fxs_div_mono(
            fxs_sub(fxs_neg(half_b), sqrtd),
            fxs_add(fxs_neg(half_b), sqrtd),
            a,
        );
    }
}

} // verus!
