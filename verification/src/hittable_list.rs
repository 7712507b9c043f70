//! The scene aggregate: a flat list of primitives scanned linearly,
//! keeping the nearest hit found so far.

use vstd::prelude::*;
use crate::vec3::{vdot, vlen2};
use crate::ray::{Ray, RayV};
use crate::interval::{Interval, IntervalV, interval_surrounds};
use crate::hittable::{Hit, HitV, Hittable, opt_hit_view};
use crate::sphere::{
    Sphere, SphereV, sphere_hit_spec, lemma_sphere_hit_surrounds, lemma_sphere_hit_shrink,
};

verus! {

/// Nearest hit over a list of spheres: each element is queried with the
/// upper bound shrunk to the closest hit among the elements before it, so
/// a later element can only replace the current best with a strictly
/// nearer one.
pub open spec fn list_hit_spec(objs: Seq<SphereV>, ray: RayV, itv: IntervalV) -> Option<HitV>
    decreases objs.len(),
{
    if objs.len() == 0 {
        None
    } else {
        let prev = list_hit_spec(objs.drop_last(), ray, itv);
        let bound = match prev {
            Some(h) => h.t,
            None => itv.max,
        };
        match sphere_hit_spec(objs.last(), ray, IntervalV { min: itv.min, max: bound }) {
            Some(h) => Some(h),
            None => prev,
        }
    }
}

/// The scene: every primitive it owns, in insertion order.
#[derive(Debug)]
pub struct HittableList {
    pub objects: Vec<Sphere>,
}

impl View for HittableList {
    type V = Seq<SphereV>;

    open spec fn view(&self) -> Seq<SphereV> {
        self.objects@.map_values(|s: Sphere| s@)
    }
}

impl HittableList {
    pub fn new() -> (r: HittableList)
        ensures
            r@.len() == 0,
    {
        HittableList { objects: Vec::new() }
    }

    pub fn clear(&mut self)
        ensures
            final(self)@.len() == 0,
    {
        Vec::clear(&mut self.objects)
    }

    pub fn push(&mut self, obj: Sphere)
        ensures
            final(self)@ == old(self)@.push(obj@),
    {
        self.objects.push(obj);
        proof {
            assert(final(self)@ =~= old(self)@.push(obj@));
        }
    }

}

impl Hittable for HittableList {
    open spec fn hit_spec(&self, ray: RayV, itv: IntervalV) -> Option<HitV> {
        list_hit_spec(self@, ray, itv)
    }

    /// The globally nearest valid hit over all primitives, scanning with a
    /// shrinking upper bound.
    fn hit(&self, ray: &Ray, interval: &Interval) -> (r: Option<Hit>) {
        let mut closest_so_far: i64 = interval.max;
        let mut hit_anything: Option<Hit> = None;
        let n = self.objects.len();
        let mut idx: usize = 0;
        while idx < n
            invariant
                n == self.objects.len(),
                idx <= n,
                opt_hit_view(hit_anything) == list_hit_spec(
                    self@.take(idx as int),
                    ray@,
                    interval@,
                ),
                closest_so_far as int == match opt_hit_view(hit_anything) {
                    Some(h) => h.t,
                    None => interval@.max,
                },
                hit_anything is Some ==> vlen2(ray@.dir) >= 1,
                hit_anything matches Some(h) ==> vdot(ray@.dir, h@.normal) <= 0,
            decreases n - idx,
        {
            let o = &self.objects[idx];
            let shrunk = Interval::new(interval.min, closest_so_far);
            let res = o.hit(ray, &shrunk);
            proof {
                assert(self@.take(idx as int + 1).drop_last() =~= self@.take(idx as int));
                assert(self@.take(idx as int + 1).last() == self@[idx as int]);
            }
            if let Some(h) = res {
                closest_so_far = h.t;
                hit_anything = Some(h);
            }
            idx += 1;
        }
        proof {
            assert(self@.take(n as int) =~= self@);
        }
        hit_anything
    }
}

/// A hit reported by the aggregate lies strictly inside the query
/// interval.
pub proof fn lemma_list_hit_in_interval(objs: Seq<SphereV>, ray: RayV, itv: IntervalV)
    ensures
        list_hit_spec(objs, ray, itv) matches Some(h) ==> interval_surrounds(itv, h.t),
    decreases objs.len(),
{
    if objs.len() > 0 {
        lemma_list_hit_in_interval(objs.drop_last(), ray, itv);
        let prev = list_hit_spec(objs.drop_last(), ray, itv);
        let bound = match prev {
            Some(h) => h.t,
            None => itv.max,
        };
        lemma_sphere_hit_surrounds(objs.last(), ray, IntervalV { min: itv.min, max: bound });
    }
}

/// The aggregate never reports a farther hit than any individual
/// primitive whose own hit lies within the query interval; and if some
/// primitive hits within the interval, the aggregate reports a hit.
pub proof fn lemma_aggregate_nearest(objs: Seq<SphereV>, ray: RayV, itv: IntervalV, i: int)
    requires
        0 <= i < objs.len(),
    ensures
        match (list_hit_spec(objs, ray, itv), sphere_hit_spec(objs[i], ray, itv)) {
            (Some(h), Some(hi)) => h.t <= hi.t,
            (None, Some(hi)) => false,
            _ => true,
        },
    decreases objs.len(),
{
    let prev = list_hit_spec(objs.drop_last(), ray, itv);
    let bound = match prev {
        Some(h) => h.t,
        None => itv.max,
    };
    let shr = IntervalV { min: itv.min, max: bound };
    lemma_list_hit_in_interval(objs.drop_last(), ray, itv);
    lemma_sphere_hit_surrounds(objs.last(), ray, shr);
    if i == objs.len() - 1 {
        lemma_sphere_hit_surrounds(objs[i], ray, itv);
        lemma_sphere_hit_shrink(objs.last(), ray, itv, bound);
    } else {
        assert(objs.drop_last()[i] == objs[i]);
        lemma_aggregate_nearest(objs.drop_last(), ray, itv, i);
        lemma_sphere_hit_surrounds(objs.last(), ray, itv);
    }
}

} // verus!
