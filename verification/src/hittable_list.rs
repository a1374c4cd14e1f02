//! The scene: an ordered collection of spheres scanned for the
//! nearest intersection.

use vstd::prelude::*;
use crate::hit::HitRecord;
use crate::ray::Ray;
use crate::sphere::{Sphere, sphere_wf, spec_sphere_hit, lemma_sphere_hit_narrow,
    lemma_sphere_hit_in_interval};

verus! {

/// All surfaces of a scene, in insertion order.
#[derive(Debug)]
pub struct HittableList {
    pub objects: Vec<Sphere>,
}

impl Default for HittableList {
    /// An empty scene.
    fn default() -> (r: Self)
        ensures
            r.objects@.len() == 0,
    {
        HittableList { objects: Vec::new() }
    }
}

/// Validity of a scene: every member is a valid sphere.
pub open spec fn list_wf(l: HittableList) -> bool {
    forall|i: int| 0 <= i < l.objects@.len() ==> sphere_wf(#[trigger] l.objects@[i])
}

/// The rest of the scan from member `i` on, carrying the closest hit
/// found so far and the bound it set.
pub open spec fn spec_list_hit_from(objs: Seq<Sphere>, i: int, ray: Ray, t_min: int,
    closest: int, best: Option<HitRecord>) -> Option<HitRecord>
    decreases objs.len() - i,
{
    if i < 0 || i >= objs.len() {
        best
    } else {
        match spec_sphere_hit(objs[i], ray, t_min, closest) {
            Some(rec) => spec_list_hit_from(objs, i + 1, ray, t_min, rec.t as int, Some(rec)),
            None => spec_list_hit_from(objs, i + 1, ray, t_min, closest, best),
        }
    }
}

/// The result of the whole scan: the nearest hit among all members
/// inside `(t_min, t_max)`, the first found among equals.
pub open spec fn spec_list_hit(objs: Seq<Sphere>, ray: Ray, t_min: int, t_max: int)
    -> Option<HitRecord> {
    spec_list_hit_from(objs, 0, ray, t_min, t_max, None)
}

impl HittableList {
    /// Append a surface to the scene.
    pub fn add(&mut self, object: Sphere)
        requires
            sphere_wf(object),
        ensures
            final(self).objects@ == old(self).objects@.push(object),
    {
        self.objects.push(object);
    }

    /// Remove every surface.
    pub fn clear(&mut self)
        ensures
            final(self).objects@.len() == 0,
    {
        self.objects = Vec::new();
    }

    /// The nearest intersection among all members with a parameter
    /// strictly inside `(t_min, t_max)`: a single scan that shrinks
    /// the upper bound to the closest hit found so far.
    pub fn hit(&self, ray: &Ray, t_min: i64, t_max: i64) -> (r: Option<HitRecord>)
        requires
            list_wf(*self),
        ensures
            r == spec_list_hit(self.objects@, *ray, t_min as int, t_max as int),
            (r is None ==> forall|i: int| 0 <= i < self.objects@.len()
                ==> #[trigger] spec_sphere_hit(self.objects@[i], *ray, t_min as int, t_max as int)
                    is None),
            (r matches Some(rec) ==> (exists|i: int| 0 <= i < self.objects@.len()
                && #[trigger] spec_sphere_hit(self.objects@[i], *ray, t_min as int, t_max as int)
                    == Some(rec))),
            (r matches Some(rec) ==> forall|i: int| 0 <= i < self.objects@.len()
                ==> (#[trigger] spec_sphere_hit(self.objects@[i], *ray, t_min as int,
                    t_max as int) matches Some(h) ==> rec.t as int <= h.t as int)),
            (r matches Some(rec) ==> t_min < rec.t && rec.t < t_max),
    {
        let ghost tmin = t_min as int;
        let ghost tmax = t_max as int;
        let mut closest_so_far: i64 = t_max;
        let mut best: Option<HitRecord> = None;
        let mut idx: usize = 0;
        while idx < self.objects.len()
            invariant
                idx <= self.objects@.len(),
                list_wf(*self),
                tmin == t_min as int,
                tmax == t_max as int,
                spec_list_hit(self.objects@, *ray, tmin, tmax) == spec_list_hit_from(
                    self.objects@, idx as int, *ray, tmin, closest_so_far as int, best),
            decreases self.objects@.len() - idx,
        {
            let sphere = &self.objects[idx];
            let res = sphere.hit(ray, t_min, closest_so_far);
            match res {
                Some(hit_rec) => {
                    closest_so_far = hit_rec.t;
                    best = Some(hit_rec);
                },
                None => {},
            }
            idx = idx + 1;
        }
        proof {
            lemma_list_hit_from_props(self.objects@, 0, *ray, tmin, tmax, tmax,
                None::<HitRecord>);
        }
        best
    }
}


/// The properties of the scan, by induction over its remainder: if
/// the carried state is sound for the members already scanned, the
/// final result is the nearest full-interval hit (the scan misses iff
/// every member does, the result is some member's hit, no member hits
/// nearer, and the parameter lies strictly inside the interval).
#[verifier::rlimit(100)]
#[verifier::spinoff_prover]
proof fn lemma_list_hit_from_props(objs: Seq<Sphere>, i: int, ray: Ray, t_min: int, t_max: int,
    closest: int, best: Option<HitRecord>)
    requires
        0 <= i <= objs.len(),
        closest <= t_max,
        (best is None ==> closest == t_max && forall|j: int| 0 <= j < i
            ==> #[trigger] spec_sphere_hit(objs[j], ray, t_min, t_max) is None),
        (best matches Some(rec) ==> rec.t as int == closest
            && t_min < rec.t as int && (rec.t as int) < t_max
            && (exists|j: int| 0 <= j < i
                && #[trigger] spec_sphere_hit(objs[j], ray, t_min, t_max) == Some(rec))
            && forall|j: int| 0 <= j < i
                ==> (#[trigger] spec_sphere_hit(objs[j], ray, t_min, t_max)
                    matches Some(h) ==> rec.t as int <= h.t as int)),
    ensures
        (spec_list_hit_from(objs, i, ray, t_min, closest, best) is None
            ==> forall|j: int| 0 <= j < objs.len()
                ==> #[trigger] spec_sphere_hit(objs[j], ray, t_min, t_max) is None),
        (spec_list_hit_from(objs, i, ray, t_min, closest, best) matches Some(rec)
            ==> (exists|j: int| 0 <= j < objs.len()
                && #[trigger] spec_sphere_hit(objs[j], ray, t_min, t_max) == Some(rec))),
        (spec_list_hit_from(objs, i, ray, t_min, closest, best) matches Some(rec)
            ==> forall|j: int| 0 <= j < objs.len()
                ==> (#[trigger] spec_sphere_hit(objs[j], ray, t_min, t_max)
                    matches Some(h) ==> rec.t as int <= h.t as int)),
        (spec_list_hit_from(objs, i, ray, t_min, closest, best) matches Some(rec)
            ==> t_min < rec.t as int && (rec.t as int) < t_max),
    decreases objs.len() - i,
{
    if i < objs.len() {
        lemma_sphere_hit_narrow(objs[i], ray, t_min, t_max, closest);
        lemma_sphere_hit_in_interval(objs[i], ray, t_min, t_max);
        match spec_sphere_hit(objs[i], ray, t_min, closest) {
            Some(rec) => {
                assert(spec_sphere_hit(objs[i], ray, t_min, t_max) == Some(rec));
                lemma_sphere_hit_in_interval(objs[i], ray, t_min, closest);
                lemma_list_hit_from_props(objs, i + 1, ray, t_min, t_max, rec.t as int,
                    Some(rec));
            },
            None => {
                lemma_list_hit_from_props(objs, i + 1, ray, t_min, t_max, closest, best);
            },
        }
    }
}

} // verus!
