//! Composite collections of hittable objects.

use vstd::prelude::*;
use std::rc::Rc;
use crate::fixed::T_LIMIT;
use crate::hittable::sphere::{Sphere, sphere_bounded, sphere_hit_model};
use crate::hittable::{HitRecord, Hittable};
use crate::interval::Interval;
use crate::ray::{Ray, ray_within_scene};

verus! {

/// An ordered collection of shared, read-only handles to spheres; itself
/// hittable by nearest-hit reduction.
#[derive(Debug)]
pub struct HittableList {
    pub objects: Vec<Rc<Sphere>>,
}

/// The members as plain values, in insertion order.
pub open spec fn members(l: HittableList) -> Seq<Sphere> {
    l.objects@.map_values(|o: Rc<Sphere>| *o)
}

impl HittableList {
    /// Creates an empty list.
    pub fn new() -> (r: Self)
        ensures
            members(r).len() == 0,
    {
        let r = HittableList { objects: Vec::new() };
        proof {
            assert(members(r).len() == 0);
        }
        r
    }

    /// Appends a handle to the end of the list.
    pub fn push(&mut self, object: Rc<Sphere>)
        ensures
            members(*final(self)) == members(*old(self)).push(*object),
    {
        self.objects.push(object);
        proof {
            assert(members(*self) =~= members(*old(self)).push(*object));
        }
    }

    /// Number of members.
    pub fn len(&self) -> (r: usize)
        ensures
            r == members(*self).len(),
    {
        self.objects.len()
    }

    /// Whether the list has no members.
    pub fn is_empty(&self) -> (r: bool)
        ensures
            r == (members(*self).len() == 0),
    {
        self.objects.len() == 0
    }
}

/// The exact outcome of the nearest-hit reduction over the members in
/// order: each member is tested against the interval narrowed to the
/// closest hit so far, so a later member replaces the record only with a
/// strictly closer hit.
pub open spec fn list_hit_model(objs: Seq<Sphere>, r: Ray, ray_t: Interval) -> Option<HitRecord>
    decreases objs.len(),
{
    if objs.len() == 0 {
        None
    } else {
        let prefix = list_hit_model(objs.drop_last(), r, ray_t);
        let closest = match prefix {
            Some(h) => h.t,
            None => ray_t.max,
        };
        match sphere_hit_model(objs.last(), r, Interval { min: ray_t.min, max: closest }) {
            Some(h) => Some(h),
            None => prefix,
        }
    }
}

/// Whatever the reduction reports lies strictly inside the search interval
/// and carries a normal within one whole unit.
pub proof fn lemma_list_hit_in_interval(objs: Seq<Sphere>, r: Ray, ray_t: Interval)
    ensures
        match list_hit_model(objs, r, ray_t) {
            Some(h) => ray_t.min < h.t < ray_t.max && crate::vector3d::within(
                h.normal,
                crate::fixed::SCALE as int,
            ),
            None => true,
        },
    decreases objs.len(),
{
    if objs.len() > 0 {
        lemma_list_hit_in_interval(objs.drop_last(), r, ray_t);
        let prefix = list_hit_model(objs.drop_last(), r, ray_t);
        let closest = match prefix {
            Some(h) => h.t,
            None => ray_t.max,
        };
        crate::hittable::sphere::lemma_sphere_hit_fields(
            objs.last(),
            r,
            Interval { min: ray_t.min, max: closest },
        );
    }
}

/// On a list of one member, the reduction is exactly the member's own
/// intersection outcome.
pub proof fn lemma_list_singleton(s: Sphere, r: Ray, ray_t: Interval)
    ensures
        list_hit_model(seq![s], r, ray_t) == sphere_hit_model(s, r, ray_t),
{
    let objs = seq![s];
    assert(objs.drop_last() =~= Seq::<Sphere>::empty());
    assert(objs.drop_last().len() == 0);
    assert(list_hit_model(objs.drop_last(), r, ray_t) is None);
    assert(objs.last() == s);
    assert(Interval { min: ray_t.min, max: ray_t.max } == ray_t);
    assert(list_hit_model(objs, r, ray_t) == sphere_hit_model(s, r, ray_t));
}

/// Nearest-hit narrowing: appending a member never loses the reported hit
/// and never moves it farther away, since later members are tested only
/// below the closest parameter found so far.
pub proof fn lemma_push_never_farther(objs: Seq<Sphere>, s: Sphere, r: Ray, ray_t: Interval)
    ensures
        match (list_hit_model(objs, r, ray_t), list_hit_model(objs.push(s), r, ray_t)) {
            (Some(h0), Some(h1)) => h1.t <= h0.t,
            (Some(h0), None) => false,
            _ => true,
        },
{
    assert(objs.push(s).drop_last() =~= objs);
    assert(objs.push(s).last() == s);
    if list_hit_model(objs, r, ray_t) is Some {
        let h0 = list_hit_model(objs, r, ray_t)->Some_0;
        crate::hittable::sphere::lemma_sphere_hit_fields(
            s,
            r,
            Interval { min: ray_t.min, max: h0.t },
        );
    }
}

impl Hittable for HittableList {
    open spec fn hit_model(&self, r: Ray, ray_t: Interval) -> Option<HitRecord> {
        list_hit_model(members(*self), r, ray_t)
    }

    open spec fn scene_bounded(&self) -> bool {
        forall|i: int|
            0 <= i < members(*self).len() ==> sphere_bounded(#[trigger] members(*self)[i])
    }

    fn hit(&self, r: &Ray, ray_t: Interval, rec: &mut HitRecord) -> (b: bool) {
        let mut temp_rec = HitRecord::default();
        let mut hit_anything = false;
        let mut closest_so_far: i64 = ray_t.max;
        let ghost orig_rec: HitRecord = *rec;
        let mut i: usize = 0;
        while i < self.objects.len()
            invariant
                i <= self.objects.len(),
                self.scene_bounded(),
                ray_within_scene(*r),
                -T_LIMIT <= ray_t.min <= T_LIMIT,
                -T_LIMIT <= ray_t.max <= T_LIMIT,
                -T_LIMIT <= closest_so_far <= T_LIMIT,
                match list_hit_model(members(*self).take(i as int), *r, ray_t) {
                    Some(h) => hit_anything && temp_rec == h && *rec == h && closest_so_far == h.t,
                    None => !hit_anything && *rec == orig_rec && closest_so_far == ray_t.max,
                },
            decreases self.objects.len() - i,
        {
            let object: &Rc<Sphere> = &self.objects[i];
            let narrowed = Interval::new(ray_t.min, closest_so_far);
            proof {
                assert(sphere_bounded(members(*self)[i as int]));
            }
            if object.hit(r, narrowed, &mut temp_rec) {
                hit_anything = true;
                closest_so_far = temp_rec.t;
                *rec = temp_rec;
            }
            proof {
                let taken = members(*self).take(i as int + 1);
                assert(taken.drop_last() =~= members(*self).take(i as int));
                assert(taken.last() == members(*self)[i as int]);
                lemma_list_hit_in_interval(taken, *r, ray_t);
            }
            i = i + 1;
        }
        proof {
            assert(members(*self).take(members(*self).len() as int) =~= members(*self));
        }
        hit_anything
    }
}

} // verus!
