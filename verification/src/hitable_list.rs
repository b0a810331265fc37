//! A scene: the objects that a ray may hit, and the nearest hit among them.

use crate::double::Double;
use crate::hitable::{HitRecord, Hitable};
use crate::ray::Ray;
use crate::sphere::{lemma_sphere_narrowing, Crossing, Sphere};
use vstd::prelude::*;

verus! {

/// The objects of a scene, in the order in which they were put in.
pub struct HitableList {
    pub list: Vec<Box<dyn Hitable>>,
}

/// The upper end of the window after some objects were asked: the parameter
/// of the best hit so far, or the caller's `t_max` before any.
pub open spec fn limit_after(best: Option<HitRecord>, t_max: Double) -> Double {
    match best {
        Some(record) => record.t,
        None => t_max,
    }
}

/// The hit that stands after the first `n` objects were asked in turn, each
/// in the window that its predecessors left.
pub open spec fn closest(
    list: Seq<Box<dyn Hitable>>,
    ray: Ray,
    t_min: Double,
    t_max: Double,
    n: nat,
) -> Option<HitRecord>
    decreases n,
{
    if n == 0 {
        None
    } else {
        let before = closest(list, ray, t_min, t_max, (n - 1) as nat);
        match list[n - 1].hit_spec(ray, t_min, limit_after(before, t_max)) {
            Some(record) => Some(record),
            None => before,
        }
    }
}

impl HitableList {
    /// The scene without any object.
    pub fn new() -> (scene: HitableList)
        ensures
            scene.list@.len() == 0,
    {
        HitableList { list: Vec::new() }
    }
}

impl Hitable for HitableList {
    open spec fn hit_spec(&self, ray: Ray, t_min: Double, t_max: Double) -> Option<HitRecord> {
        closest(self.list@, ray, t_min, t_max, self.list@.len())
    }

    /// Asks every object in turn, each time only for a hit nearer than the
    /// best so far, and reports the last hit found: the nearest one.
    fn hit(&self, ray: &Ray, t_min: Double, t_max: Double, record: &mut HitRecord) -> (found: bool)
    {
        let mut temp_record = HitRecord::new();
        let mut hit_anything = false;
        let mut closest_so_far: Double = t_max;
        let mut i: usize = 0;
        while i < self.list.len()
            invariant
                0 <= i <= self.list@.len(),
                hit_anything == closest(self.list@, *ray, t_min, t_max, i as nat).is_some(),
                hit_anything ==> Some(*record) == closest(self.list@, *ray, t_min, t_max, i as nat),
                hit_anything ==> record.within(t_min, t_max),
                !hit_anything ==> *record == *old(record),
                closest_so_far == limit_after(
                    closest(self.list@, *ray, t_min, t_max, i as nat),
                    t_max,
                ),
            decreases self.list@.len() - i,
        {
            if self.list[i].hit(ray, t_min, closest_so_far, &mut temp_record) {
                hit_anything = true;
                closest_so_far = temp_record.t;
                *record = temp_record;
            }
            i = i + 1;
        }
        hit_anything
    }
}

/// A hit, kept where its parameter lies below `limit`.
pub open spec fn below(hit: Option<HitRecord>, limit: Double) -> Option<HitRecord> {
    match hit {
        Some(record) => if record.t.lt_spec(limit) {
            Some(record)
        } else {
            None
        },
        None => None,
    }
}

/// The hit that the object at place `i` reports in the whole window.
pub open spec fn whole(
    list: Seq<Box<dyn Hitable>>,
    i: int,
    ray: Ray,
    t_min: Double,
    t_max: Double,
) -> Option<HitRecord> {
    list[i].hit_spec(ray, t_min, t_max)
}

/// What the nearest-hit search takes the object at place `i` to do for a ray
/// and a window: the hit that it reports lies strictly inside the window, and
/// in a window narrowed from above it reports the same hit where that still
/// lies inside, and none otherwise. A member that answers as a sphere with
/// ordered roots does so: see `lemma_sphere_member_settled`.
pub open spec fn settled(
    list: Seq<Box<dyn Hitable>>,
    i: int,
    ray: Ray,
    t_min: Double,
    t_max: Double,
) -> bool {
    &&& whole(list, i, ray, t_min, t_max) matches Some(record) ==> record.within(t_min, t_max)
    &&& forall|limit: Double|
        limit.lt_spec(t_max) ==> #[trigger] list[i].hit_spec(ray, t_min, limit) == below(
            whole(list, i, ray, t_min, t_max),
            limit,
        )
}

/// A member that answers as a sphere does is settled: where the object at
/// place `i` reports, in every window from `t_min` up, the hit of `sphere`
/// for one crossing whose roots come in order, it is settled for that ray
/// and every `t_max`.
pub proof fn lemma_sphere_member_settled(
    list: Seq<Box<dyn Hitable>>,
    i: int,
    ray: Ray,
    t_min: Double,
    t_max: Double,
    sphere: Sphere,
    crossing: Crossing,
)
    requires
        0 <= i < list.len(),
        crossing.ordered(),
        forall|limit: Double| #[trigger]
            list[i].hit_spec(ray, t_min, limit) == sphere.hit_spec(crossing, t_min, limit),
    ensures
        settled(list, i, ray, t_min, t_max),
{
    assert(whole(list, i, ray, t_min, t_max) == sphere.hit_spec(crossing, t_min, t_max));
    assert forall|limit: Double| limit.lt_spec(t_max) implies #[trigger] list[i].hit_spec(
        ray,
        t_min,
        limit,
    ) == below(whole(list, i, ray, t_min, t_max), limit) by {
        lemma_sphere_narrowing(sphere, crossing, t_min, t_max, limit);
    }
}

/// The place of the object whose hit stands after the first `n` objects were
/// asked, or -1 where none of them was hit.
pub open spec fn closest_index(
    list: Seq<Box<dyn Hitable>>,
    ray: Ray,
    t_min: Double,
    t_max: Double,
    n: nat,
) -> int
    decreases n,
{
    if n == 0 {
        -1
    } else {
        let before = closest(list, ray, t_min, t_max, (n - 1) as nat);
        if list[n - 1].hit_spec(ray, t_min, limit_after(before, t_max)).is_some() {
            n - 1
        } else {
            closest_index(list, ray, t_min, t_max, (n - 1) as nat)
        }
    }
}

/// Whether the object at place `k` holds the nearest of the hits that the
/// first `n` objects report in the whole window `(t_min, t_max)`: every
/// earlier object's hit is strictly farther and no later object's hit is
/// nearer, so that among hits at the same parameter the first object's
/// stands. With `k` at -1: whether none of the objects reports a hit.
pub open spec fn is_nearest(
    list: Seq<Box<dyn Hitable>>,
    ray: Ray,
    t_min: Double,
    t_max: Double,
    n: nat,
    k: int,
) -> bool {
    if k < 0 {
        forall|j: int| 0 <= j < n ==> (#[trigger] whole(list, j, ray, t_min, t_max)).is_none()
    } else {
        &&& k < n
        &&& whole(list, k, ray, t_min, t_max) matches Some(record) && record.within(t_min, t_max)
            && (forall|j: int|
            0 <= j < k ==> (#[trigger] whole(list, j, ray, t_min, t_max) matches Some(other)
                ==> record.t.lt_spec(other.t))) && (forall|j: int|
            k < j < n ==> (#[trigger] whole(list, j, ray, t_min, t_max) matches Some(other)
                ==> !other.t.lt_spec(record.t)))
    }
}

/// The search returns the nearest hit: asking each object only for a hit
/// nearer than the best so far finds the same hit as asking every object in
/// the whole window and taking the first of those with the smallest parameter.
pub proof fn lemma_closest_is_nearest(
    list: Seq<Box<dyn Hitable>>,
    ray: Ray,
    t_min: Double,
    t_max: Double,
    n: nat,
)
    requires
        n <= list.len(),
        forall|i: int| 0 <= i < n ==> #[trigger] settled(list, i, ray, t_min, t_max),
    ensures
        is_nearest(list, ray, t_min, t_max, n, closest_index(list, ray, t_min, t_max, n)),
        closest_index(list, ray, t_min, t_max, n) < 0 ==> closest(list, ray, t_min, t_max, n)
            == None::<HitRecord>,
        closest_index(list, ray, t_min, t_max, n) >= 0 ==> closest(list, ray, t_min, t_max, n)
            == whole(list, closest_index(list, ray, t_min, t_max, n), ray, t_min, t_max),
    decreases n,
{
    if n > 0 {
        let m = (n - 1) as nat;
        lemma_closest_is_nearest(list, ray, t_min, t_max, m);
        let before = closest(list, ray, t_min, t_max, m);
        let k = closest_index(list, ray, t_min, t_max, m);
        let limit = limit_after(before, t_max);
        let full = whole(list, m as int, ray, t_min, t_max);
        let narrowed = list[m as int].hit_spec(ray, t_min, limit);
        assert(settled(list, m as int, ray, t_min, t_max));
        if k >= 0 {
            assert(limit.lt_spec(t_max));
        }
        assert(narrowed == below(full, limit));
        if narrowed.is_some() {
            let record = narrowed->0;
            assert(full == Some(record));
            if k >= 0 {
                let best = before->0;
                assert(record.t.lt_spec(best.t));
                assert forall|j: int| 0 <= j < m implies (#[trigger] whole(
                    list,
                    j,
                    ray,
                    t_min,
                    t_max,
                ) matches Some(other) ==> record.t.lt_spec(other.t)) by {
                    assert(settled(list, j, ray, t_min, t_max));
                }
            }
            assert(is_nearest(list, ray, t_min, t_max, n, m as int));
        } else {
            if k >= 0 {
                assert(is_nearest(list, ray, t_min, t_max, n, k));
            } else {
                assert(full.is_none());
                assert(is_nearest(list, ray, t_min, t_max, n, k));
            }
        }
    }
}

} // verus!
