//! Intersection records, the `Hit` capability, and the scene as an ordered
//! list of objects that is scanned for the nearest hit.

use vstd::prelude::*;
use crate::helpers::below;
use crate::ray::Ray;

verus! {

/// What one successful intersection test reports.
///
/// `V` is the caller's vector type and `T` the type of a ray parameter. The
/// material is named by its index in the caller's table of materials, so that
/// many objects can share one material.
pub struct HitRecord<V, T> {
    pub point: V,
    pub t: T,
    pub normal: V,
    pub material: usize,
    pub is_front_face: bool,
}

/// Whether `record` is the record of a hit of `ray` at `point`, with parameter
/// `t`, on a surface of `material` whose normal at that point is
/// `outward_normal`.
///
/// The hit is on the front face where the dot product of the ray's direction
/// and the outward normal compares below `zero`, and the record then keeps
/// that normal. Else it is on the back face, and the record holds what
/// `reverse` makes of the normal, so that the recorded normal always faces the
/// incoming ray.
pub open spec fn oriented<V, T: PartialOrd, F, N>(
    ray: Ray<V>,
    point: V,
    t: T,
    outward_normal: V,
    material: usize,
    dot: &F,
    zero: T,
    reverse: &N,
    record: HitRecord<V, T>,
) -> bool where F: Fn(&V, &V) -> T, N: Fn(V) -> V {
    &&& record.point == point
    &&& record.t == t
    &&& record.material == material
    &&& exists|along: T| #[trigger]
        call_ensures(*dot, (&ray.direction, &outward_normal), along) && below(
            along,
            zero,
            record.is_front_face,
        )
    &&& record.is_front_face ==> record.normal == outward_normal
    &&& !record.is_front_face ==> call_ensures(*reverse, (outward_normal,), record.normal)
}

impl<V, T: PartialOrd> HitRecord<V, T> {
    /// The record of a hit of `ray` at `point`, with parameter `t`, on a
    /// surface of `material` whose normal at that point is `outward_normal`,
    /// with the normal turned to face the ray.
    pub fn new<F, N>(
        ray: &Ray<V>,
        point: V,
        t: T,
        outward_normal: V,
        material: usize,
        dot: &F,
        zero: T,
        reverse: &N,
    ) -> (record: Self) where F: Fn(&V, &V) -> T, N: Fn(V) -> V
        requires
            call_requires(*dot, (&ray.direction, &outward_normal)),
            call_requires(*reverse, (outward_normal,)),
        ensures
            oriented(*ray, point, t, outward_normal, material, dot, zero, reverse, record),
    {
        let along = dot(&ray.direction, &outward_normal);
        let is_front_face = along < zero;
        let normal = if is_front_face {
            outward_normal
        } else {
            reverse(outward_normal)
        };
        HitRecord { point, t, normal, material, is_front_face }
    }
}

/// An object that a ray can hit.
pub trait Hit<V, T> {
    /// Tests `ray` against the object and reports the hit whose parameter lies
    /// between `t_min` and `t_max`, if there is one.
    fn hit(&self, ray: &Ray<V>, t_min: T, t_max: T) -> Option<HitRecord<V, T>>;
}

/// A boxed object is hit as the object in the box is, so that a scene can hold
/// objects of different kinds.
impl<V, T, H: Hit<V, T> + ?Sized> Hit<V, T> for Box<H> {
    fn hit(&self, ray: &Ray<V>, t_min: T, t_max: T) -> (found: Option<HitRecord<V, T>>)
        ensures
            call_ensures(H::hit, (&**self, ray, t_min, t_max), found),
    {
        (**self).hit(ray, t_min, t_max)
    }
}

/// The upper bound that applies after `found`: the parameter of the hit, or
/// `t_max` while nothing was hit.
pub open spec fn narrowed<V, T>(found: Option<HitRecord<V, T>>, t_max: T) -> T {
    match found {
        Some(record) => record.t,
        None => t_max,
    }
}

/// Whether a scan of `objects` from first to last can end with `found`.
///
/// A scan of no object finds nothing. Else the objects but the last are
/// scanned, the last is tested below the parameter of what that scan found,
/// and its hit, if it reports one, replaces what was found before. Objects
/// that keep to their bounds thus report ever nearer hits, and the last hit is
/// the nearest.
pub open spec fn scanned<V, T, H: Hit<V, T>>(
    objects: Seq<H>,
    ray: Ray<V>,
    t_min: T,
    t_max: T,
    found: Option<HitRecord<V, T>>,
) -> bool
    decreases objects.len(),
{
    if objects.len() == 0 {
        found is None
    } else {
        exists|before: Option<HitRecord<V, T>>, latest: Option<HitRecord<V, T>>|
            scanned(objects.drop_last(), ray, t_min, t_max, before) && #[trigger] call_ensures(
                H::hit,
                (&objects.last(), &ray, t_min, narrowed(before, t_max)),
                latest,
            ) && found == (if latest is Some {
                latest
            } else {
                before
            })
    }
}

/// A scene: objects in the order in which they were added.
pub struct HitList<H> {
    objects: Vec<H>,
}

impl<H> View for HitList<H> {
    type V = Seq<H>;

    closed spec fn view(&self) -> Seq<H> {
        self.objects@
    }
}

impl<H> HitList<H> {
    /// The empty scene.
    pub fn new() -> (scene: Self)
        ensures
            scene@ == Seq::<H>::empty(),
    {
        HitList { objects: Vec::new() }
    }

    /// Appends `object` to the scene.
    pub fn add(&mut self, object: H)
        ensures
            final(self)@ == old(self)@.push(object),
    {
        self.objects.push(object);
    }
}

impl<V, T: Copy, H: Hit<V, T>> Hit<V, T> for HitList<H> {
    /// The nearest hit among the objects of the scene: each object is tested
    /// in turn, and only below the parameter of the nearest hit so far.
    fn hit(&self, ray: &Ray<V>, t_min: T, t_max: T) -> (found: Option<HitRecord<V, T>>)
        ensures
            scanned(self@, *ray, t_min, t_max, found),
    {
        let mut res: Option<HitRecord<V, T>> = None;
        let mut closest_so_far = t_max;
        let mut i: usize = 0;
        while i < self.objects.len()
            invariant
                i <= self.objects.len(),
                scanned(self@.take(i as int), *ray, t_min, t_max, res),
                closest_so_far == narrowed(res, t_max),
            decreases self.objects.len() - i,
        {
            let latest = self.objects[i].hit(ray, t_min, closest_so_far);
            proof {
                let done = self@.take(i + 1);
                assert(done.drop_last() =~= self@.take(i as int));
            }
            if let Some(rec) = latest {
                closest_so_far = rec.t;
                res = Some(rec);
            }
            i += 1;
        }
        proof {
            assert(self@.take(i as int) =~= self@);
        }
        res
    }
}

/// What a scan finds was reported by one of the objects, for the ray and the
/// lower bound that the scan was given.
pub proof fn lemma_scan_reports_a_hit<V, T, H: Hit<V, T>>(
    objects: Seq<H>,
    ray: Ray<V>,
    t_min: T,
    t_max: T,
    found: Option<HitRecord<V, T>>,
)
    requires
        scanned(objects, ray, t_min, t_max, found),
        found is Some,
    ensures
        exists|k: int, bound: T|
            0 <= k < objects.len() && #[trigger] call_ensures(
                H::hit,
                (&objects[k], &ray, t_min, bound),
                found,
            ),
    decreases objects.len(),
{
    let earlier = objects.drop_last();
    let (before, latest) = choose|
        before: Option<HitRecord<V, T>>,
        latest: Option<HitRecord<V, T>>,
    |
        scanned(earlier, ray, t_min, t_max, before) && #[trigger] call_ensures(
            H::hit,
            (&objects.last(), &ray, t_min, narrowed(before, t_max)),
            latest,
        ) && found == (if latest is Some {
            latest
        } else {
            before
        });
    if latest is Some {
        let last = objects.len() - 1;
    } else {
        lemma_scan_reports_a_hit(earlier, ray, t_min, t_max, before);
        let (k, bound) = choose|k: int, bound: T|
            0 <= k < earlier.len() && #[trigger] call_ensures(
                H::hit,
                (&earlier[k], &ray, t_min, bound),
                before,
            );
    }
}

/// Where no object can report a hit for the ray and the lower bound, under
/// whatever upper bound, the scan finds nothing.
pub proof fn lemma_scan_of_misses<V, T, H: Hit<V, T>>(
    objects: Seq<H>,
    ray: Ray<V>,
    t_min: T,
    t_max: T,
    found: Option<HitRecord<V, T>>,
)
    requires
        scanned(objects, ray, t_min, t_max, found),
        forall|k: int, bound: T, reported: Option<HitRecord<V, T>>|
            0 <= k < objects.len() && #[trigger] call_ensures(
                H::hit,
                (&objects[k], &ray, t_min, bound),
                reported,
            ) ==> reported is None,
    ensures
        found is None,
{
    if found is Some {
        lemma_scan_reports_a_hit(objects, ray, t_min, t_max, found);
    }
}

} // verus!
