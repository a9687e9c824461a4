//! Spheres, and how a ray hits one.

use vstd::prelude::*;
use crate::helpers::{above, below, inside, is_inside};
use crate::hit::{oriented, HitRecord};
use crate::ray::Ray;

verus! {

/// One of the two parameters at which the line of a ray crosses a sphere.
#[derive(Clone, Copy, PartialEq, Eq, Debug, Structural)]
pub enum Root {
    /// The smaller root, where the line enters the sphere.
    Near,
    /// The larger root, where the line leaves the sphere.
    Far,
}

/// The root at which the ray hits: the near root if it lies between the
/// bounds, else the far root if that one does, else none.
pub open spec fn accepted_root(near_in_range: bool, far_in_range: bool) -> Option<Root> {
    if near_in_range {
        Some(Root::Near)
    } else if far_in_range {
        Some(Root::Far)
    } else {
        None
    }
}

/// Picks the root at which the ray hits, from whether each root lies strictly
/// between the bounds.
pub fn select_root(near_in_range: bool, far_in_range: bool) -> (root: Option<Root>)
    ensures
        root == accepted_root(near_in_range, far_in_range),
{
    if near_in_range {
        Some(Root::Near)
    } else if far_in_range {
        Some(Root::Far)
    } else {
        None
    }
}

/// The far root is taken only when the near root is out of range, and no root
/// only when both are.
pub proof fn lemma_near_root_first(near_in_range: bool, far_in_range: bool)
    ensures
        accepted_root(near_in_range, far_in_range) == Some(Root::Near) <==> near_in_range,
        accepted_root(near_in_range, far_in_range) == Some(Root::Far) <==> !near_in_range
            && far_in_range,
        accepted_root(near_in_range, far_in_range) is None <==> !near_in_range && !far_in_range,
{
}

/// A sphere. A negative radius turns its surface inside out.
pub struct Sphere<V, T> {
    pub center: V,
    pub radius: T,
    pub material: usize,
}

/// The numeric side of hitting a sphere, as the caller supplies it.
///
/// The parameters `t` at which the line of a ray crosses a sphere solve a
/// quadratic `a·t² + 2·half_b·t + c = 0`.
pub struct Geometry<T, Q, R, A, O, F, N> {
    /// The number zero.
    pub zero: T,
    /// The discriminant `half_b² − a·c` of the quadratic of a ray and of the
    /// sphere of a centre and a radius.
    pub discriminant: Q,
    /// The two roots of that quadratic, the smaller first.
    pub roots: R,
    /// The point of a ray at a parameter.
    pub at: A,
    /// The outward normal at a point of the sphere of a centre and a radius.
    pub outward: O,
    /// The dot product of two vectors.
    pub dot: F,
    /// The opposite of a vector.
    pub reverse: N,
}

impl<T, Q, R, A, O, F, N> Geometry<T, Q, R, A, O, F, N> {
    /// Whether every function of the geometry can be called on every
    /// argument.
    pub open spec fn total<V>(&self) -> bool where
        Q: Fn(&Ray<V>, &V, T) -> T,
        R: Fn(&Ray<V>, &V, T) -> (T, T),
        A: Fn(&Ray<V>, T) -> V,
        O: Fn(&V, &V, T) -> V,
        F: Fn(&V, &V) -> T,
        N: Fn(V) -> V,
     {
        &&& forall|ray: &Ray<V>, center: &V, radius: T|
            call_requires(self.discriminant, (ray, center, radius))
        &&& forall|ray: &Ray<V>, center: &V, radius: T|
            call_requires(self.roots, (ray, center, radius))
        &&& forall|ray: &Ray<V>, t: T| call_requires(self.at, (ray, t))
        &&& forall|point: &V, center: &V, radius: T|
            call_requires(self.outward, (point, center, radius))
        &&& forall|a: &V, b: &V| call_requires(self.dot, (a, b))
        &&& forall|normal: V| call_requires(self.reverse, (normal,))
    }
}

/// Whether `record` can be the record of `ray` hitting `sphere` at the
/// parameter `t`: taken at the point of the ray at `t`, with the outward
/// normal of the sphere at that point turned to face the ray.
pub open spec fn recorded<V, T: PartialOrd, Q, R, A, O, F, N>(
    sphere: Sphere<V, T>,
    geometry: &Geometry<T, Q, R, A, O, F, N>,
    ray: Ray<V>,
    t: T,
    record: HitRecord<V, T>,
) -> bool where A: Fn(&Ray<V>, T) -> V, O: Fn(&V, &V, T) -> V, F: Fn(&V, &V) -> T, N: Fn(V) -> V {
    exists|outward_normal: V|
        call_ensures(geometry.at, (&ray, t), record.point) && #[trigger] call_ensures(
            geometry.outward,
            (&record.point, &sphere.center, sphere.radius),
            outward_normal,
        ) && oriented(
            ray,
            record.point,
            t,
            outward_normal,
            sphere.material,
            &geometry.dot,
            geometry.zero,
            &geometry.reverse,
            record,
        )
}

/// Whether `found` can be what a ray whose line crosses `sphere` at `near` and
/// at `far` hits between `t_min` and `t_max`: the sphere at the near root
/// where that lies strictly between the bounds, at the far root where only
/// that does, and nothing where neither does.
pub open spec fn crossed<V, T: PartialOrd, Q, R, A, O, F, N>(
    sphere: Sphere<V, T>,
    geometry: &Geometry<T, Q, R, A, O, F, N>,
    ray: Ray<V>,
    t_min: T,
    t_max: T,
    near: T,
    far: T,
    found: Option<HitRecord<V, T>>,
) -> bool where A: Fn(&Ray<V>, T) -> V, O: Fn(&V, &V, T) -> V, F: Fn(&V, &V) -> T, N: Fn(V) -> V {
    exists|near_in_range: bool, far_in_range: bool| #[trigger]
        inside(near, t_min, t_max, near_in_range) && #[trigger] inside(
            far,
            t_min,
            t_max,
            far_in_range,
        ) && match accepted_root(near_in_range, far_in_range) {
            Some(Root::Near) => found matches Some(record) && recorded(
                sphere,
                geometry,
                ray,
                near,
                record,
            ),
            Some(Root::Far) => found matches Some(record) && recorded(
                sphere,
                geometry,
                ray,
                far,
                record,
            ),
            None => found is None,
        }
}

/// Whether `found` can be what testing `ray` against `sphere` between `t_min`
/// and `t_max` reports.
///
/// Where the discriminant does not compare above zero, the line of the ray
/// misses the sphere or only touches it, and nothing is hit. Else the line
/// crosses the sphere at two roots, and the hit is as `crossed` says.
pub open spec fn struck<V, T: PartialOrd, Q, R, A, O, F, N>(
    sphere: Sphere<V, T>,
    geometry: &Geometry<T, Q, R, A, O, F, N>,
    ray: Ray<V>,
    t_min: T,
    t_max: T,
    found: Option<HitRecord<V, T>>,
) -> bool where
    Q: Fn(&Ray<V>, &V, T) -> T,
    R: Fn(&Ray<V>, &V, T) -> (T, T),
    A: Fn(&Ray<V>, T) -> V,
    O: Fn(&V, &V, T) -> V,
    F: Fn(&V, &V) -> T,
    N: Fn(V) -> V,
 {
    exists|discriminant: T| #[trigger]
        call_ensures(geometry.discriminant, (&ray, &sphere.center, sphere.radius), discriminant)
            && {
            ||| above(discriminant, geometry.zero, false) && found is None
            ||| above(discriminant, geometry.zero, true) && exists|near: T, far: T| #[trigger]
                call_ensures(geometry.roots, (&ray, &sphere.center, sphere.radius), (near, far))
                    && crossed(sphere, geometry, ray, t_min, t_max, near, far, found)
        }
}

impl<V, T: Copy + PartialOrd> Sphere<V, T> {
    /// The sphere around `center` with `radius`, made of the material with
    /// the number `material`.
    pub fn new(center: V, radius: T, material: usize) -> (sphere: Self)
        ensures
            sphere.center == center,
            sphere.radius == radius,
            sphere.material == material,
    {
        Sphere { center, radius, material }
    }

    /// The record of `ray` hitting the sphere at the parameter `t`.
    fn record<Q, R, A, O, F, N>(
        &self,
        ray: &Ray<V>,
        t: T,
        geometry: &Geometry<T, Q, R, A, O, F, N>,
    ) -> (record: HitRecord<V, T>) where
        A: Fn(&Ray<V>, T) -> V,
        O: Fn(&V, &V, T) -> V,
        F: Fn(&V, &V) -> T,
        N: Fn(V) -> V,

        requires
            forall|ray: &Ray<V>, t: T| call_requires(geometry.at, (ray, t)),
            forall|point: &V, center: &V, radius: T|
                call_requires(geometry.outward, (point, center, radius)),
            forall|a: &V, b: &V| call_requires(geometry.dot, (a, b)),
            forall|normal: V| call_requires(geometry.reverse, (normal,)),
        ensures
            recorded(*self, geometry, *ray, t, record),
    {
        let p = (geometry.at)(ray, t);
        let n = (geometry.outward)(&p, &self.center, self.radius);
        HitRecord::new(ray, p, t, n, self.material, &geometry.dot, geometry.zero, &geometry.reverse)
    }

    /// Tests `ray` against the sphere and reports the hit whose parameter lies
    /// strictly between `t_min` and `t_max`, if there is one.
    pub fn hit_with<Q, R, A, O, F, N>(
        &self,
        ray: &Ray<V>,
        t_min: T,
        t_max: T,
        geometry: &Geometry<T, Q, R, A, O, F, N>,
    ) -> (found: Option<HitRecord<V, T>>) where
        Q: Fn(&Ray<V>, &V, T) -> T,
        R: Fn(&Ray<V>, &V, T) -> (T, T),
        A: Fn(&Ray<V>, T) -> V,
        O: Fn(&V, &V, T) -> V,
        F: Fn(&V, &V) -> T,
        N: Fn(V) -> V,

        requires
            geometry.total::<V>(),
        ensures
            struck(*self, geometry, *ray, t_min, t_max, found),
    {
        let discriminant = (geometry.discriminant)(ray, &self.center, self.radius);
        if discriminant > geometry.zero {
            let (t1, t2) = (geometry.roots)(ray, &self.center, self.radius);
            let near_in_range = is_inside(&t1, &t_min, &t_max);
            let far_in_range = is_inside(&t2, &t_min, &t_max);
            match select_root(near_in_range, far_in_range) {
                Some(Root::Near) => Some(self.record(ray, t1, geometry)),
                Some(Root::Far) => Some(self.record(ray, t2, geometry)),
                None => None,
            }
        } else {
            None
        }
    }
}

/// A ray whose line misses the sphere hits nothing, wherever the bounds lie:
/// where the discriminant can only compare not above zero, no hit is
/// reported.
pub proof fn lemma_miss_is_no_hit<V, T: PartialOrd, Q, R, A, O, F, N>(
    sphere: Sphere<V, T>,
    geometry: &Geometry<T, Q, R, A, O, F, N>,
    ray: Ray<V>,
    t_min: T,
    t_max: T,
    found: Option<HitRecord<V, T>>,
) where
    Q: Fn(&Ray<V>, &V, T) -> T,
    R: Fn(&Ray<V>, &V, T) -> (T, T),
    A: Fn(&Ray<V>, T) -> V,
    O: Fn(&V, &V, T) -> V,
    F: Fn(&V, &V) -> T,
    N: Fn(V) -> V,

    requires
        struck(sphere, geometry, ray, t_min, t_max, found),
        forall|discriminant: T, positive: bool| #[trigger]
            call_ensures(
                geometry.discriminant,
                (&ray, &sphere.center, sphere.radius),
                discriminant,
            ) && #[trigger] above(discriminant, geometry.zero, positive) ==> !positive,
    ensures
        found is None,
{
}

/// A ray from outside hits the sphere where its line first crosses it, and the
/// recorded normal is the outward normal there.
///
/// Stated for a ray whose line can only cross the sphere at `near` and `far`,
/// with `near` strictly between the bounds, and whose direction can only run
/// against the outward normal at the point of the ray at `near`.
pub proof fn lemma_hit_at_the_near_root<V, T: PartialOrd, Q, R, A, O, F, N>(
    sphere: Sphere<V, T>,
    geometry: &Geometry<T, Q, R, A, O, F, N>,
    ray: Ray<V>,
    t_min: T,
    t_max: T,
    near: T,
    far: T,
    found: Option<HitRecord<V, T>>,
) where
    Q: Fn(&Ray<V>, &V, T) -> T,
    R: Fn(&Ray<V>, &V, T) -> (T, T),
    A: Fn(&Ray<V>, T) -> V,
    O: Fn(&V, &V, T) -> V,
    F: Fn(&V, &V) -> T,
    N: Fn(V) -> V,

    requires
        struck(sphere, geometry, ray, t_min, t_max, found),
        forall|discriminant: T, positive: bool| #[trigger]
            call_ensures(
                geometry.discriminant,
                (&ray, &sphere.center, sphere.radius),
                discriminant,
            ) && #[trigger] above(discriminant, geometry.zero, positive) ==> positive,
        forall|roots: (T, T)| #[trigger]
            call_ensures(geometry.roots, (&ray, &sphere.center, sphere.radius), roots) ==> roots
                == (near, far),
        forall|within: bool| #[trigger] inside(near, t_min, t_max, within) ==> within,
        forall|point: V, normal: V, along: T, front: bool|
            call_ensures(geometry.at, (&ray, near), point) && #[trigger] call_ensures(
                geometry.outward,
                (&point, &sphere.center, sphere.radius),
                normal,
            ) && #[trigger] call_ensures(geometry.dot, (&ray.direction, &normal), along)
                && #[trigger] below(along, geometry.zero, front) ==> front,
    ensures
        found matches Some(record) && record.t == near && record.is_front_face && record.material
            == sphere.material && call_ensures(geometry.at, (&ray, near), record.point)
            && call_ensures(
            geometry.outward,
            (&record.point, &sphere.center, sphere.radius),
            record.normal,
        ),
{
}

/// A hit is reported at a parameter that lies strictly between the bounds,
/// and carries the sphere's material.
pub proof fn lemma_hit_is_in_range<V, T: PartialOrd, Q, R, A, O, F, N>(
    sphere: Sphere<V, T>,
    geometry: &Geometry<T, Q, R, A, O, F, N>,
    ray: Ray<V>,
    t_min: T,
    t_max: T,
    found: Option<HitRecord<V, T>>,
) where
    Q: Fn(&Ray<V>, &V, T) -> T,
    R: Fn(&Ray<V>, &V, T) -> (T, T),
    A: Fn(&Ray<V>, T) -> V,
    O: Fn(&V, &V, T) -> V,
    F: Fn(&V, &V) -> T,
    N: Fn(V) -> V,

    requires
        struck(sphere, geometry, ray, t_min, t_max, found),
    ensures
        found matches Some(record) ==> record.material == sphere.material && inside(
            record.t,
            t_min,
            t_max,
            true,
        ),
{
}

} // verus!
