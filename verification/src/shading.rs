//! The bounce loop: what colour a ray carries back to the camera.

use vstd::prelude::*;
use crate::hit::{Hit, HitRecord};
use crate::ray::Ray;

verus! {

/// The numeric side of shading, as the caller supplies it.
///
/// `T` is the type of a ray parameter and `C` the type of a colour.
pub struct Shading<T, C, S, B, M> {
    /// Hits at or below this parameter are not counted.
    pub t_min: T,
    /// Hits at or above this parameter are not counted.
    pub t_max: T,
    /// The colour of a ray that carries no light.
    pub black: C,
    /// What the material at a hit does to the incoming ray: `None` where it
    /// absorbs the ray, else the scattered ray and the attenuation.
    pub scatter: S,
    /// The colour of the background along a ray that hits nothing.
    pub background: B,
    /// An attenuation applied to the colour that a scattered ray carries back.
    pub attenuate: M,
}

impl<T, C, S, B, M> Shading<T, C, S, B, M> {
    /// Whether `scatter`, `background` and `attenuate` can be called on every
    /// argument.
    pub open spec fn total<V>(&self) -> bool where
        S: Fn(&Ray<V>, &HitRecord<V, T>) -> Option<(Ray<V>, C)>,
        B: Fn(&Ray<V>) -> C,
        M: Fn(C, C) -> C,
     {
        &&& forall|ray: &Ray<V>, record: &HitRecord<V, T>|
            call_requires(self.scatter, (ray, record))
        &&& forall|ray: &Ray<V>| call_requires(self.background, (ray,))
        &&& forall|attenuation: C, color: C| call_requires(self.attenuate, (attenuation, color))
    }
}

/// Whether the path can end at `ray` with `color`: the ray hits nothing and
/// `color` is a colour of the background along it, or it hits, the material
/// absorbs it, and `color` is black.
pub open spec fn ended<V, T, C, W, S, B, M>(
    world: &W,
    shading: &Shading<T, C, S, B, M>,
    ray: Ray<V>,
    color: C,
) -> bool where
    W: Hit<V, T>,
    S: Fn(&Ray<V>, &HitRecord<V, T>) -> Option<(Ray<V>, C)>,
    B: Fn(&Ray<V>) -> C,
 {
    exists|found: Option<HitRecord<V, T>>| #[trigger]
        call_ensures(W::hit, (world, &ray, shading.t_min, shading.t_max), found) && match found {
            None => call_ensures(shading.background, (&ray,), color),
            Some(record) => call_ensures(shading.scatter, (&ray, &record), None::<(Ray<V>, C)>)
                && color == shading.black,
        }
}

/// Whether `ray` can hit the world and be scattered into `next` with
/// `attenuation`.
pub open spec fn bounced<V, T, C, W, S, B, M>(
    world: &W,
    shading: &Shading<T, C, S, B, M>,
    ray: Ray<V>,
    next: Ray<V>,
    attenuation: C,
) -> bool where W: Hit<V, T>, S: Fn(&Ray<V>, &HitRecord<V, T>) -> Option<(Ray<V>, C)> {
    exists|record: HitRecord<V, T>| #[trigger]
        call_ensures(W::hit, (world, &ray, shading.t_min, shading.t_max), Some(record))
            && call_ensures(shading.scatter, (&ray, &record), Some((next, attenuation)))
}

/// Whether `color` is a colour that `ray` may carry back when up to `depth`
/// bounces are followed.
///
/// With no bounce left the colour is black. Else the ray is tested against
/// `world` between the two bounds. Where the path ends at the ray, the colour
/// is that of the end. Where the ray is scattered, the colour is what the
/// scattered ray carries back with one bounce less, passed through `attenuate`
/// together with the attenuation.
pub open spec fn shaded<V, T, C, W, S, B, M>(
    world: &W,
    shading: &Shading<T, C, S, B, M>,
    ray: Ray<V>,
    depth: int,
    color: C,
) -> bool where
    W: Hit<V, T>,
    S: Fn(&Ray<V>, &HitRecord<V, T>) -> Option<(Ray<V>, C)>,
    B: Fn(&Ray<V>) -> C,
    M: Fn(C, C) -> C,

    decreases depth,
{
    if depth <= 0 {
        color == shading.black
    } else {
        ||| ended(world, shading, ray, color)
        ||| exists|next: Ray<V>, attenuation: C, deeper: C| #[trigger]
            bounced(world, shading, ray, next, attenuation) && shaded(
                world,
                shading,
                next,
                depth - 1,
                deeper,
            ) && #[trigger] call_ensures(shading.attenuate, (attenuation, deeper), color)
    }
}

/// What following one ray to its next event gives.
enum Event<V, C> {
    /// The path ends with this colour.
    End(C),
    /// The ray is scattered into `next`, which carries back its colour
    /// attenuated by `attenuation`.
    Bounce { next: Ray<V>, attenuation: C },
}

/// Tests `ray` against the world and, where it hits, asks the material what
/// becomes of it.
fn follow<V, T, C, W, S, B, M>(ray: &Ray<V>, world: &W, shading: &Shading<T, C, S, B, M>) -> (event:
    Event<V, C>) where
    T: Copy,
    C: Copy,
    W: Hit<V, T>,
    S: Fn(&Ray<V>, &HitRecord<V, T>) -> Option<(Ray<V>, C)>,
    B: Fn(&Ray<V>) -> C,
    M: Fn(C, C) -> C,

    requires
        shading.total::<V>(),
    ensures
        match event {
            Event::End(color) => ended(world, shading, *ray, color),
            Event::Bounce { next, attenuation } => bounced(world, shading, *ray, next, attenuation),
        },
{
    match world.hit(ray, shading.t_min, shading.t_max) {
        Some(rec) => match (shading.scatter)(ray, &rec) {
            Some((next, attenuation)) => Event::Bounce { next, attenuation },
            None => Event::End(shading.black),
        },
        None => Event::End((shading.background)(ray)),
    }
}

/// The colour that `ray` carries back from `world` when up to `depth` bounces
/// are followed.
///
/// The path is followed in a loop, not by recursion: the attenuations met on
/// the way are kept, and applied from the last to the first once the path has
/// ended, so the colour is the one that the nested definition gives.
pub fn ray_color<V, T, C, W, S, B, M>(
    ray: &Ray<V>,
    world: &W,
    depth: i32,
    shading: &Shading<T, C, S, B, M>,
) -> (color: C) where
    T: Copy,
    C: Copy,
    W: Hit<V, T>,
    S: Fn(&Ray<V>, &HitRecord<V, T>) -> Option<(Ray<V>, C)>,
    B: Fn(&Ray<V>) -> C,
    M: Fn(C, C) -> C,

    requires
        shading.total::<V>(),
    ensures
        shaded(world, shading, *ray, depth as int, color),
        depth <= 0 ==> color == shading.black,
{
    if depth <= 0 {
        return shading.black;
    }
    let mut attenuations: Vec<C> = Vec::new();
    let ghost mut rays: Seq<Ray<V>> = seq![*ray];
    let mut color: C;
    let mut current: Ray<V>;
    match follow(ray, world, shading) {
        Event::End(end) => {
            return end;
        },
        Event::Bounce { next, attenuation } => {
            attenuations.push(attenuation);
            proof {
                rays = rays.push(next);
            }
            current = next;
        },
    }
    // Follow the path while bounces are left. Where they run out, the last
    // ray carries back black.
    let mut left: i32 = depth - 1;
    color = shading.black;
    while left > 0
        invariant_except_break
            shading.total::<V>(),
            0 <= left < depth,
            attenuations@.len() == depth - left,
            rays.len() == attenuations@.len() + 1,
            rays[0] == *ray,
            rays.last() == current,
            color == shading.black,
            forall|i: int|
                0 <= i < attenuations@.len() ==> bounced(
                    world,
                    shading,
                    #[trigger] rays[i],
                    rays[i + 1],
                    attenuations@[i],
                ),
        ensures
            0 < attenuations@.len() <= depth,
            rays.len() == attenuations@.len() + 1,
            rays[0] == *ray,
            forall|i: int|
                0 <= i < attenuations@.len() ==> bounced(
                    world,
                    shading,
                    #[trigger] rays[i],
                    rays[i + 1],
                    attenuations@[i],
                ),
            shaded(world, shading, rays.last(), depth - attenuations@.len(), color),
        decreases left,
    {
        match follow(&current, world, shading) {
            Event::End(end) => {
                color = end;
                break ;
            },
            Event::Bounce { next, attenuation } => {
                attenuations.push(attenuation);
                proof {
                    rays = rays.push(next);
                }
                current = next;
                left = left - 1;
            },
        }
    }
    // `color` is what the last ray of the path carries back. Each attenuation
    // taken off the end turns it into what the ray one bounce earlier carries.
    let ghost met = attenuations@;
    while attenuations.len() > 0
        invariant
            shading.total::<V>(),
            attenuations@.len() <= met.len() <= depth,
            attenuations@ == met.take(attenuations@.len() as int),
            rays.len() == met.len() + 1,
            rays[0] == *ray,
            forall|i: int|
                0 <= i < met.len() ==> bounced(world, shading, #[trigger] rays[i], rays[i + 1], met[i]),
            shaded(
                world,
                shading,
                rays[attenuations@.len() as int],
                depth - attenuations@.len(),
                color,
            ),
        decreases attenuations@.len(),
    {
        match attenuations.pop() {
            Some(attenuation) => {
                color = (shading.attenuate)(attenuation, color);
            },
            None => {},
        }
    }
    color
}

impl<V> Ray<V> {
    /// The colour that the ray carries back from `world` when up to `depth`
    /// bounces are followed.
    pub fn to_color<T, C, W, S, B, M>(
        &self,
        world: &W,
        depth: i32,
        shading: &Shading<T, C, S, B, M>,
    ) -> (color: C) where
        T: Copy,
        C: Copy,
        W: Hit<V, T>,
        S: Fn(&Ray<V>, &HitRecord<V, T>) -> Option<(Ray<V>, C)>,
        B: Fn(&Ray<V>) -> C,
        M: Fn(C, C) -> C,

        requires
            shading.total::<V>(),
        ensures
            shaded(world, shading, *self, depth as int, color),
            depth <= 0 ==> color == shading.black,
    {
        ray_color(self, world, depth, shading)
    }
}

/// With no bounce left, a ray carries back black and nothing else, whatever
/// the ray and the scene.
pub proof fn lemma_no_depth_is_black<V, T, C, W, S, B, M>(
    world: &W,
    shading: &Shading<T, C, S, B, M>,
    ray: Ray<V>,
    depth: int,
    color: C,
) where
    W: Hit<V, T>,
    S: Fn(&Ray<V>, &HitRecord<V, T>) -> Option<(Ray<V>, C)>,
    B: Fn(&Ray<V>) -> C,
    M: Fn(C, C) -> C,

    requires
        depth <= 0,
    ensures
        shaded(world, shading, ray, depth, color) <==> color == shading.black,
{
}

/// While a bounce is left, a ray that can only miss the world carries back a
/// colour of the background and nothing else.
pub proof fn lemma_miss_is_background<V, T, C, W, S, B, M>(
    world: &W,
    shading: &Shading<T, C, S, B, M>,
    ray: Ray<V>,
    depth: int,
    color: C,
) where
    W: Hit<V, T>,
    S: Fn(&Ray<V>, &HitRecord<V, T>) -> Option<(Ray<V>, C)>,
    B: Fn(&Ray<V>) -> C,
    M: Fn(C, C) -> C,

    requires
        depth > 0,
        shaded(world, shading, ray, depth, color),
        forall|found: Option<HitRecord<V, T>>| #[trigger]
            call_ensures(W::hit, (world, &ray, shading.t_min, shading.t_max), found)
                ==> found is None,
    ensures
        call_ensures(shading.background, (&ray,), color),
{
}

/// While a bounce is left, a ray that can only hit, and that the material can
/// only absorb, carries back black and nothing else.
pub proof fn lemma_absorbed_is_black<V, T, C, W, S, B, M>(
    world: &W,
    shading: &Shading<T, C, S, B, M>,
    ray: Ray<V>,
    depth: int,
    color: C,
) where
    W: Hit<V, T>,
    S: Fn(&Ray<V>, &HitRecord<V, T>) -> Option<(Ray<V>, C)>,
    B: Fn(&Ray<V>) -> C,
    M: Fn(C, C) -> C,

    requires
        depth > 0,
        shaded(world, shading, ray, depth, color),
        forall|found: Option<HitRecord<V, T>>| #[trigger]
            call_ensures(W::hit, (world, &ray, shading.t_min, shading.t_max), found)
                ==> found is Some,
        forall|record: &HitRecord<V, T>, scattered: Option<(Ray<V>, C)>| #[trigger]
            call_ensures(shading.scatter, (&ray, record), scattered) ==> scattered is None,
    ensures
        color == shading.black,
{
}

} // verus!
