//! Materials: what becomes of a ray where it hits a surface.

use vstd::prelude::*;
use crate::helpers::{above, below};
use crate::hit::HitRecord;
use crate::ray::Ray;

verus! {

/// How a surface scatters light.
///
/// `C` is the type of a colour and `T` the type of a scalar.
pub enum Material<C, T> {
    /// A matt surface, which scatters around the normal and tints by `albedo`.
    Lambertian { albedo: C },
    /// A mirror that tints by `albedo`, blurred by `fuzz`.
    Metal { albedo: C, fuzz: T },
    /// Clear matter, which reflects or refracts and tints nothing.
    Dielectric { refraction_index: T },
}

/// The numeric side of scattering, as the caller supplies it.
///
/// Directions need not be of unit length where they are handed over: each
/// function scales what it is given as it needs.
pub struct Optics<C, T, D, Z, M, F, L, K, S, P, W, X> {
    /// The attenuation that changes nothing.
    pub white: C,
    /// The number zero.
    pub zero: T,
    /// The number one.
    pub one: T,
    /// A direction scattered at random around a normal.
    pub diffuse: D,
    /// Whether a direction is too short to be used.
    pub near_zero: Z,
    /// The direction into which a direction is reflected at a normal.
    pub mirror: M,
    /// A direction blurred at random, by a fuzz.
    pub blur: F,
    /// The dot product of two vectors.
    pub dot: L,
    /// One divided by a number.
    pub reciprocal: K,
    /// The sine of the angle at which a direction leaves a surface with a
    /// normal after refraction, for a ratio of refraction indices. Above one,
    /// there is no such angle.
    pub refracted_sine: S,
    /// The share of light that is reflected when a direction meets a surface
    /// with a normal, for a ratio of refraction indices.
    pub reflectance: P,
    /// A number drawn at random between zero and one.
    pub draw: W,
    /// The direction into which a direction is refracted at a normal, for a
    /// ratio of refraction indices.
    pub refract: X,
}

impl<C, T, D, Z, M, F, L, K, S, P, W, X> Optics<C, T, D, Z, M, F, L, K, S, P, W, X> {
    /// Whether every function of the optics can be called on every argument.
    pub open spec fn total<V>(&self) -> bool where
        D: Fn(&V) -> V,
        Z: Fn(&V) -> bool,
        M: Fn(&V, &V) -> V,
        F: Fn(V, T) -> V,
        L: Fn(&V, &V) -> T,
        K: Fn(T) -> T,
        S: Fn(&V, &V, T) -> T,
        P: Fn(&V, &V, T) -> T,
        W: Fn() -> T,
        X: Fn(&V, &V, T) -> V,
     {
        &&& forall|normal: &V| call_requires(self.diffuse, (normal,))
        &&& forall|direction: &V| call_requires(self.near_zero, (direction,))
        &&& forall|direction: &V, normal: &V| call_requires(self.mirror, (direction, normal))
        &&& forall|direction: V, fuzz: T| call_requires(self.blur, (direction, fuzz))
        &&& forall|a: &V, b: &V| call_requires(self.dot, (a, b))
        &&& forall|index: T| call_requires(self.reciprocal, (index,))
        &&& forall|direction: &V, normal: &V, ratio: T|
            call_requires(self.refracted_sine, (direction, normal, ratio))
        &&& forall|direction: &V, normal: &V, ratio: T|
            call_requires(self.reflectance, (direction, normal, ratio))
        &&& call_requires(self.draw, ())
        &&& forall|direction: &V, normal: &V, ratio: T|
            call_requires(self.refract, (direction, normal, ratio))
    }
}

/// The ray from the point of the hit into `direction`, with `attenuation`.
pub open spec fn sent<V, T, C>(record: HitRecord<V, T>, direction: V, attenuation: C) -> Option<
    (Ray<V>, C),
> {
    Some((Ray { origin: record.point, direction }, attenuation))
}

/// Whether a matt surface can scatter a ray that hit at `record` into
/// `direction`: a direction scattered around the normal, or the normal itself
/// where that direction is too short.
pub open spec fn diffused<V, T, C, D, Z, M, F, L, K, S, P, W, X>(
    optics: &Optics<C, T, D, Z, M, F, L, K, S, P, W, X>,
    record: HitRecord<V, T>,
    direction: V,
) -> bool where D: Fn(&V) -> V, Z: Fn(&V) -> bool {
    exists|around: V| #[trigger]
        call_ensures(optics.diffuse, (&record.normal,), around) && {
            ||| call_ensures(optics.near_zero, (&around,), true) && direction == record.normal
            ||| call_ensures(optics.near_zero, (&around,), false) && direction == around
        }
}

/// Whether a metal with `fuzz` can send `ray`, which hit at `record`, into
/// `direction`: the direction of the ray, reflected at the normal and blurred
/// by the fuzz.
pub open spec fn blurred<V, T, C, D, Z, M, F, L, K, S, P, W, X>(
    optics: &Optics<C, T, D, Z, M, F, L, K, S, P, W, X>,
    fuzz: T,
    ray: Ray<V>,
    record: HitRecord<V, T>,
    direction: V,
) -> bool where M: Fn(&V, &V) -> V, F: Fn(V, T) -> V {
    exists|reflected: V| #[trigger]
        call_ensures(optics.mirror, (&ray.direction, &record.normal), reflected) && call_ensures(
            optics.blur,
            (reflected, fuzz),
            direction,
        )
}

/// Whether the dot product of `direction` and the normal at `record` can
/// compare above zero as `outwards` says: whether the direction leaves the
/// surface.
pub open spec fn leaving<V, T: PartialOrd, C, D, Z, M, F, L, K, S, P, W, X>(
    optics: &Optics<C, T, D, Z, M, F, L, K, S, P, W, X>,
    record: HitRecord<V, T>,
    direction: V,
    outwards: bool,
) -> bool where L: Fn(&V, &V) -> T {
    exists|along: T| #[trigger]
        call_ensures(optics.dot, (&direction, &record.normal), along) && above(
            along,
            optics.zero,
            outwards,
        )
}

/// Whether `ratio` can be the ratio of refraction indices at `record` for
/// clear matter with `refraction_index`: one divided by the index where the
/// ray enters through the front face, the index itself where it leaves
/// through the back face.
pub open spec fn ratio_at<V, T, C, D, Z, M, F, L, K, S, P, W, X>(
    optics: &Optics<C, T, D, Z, M, F, L, K, S, P, W, X>,
    refraction_index: T,
    record: HitRecord<V, T>,
    ratio: T,
) -> bool where K: Fn(T) -> T {
    if record.is_front_face {
        call_ensures(optics.reciprocal, (refraction_index,), ratio)
    } else {
        ratio == refraction_index
    }
}

/// Whether clear matter can turn `ray`, which hit at `record`, into
/// `direction` by chance, for a ratio of refraction indices: reflected where
/// the reflectance compares above a number drawn at random, else refracted.
pub open spec fn reflected_by_chance<V, T: PartialOrd, C, D, Z, M, F, L, K, S, P, W, X>(
    optics: &Optics<C, T, D, Z, M, F, L, K, S, P, W, X>,
    ratio: T,
    ray: Ray<V>,
    record: HitRecord<V, T>,
    direction: V,
) -> bool where
    M: Fn(&V, &V) -> V,
    P: Fn(&V, &V, T) -> T,
    W: Fn() -> T,
    X: Fn(&V, &V, T) -> V,
 {
    exists|reflectance: T, drawn: T| #[trigger]
        call_ensures(optics.reflectance, (&ray.direction, &record.normal, ratio), reflectance)
            && #[trigger] call_ensures(optics.draw, (), drawn) && {
            ||| above(reflectance, drawn, true) && call_ensures(
                optics.mirror,
                (&ray.direction, &record.normal),
                direction,
            )
            ||| above(reflectance, drawn, false) && call_ensures(
                optics.refract,
                (&ray.direction, &record.normal, ratio),
                direction,
            )
        }
}

/// Whether clear matter with `refraction_index` can send `ray`, which hit at
/// `record`, into `direction`.
///
/// Where the sine of the refracted angle compares above one, the ray cannot
/// be refracted and is reflected. Else it is reflected or refracted by
/// chance.
pub open spec fn bent<V, T: PartialOrd, C, D, Z, M, F, L, K, S, P, W, X>(
    optics: &Optics<C, T, D, Z, M, F, L, K, S, P, W, X>,
    refraction_index: T,
    ray: Ray<V>,
    record: HitRecord<V, T>,
    direction: V,
) -> bool where
    M: Fn(&V, &V) -> V,
    K: Fn(T) -> T,
    S: Fn(&V, &V, T) -> T,
    P: Fn(&V, &V, T) -> T,
    W: Fn() -> T,
    X: Fn(&V, &V, T) -> V,
 {
    exists|ratio: T, sine: T|
        ratio_at(optics, refraction_index, record, ratio) && #[trigger] call_ensures(
            optics.refracted_sine,
            (&ray.direction, &record.normal, ratio),
            sine,
        ) && {
            ||| above(sine, optics.one, true) && call_ensures(
                optics.mirror,
                (&ray.direction, &record.normal),
                direction,
            )
            ||| above(sine, optics.one, false) && reflected_by_chance(
                optics,
                ratio,
                ray,
                record,
                direction,
            )
        }
}

/// Whether a matt surface of `albedo` can answer `outcome` for a ray that hit
/// at `record`: it always scatters, from the point of the hit, and attenuates
/// by its albedo.
pub open spec fn scattered_by_lambertian<V, T, C, D, Z, M, F, L, K, S, P, W, X>(
    albedo: C,
    optics: &Optics<C, T, D, Z, M, F, L, K, S, P, W, X>,
    record: HitRecord<V, T>,
    outcome: Option<(Ray<V>, C)>,
) -> bool where D: Fn(&V) -> V, Z: Fn(&V) -> bool {
    exists|direction: V| #[trigger]
        diffused(optics, record, direction) && outcome == sent(record, direction, albedo)
}

/// Whether a metal of `albedo` and `fuzz` can answer `outcome` for `ray`,
/// which hit at `record`: it scatters into the blurred mirror direction and
/// attenuates by its albedo, but absorbs the ray where the dot product of
/// that direction and the normal does not compare above zero.
pub open spec fn scattered_by_metal<V, T: PartialOrd, C, D, Z, M, F, L, K, S, P, W, X>(
    albedo: C,
    fuzz: T,
    optics: &Optics<C, T, D, Z, M, F, L, K, S, P, W, X>,
    ray: Ray<V>,
    record: HitRecord<V, T>,
    outcome: Option<(Ray<V>, C)>,
) -> bool where M: Fn(&V, &V) -> V, F: Fn(V, T) -> V, L: Fn(&V, &V) -> T {
    exists|direction: V| #[trigger]
        blurred(optics, fuzz, ray, record, direction) && {
            ||| leaving(optics, record, direction, true) && outcome == sent(
                record,
                direction,
                albedo,
            )
            ||| leaving(optics, record, direction, false) && outcome is None
        }
}

/// Whether clear matter with `refraction_index` can answer `outcome` for
/// `ray`, which hit at `record`: it always scatters, from the point of the
/// hit, and attenuates by white.
pub open spec fn scattered_by_dielectric<V, T: PartialOrd, C, D, Z, M, F, L, K, S, P, W, X>(
    refraction_index: T,
    optics: &Optics<C, T, D, Z, M, F, L, K, S, P, W, X>,
    ray: Ray<V>,
    record: HitRecord<V, T>,
    outcome: Option<(Ray<V>, C)>,
) -> bool where
    M: Fn(&V, &V) -> V,
    K: Fn(T) -> T,
    S: Fn(&V, &V, T) -> T,
    P: Fn(&V, &V, T) -> T,
    W: Fn() -> T,
    X: Fn(&V, &V, T) -> V,
 {
    exists|direction: V| #[trigger]
        bent(optics, refraction_index, ray, record, direction) && outcome == sent(
            record,
            direction,
            optics.white,
        )
}

/// Whether `material` can answer `outcome` for `ray`, which hit at `record`:
/// `None` where the material absorbs the ray, else the scattered ray and the
/// attenuation.
pub open spec fn scattered<V, T: PartialOrd, C, D, Z, M, F, L, K, S, P, W, X>(
    material: Material<C, T>,
    optics: &Optics<C, T, D, Z, M, F, L, K, S, P, W, X>,
    ray: Ray<V>,
    record: HitRecord<V, T>,
    outcome: Option<(Ray<V>, C)>,
) -> bool where
    D: Fn(&V) -> V,
    Z: Fn(&V) -> bool,
    M: Fn(&V, &V) -> V,
    F: Fn(V, T) -> V,
    L: Fn(&V, &V) -> T,
    K: Fn(T) -> T,
    S: Fn(&V, &V, T) -> T,
    P: Fn(&V, &V, T) -> T,
    W: Fn() -> T,
    X: Fn(&V, &V, T) -> V,
 {
    match material {
        Material::Lambertian { albedo } => scattered_by_lambertian(
            albedo,
            optics,
            record,
            outcome,
        ),
        Material::Metal { albedo, fuzz } => scattered_by_metal(
            albedo,
            fuzz,
            optics,
            ray,
            record,
            outcome,
        ),
        Material::Dielectric { refraction_index } => scattered_by_dielectric(
            refraction_index,
            optics,
            ray,
            record,
            outcome,
        ),
    }
}

impl<C: Copy, T: Copy + PartialOrd> Material<C, T> {
    /// A matt surface of the colour `albedo`.
    pub fn new_lambertian(albedo: C) -> (material: Self)
        ensures
            material == (Material::<C, T>::Lambertian { albedo }),
    {
        Material::Lambertian { albedo }
    }

    /// A metal of the colour `albedo`, with `fuzz` where that compares below
    /// `limit`, and with `limit` where it does not.
    pub fn new_metal(albedo: C, fuzz: T, limit: T) -> (material: Self)
        ensures
            below(fuzz, limit, true) && material == (Material::<C, T>::Metal { albedo, fuzz })
                || below(fuzz, limit, false) && material == (Material::<C, T>::Metal {
                albedo,
                fuzz: limit,
            }),
    {
        Material::Metal {
            albedo,
            fuzz: if fuzz < limit {
                fuzz
            } else {
                limit
            },
        }
    }

    /// Clear matter with the given refraction index.
    pub fn new_dielectric(refraction_index: T) -> (material: Self)
        ensures
            material == (Material::<C, T>::Dielectric { refraction_index }),
    {
        Material::Dielectric { refraction_index }
    }

    /// What becomes of `ray_in`, which hit at `record`: `None` where the
    /// material absorbs it, else the scattered ray and the attenuation.
    pub fn scatter<V, D, Z, M, F, L, K, S, P, W, X>(
        &self,
        ray_in: &Ray<V>,
        record: &HitRecord<V, T>,
        optics: &Optics<C, T, D, Z, M, F, L, K, S, P, W, X>,
    ) -> (outcome: Option<(Ray<V>, C)>) where
        V: Copy,
        D: Fn(&V) -> V,
        Z: Fn(&V) -> bool,
        M: Fn(&V, &V) -> V,
        F: Fn(V, T) -> V,
        L: Fn(&V, &V) -> T,
        K: Fn(T) -> T,
        S: Fn(&V, &V, T) -> T,
        P: Fn(&V, &V, T) -> T,
        W: Fn() -> T,
        X: Fn(&V, &V, T) -> V,

        requires
            optics.total::<V>(),
        ensures
            scattered(*self, optics, *ray_in, *record, outcome),
            *self is Lambertian ==> outcome is Some,
            *self is Dielectric ==> outcome is Some,
    {
        match *self {
            Material::Lambertian { albedo } => Self::scatter_lambertian(record, albedo, optics),
            Material::Metal { albedo, fuzz } => Self::scatter_metal(
                ray_in,
                record,
                albedo,
                fuzz,
                optics,
            ),
            Material::Dielectric { refraction_index } => Self::scatter_dielectric(
                ray_in,
                record,
                refraction_index,
                optics,
            ),
        }
    }

    fn scatter_lambertian<V, D, Z, M, F, L, K, S, P, W, X>(
        record: &HitRecord<V, T>,
        albedo: C,
        optics: &Optics<C, T, D, Z, M, F, L, K, S, P, W, X>,
    ) -> (outcome: Option<(Ray<V>, C)>) where V: Copy, D: Fn(&V) -> V, Z: Fn(&V) -> bool
        requires
            forall|normal: &V| call_requires(optics.diffuse, (normal,)),
            forall|direction: &V| call_requires(optics.near_zero, (direction,)),
        ensures
            scattered_by_lambertian(albedo, optics, *record, outcome),
            outcome is Some,
    {
        let mut scatter_direction = (optics.diffuse)(&record.normal);
        if (optics.near_zero)(&scatter_direction) {
            scatter_direction = record.normal;
        }
        proof {
            assert(diffused(optics, *record, scatter_direction));
        }
        Some((Ray::new(record.point, scatter_direction), albedo))
    }

    fn scatter_metal<V, D, Z, M, F, L, K, S, P, W, X>(
        ray_in: &Ray<V>,
        record: &HitRecord<V, T>,
        albedo: C,
        fuzz: T,
        optics: &Optics<C, T, D, Z, M, F, L, K, S, P, W, X>,
    ) -> (outcome: Option<(Ray<V>, C)>) where
        V: Copy,
        M: Fn(&V, &V) -> V,
        F: Fn(V, T) -> V,
        L: Fn(&V, &V) -> T,

        requires
            forall|direction: &V, normal: &V| call_requires(optics.mirror, (direction, normal)),
            forall|direction: V, fuzz: T| call_requires(optics.blur, (direction, fuzz)),
            forall|a: &V, b: &V| call_requires(optics.dot, (a, b)),
        ensures
            scattered_by_metal(albedo, fuzz, optics, *ray_in, *record, outcome),
    {
        let reflected = (optics.mirror)(&ray_in.direction, &record.normal);
        let direction = (optics.blur)(reflected, fuzz);
        let scattered = Ray::new(record.point, direction);
        let along = (optics.dot)(&scattered.direction, &record.normal);
        let outwards = along > optics.zero;
        let outcome = if outwards {
            Some((scattered, albedo))
        } else {
            None
        };
        proof {
            assert(blurred(optics, fuzz, *ray_in, *record, direction));
        }
        outcome
    }

    fn scatter_dielectric<V, D, Z, M, F, L, K, S, P, W, X>(
        ray_in: &Ray<V>,
        record: &HitRecord<V, T>,
        refraction_index: T,
        optics: &Optics<C, T, D, Z, M, F, L, K, S, P, W, X>,
    ) -> (outcome: Option<(Ray<V>, C)>) where
        V: Copy,
        M: Fn(&V, &V) -> V,
        K: Fn(T) -> T,
        S: Fn(&V, &V, T) -> T,
        P: Fn(&V, &V, T) -> T,
        W: Fn() -> T,
        X: Fn(&V, &V, T) -> V,

        requires
            forall|direction: &V, normal: &V| call_requires(optics.mirror, (direction, normal)),
            forall|index: T| call_requires(optics.reciprocal, (index,)),
            forall|direction: &V, normal: &V, ratio: T|
                call_requires(optics.refracted_sine, (direction, normal, ratio)),
            forall|direction: &V, normal: &V, ratio: T|
                call_requires(optics.reflectance, (direction, normal, ratio)),
            call_requires(optics.draw, ()),
            forall|direction: &V, normal: &V, ratio: T|
                call_requires(optics.refract, (direction, normal, ratio)),
        ensures
            scattered_by_dielectric(refraction_index, optics, *ray_in, *record, outcome),
            outcome is Some,
    {
        let attenuation = optics.white;
        let refraction_ratio = if record.is_front_face {
            (optics.reciprocal)(refraction_index)
        } else {
            refraction_index
        };
        let sine = (optics.refracted_sine)(&ray_in.direction, &record.normal, refraction_ratio);
        let cannot_refract = sine > optics.one;
        let direction = if cannot_refract {
            (optics.mirror)(&ray_in.direction, &record.normal)
        } else {
            let reflectance = (optics.reflectance)(
                &ray_in.direction,
                &record.normal,
                refraction_ratio,
            );
            let drawn = (optics.draw)();
            if reflectance > drawn {
                (optics.mirror)(&ray_in.direction, &record.normal)
            } else {
                (optics.refract)(&ray_in.direction, &record.normal, refraction_ratio)
            }
        };
        proof {
            assert(bent(optics, refraction_index, *ray_in, *record, direction));
        }
        Some((Ray::new(record.point, direction), attenuation))
    }
}

/// A matt surface never absorbs: it scatters every ray from the point of the
/// hit, and attenuates by its albedo and by nothing else.
pub proof fn lemma_lambertian_never_absorbs<V, T: PartialOrd, C, D, Z, M, F, L, K, S, P, W, X>(
    albedo: C,
    optics: &Optics<C, T, D, Z, M, F, L, K, S, P, W, X>,
    ray: Ray<V>,
    record: HitRecord<V, T>,
    outcome: Option<(Ray<V>, C)>,
) where
    D: Fn(&V) -> V,
    Z: Fn(&V) -> bool,
    M: Fn(&V, &V) -> V,
    F: Fn(V, T) -> V,
    L: Fn(&V, &V) -> T,
    K: Fn(T) -> T,
    S: Fn(&V, &V, T) -> T,
    P: Fn(&V, &V, T) -> T,
    W: Fn() -> T,
    X: Fn(&V, &V, T) -> V,

    requires
        scattered(Material::<C, T>::Lambertian { albedo }, optics, ray, record, outcome),
    ensures
        outcome matches Some((scattered, attenuation)) && attenuation == albedo
            && scattered.origin == record.point,
{
}

/// A metal attenuates by its albedo whenever it scatters, and scatters only
/// into a direction whose dot product with the normal compares above zero.
pub proof fn lemma_metal_scatters_outwards<V, T: PartialOrd, C, D, Z, M, F, L, K, S, P, W, X>(
    albedo: C,
    fuzz: T,
    optics: &Optics<C, T, D, Z, M, F, L, K, S, P, W, X>,
    ray: Ray<V>,
    record: HitRecord<V, T>,
    outcome: Option<(Ray<V>, C)>,
) where
    D: Fn(&V) -> V,
    Z: Fn(&V) -> bool,
    M: Fn(&V, &V) -> V,
    F: Fn(V, T) -> V,
    L: Fn(&V, &V) -> T,
    K: Fn(T) -> T,
    S: Fn(&V, &V, T) -> T,
    P: Fn(&V, &V, T) -> T,
    W: Fn() -> T,
    X: Fn(&V, &V, T) -> V,

    requires
        scattered(Material::<C, T>::Metal { albedo, fuzz }, optics, ray, record, outcome),
    ensures
        outcome matches Some((scattered, attenuation)) ==> attenuation == albedo
            && scattered.origin == record.point && blurred(
            optics,
            fuzz,
            ray,
            record,
            scattered.direction,
        ) && leaving(optics, record, scattered.direction, true),
{
}

/// With a fuzz that blurs nothing, a metal is a mirror: where blurring by
/// `fuzz` can only give back the direction it is given, every direction that
/// the metal scatters `ray` into is a mirror direction of the ray.
pub proof fn lemma_unblurred_metal_is_a_mirror<V, T: PartialOrd, C, D, Z, M, F, L, K, S, P, W, X>(
    albedo: C,
    fuzz: T,
    optics: &Optics<C, T, D, Z, M, F, L, K, S, P, W, X>,
    ray: Ray<V>,
    record: HitRecord<V, T>,
    outcome: Option<(Ray<V>, C)>,
) where
    D: Fn(&V) -> V,
    Z: Fn(&V) -> bool,
    M: Fn(&V, &V) -> V,
    F: Fn(V, T) -> V,
    L: Fn(&V, &V) -> T,
    K: Fn(T) -> T,
    S: Fn(&V, &V, T) -> T,
    P: Fn(&V, &V, T) -> T,
    W: Fn() -> T,
    X: Fn(&V, &V, T) -> V,

    requires
        scattered(Material::<C, T>::Metal { albedo, fuzz }, optics, ray, record, outcome),
        forall|direction: V, blurred: V| #[trigger]
            call_ensures(optics.blur, (direction, fuzz), blurred) ==> blurred == direction,
    ensures
        outcome matches Some((scattered, attenuation)) ==> call_ensures(
            optics.mirror,
            (&ray.direction, &record.normal),
            scattered.direction,
        ),
{
}

/// Clear matter never absorbs, and attenuates by white.
pub proof fn lemma_dielectric_never_absorbs<V, T: PartialOrd, C, D, Z, M, F, L, K, S, P, W, X>(
    refraction_index: T,
    optics: &Optics<C, T, D, Z, M, F, L, K, S, P, W, X>,
    ray: Ray<V>,
    record: HitRecord<V, T>,
    outcome: Option<(Ray<V>, C)>,
) where
    D: Fn(&V) -> V,
    Z: Fn(&V) -> bool,
    M: Fn(&V, &V) -> V,
    F: Fn(V, T) -> V,
    L: Fn(&V, &V) -> T,
    K: Fn(T) -> T,
    S: Fn(&V, &V, T) -> T,
    P: Fn(&V, &V, T) -> T,
    W: Fn() -> T,
    X: Fn(&V, &V, T) -> V,

    requires
        scattered(Material::<C, T>::Dielectric { refraction_index }, optics, ray, record, outcome),
    ensures
        outcome matches Some((scattered, attenuation)) && attenuation == optics.white
            && scattered.origin == record.point,
{
}

/// Where the sine of the refracted angle cannot compare above one for a ray,
/// clear matter reflects that ray by chance alone: every direction it sends
/// the ray into is one that the draw against the reflectance allows.
pub proof fn lemma_refraction_is_by_chance<V, T: PartialOrd, C, D, Z, M, F, L, K, S, P, W, X>(
    refraction_index: T,
    optics: &Optics<C, T, D, Z, M, F, L, K, S, P, W, X>,
    ray: Ray<V>,
    record: HitRecord<V, T>,
    direction: V,
) where
    M: Fn(&V, &V) -> V,
    K: Fn(T) -> T,
    S: Fn(&V, &V, T) -> T,
    P: Fn(&V, &V, T) -> T,
    W: Fn() -> T,
    X: Fn(&V, &V, T) -> V,

    requires
        bent(optics, refraction_index, ray, record, direction),
        forall|ratio: T, sine: T, over: bool|
            ratio_at(optics, refraction_index, record, ratio) && #[trigger] call_ensures(
                optics.refracted_sine,
                (&ray.direction, &record.normal, ratio),
                sine,
            ) && #[trigger] above(sine, optics.one, over) ==> !over,
    ensures
        exists|ratio: T| #[trigger]
            ratio_at(optics, refraction_index, record, ratio) && reflected_by_chance(
                optics,
                ratio,
                ray,
                record,
                direction,
            ),
{
}

} // verus!
