//! Rays.

use vstd::prelude::*;

verus! {

/// A half-line: the points `origin + t * direction` for `t` along the ray.
///
/// `V` is the caller's vector type, used for points and for directions.
pub struct Ray<V> {
    pub origin: V,
    pub direction: V,
}

impl<V> Ray<V> {
    /// The ray that starts at `origin` and runs along `direction`.
    pub fn new(origin: V, direction: V) -> (ray: Self)
        ensures
            ray.origin == origin,
            ray.direction == direction,
    {
        Ray { origin, direction }
    }
}

} // verus!
