//! Random draws.

use vstd::prelude::*;

verus! {

/// A type whose values can be drawn at random.
///
/// Nothing is promised of what a draw gives: what this crate proves of a
/// function that draws holds for every outcome.
pub trait Random: Sized {
    /// A value drawn from the type's unit range.
    fn random() -> Self;

    /// A value drawn between `min` and `max`.
    fn random_in(min: Self, max: Self) -> Self;
}

} // verus!
