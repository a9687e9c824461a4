//! Comparisons of values whose order the caller's type defines.
//!
//! What a comparison answers is known only through the comparison itself, so
//! each predicate here says which answers a comparison can give.

use vstd::prelude::*;

verus! {

/// Whether `a < b` can answer `less`.
pub open spec fn below<T: PartialOrd>(a: T, b: T, less: bool) -> bool {
    call_ensures(T::lt, (&a, &b), less)
}

/// Whether `a > b` can answer `more`.
pub open spec fn above<T: PartialOrd>(a: T, b: T, more: bool) -> bool {
    call_ensures(T::gt, (&a, &b), more)
}

/// Whether `t < t_max && t > t_min` can answer `within`: whether `t` lies
/// strictly between the two bounds.
pub open spec fn inside<T: PartialOrd>(t: T, t_min: T, t_max: T, within: bool) -> bool {
    ||| below(t, t_max, false) && !within
    ||| below(t, t_max, true) && above(t, t_min, within)
}

/// Whether `clamped` can be `x` held between `min` and `max`: `min` where `x`
/// compares below it, else `max` where `x` compares above it, else `x` itself.
pub open spec fn held<T: PartialOrd>(x: T, min: T, max: T, clamped: T) -> bool {
    ||| below(x, min, true) && clamped == min
    ||| below(x, min, false) && above(x, max, true) && clamped == max
    ||| below(x, min, false) && above(x, max, false) && clamped == x
}

/// Whether `t` lies strictly between `t_min` and `t_max`.
pub fn is_inside<T: PartialOrd>(t: &T, t_min: &T, t_max: &T) -> (within: bool)
    ensures
        inside(*t, *t_min, *t_max, within),
{
    *t < *t_max && *t > *t_min
}

/// `x`, held between `min` and `max`.
pub fn clamp<T: PartialOrd>(x: T, min: T, max: T) -> (clamped: T)
    ensures
        held(x, min, max, clamped),
{
    if x < min {
        min
    } else if x > max {
        max
    } else {
        x
    }
}

/// A value that compares neither below the lower bound nor above the upper
/// one is left as it is.
pub proof fn lemma_clamp_keeps_what_fits<T: PartialOrd>(x: T, min: T, max: T, clamped: T)
    requires
        held(x, min, max, clamped),
        forall|less: bool| below(x, min, less) ==> !less,
        forall|more: bool| above(x, max, more) ==> !more,
    ensures
        clamped == x,
{
}

/// Whatever the comparisons answer, the result is one of the three arguments.
pub proof fn lemma_clamp_picks_an_argument<T: PartialOrd>(x: T, min: T, max: T, clamped: T)
    requires
        held(x, min, max, clamped),
    ensures
        clamped == x || clamped == min || clamped == max,
{
}

} // verus!
