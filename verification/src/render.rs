//! One unit of work: the pixels of a scanline, each the encoded sum of its
//! samples.

use vstd::prelude::*;
use crate::ppm::Rgb;
use crate::random::Random;

verus! {

/// The numeric side of sampling a pixel, as the caller supplies it.
///
/// `C` is the type of a colour.
pub struct Sampling<C, S, A, E> {
    /// The sum of no samples.
    pub zero: C,
    /// The colour seen through the pixel of a column and a scanline, at the
    /// offset inside the pixel that two jitters give.
    pub sample: S,
    /// The sum of a sum of samples and one more sample.
    pub accumulate: A,
    /// The pixel that stands for a sum of samples and their number.
    pub encode: E,
}

impl<C, S, A, E> Sampling<C, S, A, E> {
    /// Whether `sample`, `accumulate` and `encode` can be called on every
    /// argument.
    pub open spec fn total<J>(&self) -> bool where
        S: Fn(usize, usize, J, J) -> C,
        A: Fn(C, C) -> C,
        E: Fn(C, i32) -> Rgb,
     {
        &&& forall|column: usize, scanline: usize, du: J, dv: J|
            call_requires(self.sample, (column, scanline, du, dv))
        &&& forall|sum: C, drawn: C| call_requires(self.accumulate, (sum, drawn))
        &&& forall|sum: C, samples: i32| call_requires(self.encode, (sum, samples))
    }
}

/// Whether `sum` can be the sum of `count` samples of the pixel in `column` on
/// `scanline`: the sum of no samples is `zero`; one sample more is added by
/// `accumulate`, and is a value of `sample` at the pixel for some pair of
/// jitters.
pub open spec fn accumulated<J, C, S, A, E>(
    sampling: &Sampling<C, S, A, E>,
    column: usize,
    scanline: usize,
    count: int,
    sum: C,
) -> bool where S: Fn(usize, usize, J, J) -> C, A: Fn(C, C) -> C
    decreases count,
{
    if count <= 0 {
        sum == sampling.zero
    } else {
        exists|before: C, du: J, dv: J, drawn: C|
            accumulated::<J, C, S, A, E>(sampling, column, scanline, count - 1, before)
                && #[trigger] call_ensures(sampling.sample, (column, scanline, du, dv), drawn)
                && #[trigger] call_ensures(sampling.accumulate, (before, drawn), sum)
    }
}

/// Whether `pixel` can be the pixel in `column` on `scanline`: what `encode`
/// makes of the sum of `samples` samples and of their number.
pub open spec fn rendered<J, C, S, A, E>(
    sampling: &Sampling<C, S, A, E>,
    column: usize,
    scanline: usize,
    samples: i32,
    pixel: Rgb,
) -> bool where S: Fn(usize, usize, J, J) -> C, A: Fn(C, C) -> C, E: Fn(C, i32) -> Rgb {
    exists|sum: C|
        accumulated::<J, C, S, A, E>(sampling, column, scanline, samples as int, sum)
            && #[trigger] call_ensures(sampling.encode, (sum, samples), pixel)
}

/// Renders the scanline `scanline` of an image `width` pixels wide, from left
/// to right.
///
/// Each pixel takes `samples` samples: for each, two jitters are drawn and
/// `sample` is asked for the colour seen through the pixel at that offset.
/// The samples are summed with `accumulate`, starting from `zero`, and the sum
/// is handed to `encode` with the number of samples.
pub fn render_row<J, C, S, A, E>(
    width: usize,
    scanline: usize,
    samples: i32,
    sampling: &Sampling<C, S, A, E>,
) -> (row: Vec<Rgb>) where
    J: Random,
    C: Copy,
    S: Fn(usize, usize, J, J) -> C,
    A: Fn(C, C) -> C,
    E: Fn(C, i32) -> Rgb,

    requires
        sampling.total::<J>(),
    ensures
        row@.len() == width,
        forall|i: int|
            0 <= i < width ==> rendered::<J, C, S, A, E>(
                sampling,
                i as usize,
                scanline,
                samples,
                #[trigger] row@[i],
            ),
{
    let mut row: Vec<Rgb> = Vec::new();
    let mut i: usize = 0;
    while i < width
        invariant
            i <= width,
            row@.len() == i,
            sampling.total::<J>(),
            forall|n: int|
                0 <= n < i ==> rendered::<J, C, S, A, E>(
                    sampling,
                    n as usize,
                    scanline,
                    samples,
                    #[trigger] row@[n],
                ),
        decreases width - i,
    {
        let mut pixel = sampling.zero;
        let mut taken: i32 = 0;
        while taken < samples
            invariant
                0 <= taken,
                taken <= samples || taken == 0,
                sampling.total::<J>(),
                accumulated::<J, C, S, A, E>(sampling, i, scanline, taken as int, pixel),
            decreases samples - taken,
        {
            let du = J::random();
            let dv = J::random();
            let drawn = (sampling.sample)(i, scanline, du, dv);
            pixel = (sampling.accumulate)(pixel, drawn);
            taken += 1;
        }
        let encoded = (sampling.encode)(pixel, samples);
        row.push(encoded);
        i += 1;
    }
    row
}

/// With no sample to take, every pixel of the row is what `encode` makes of
/// `zero`.
pub proof fn lemma_no_sample_is_zero<J, C, S, A, E>(
    sampling: &Sampling<C, S, A, E>,
    column: usize,
    scanline: usize,
    samples: i32,
    pixel: Rgb,
) where S: Fn(usize, usize, J, J) -> C, A: Fn(C, C) -> C, E: Fn(C, i32) -> Rgb
    requires
        samples <= 0,
    ensures
        rendered::<J, C, S, A, E>(sampling, column, scanline, samples, pixel) <==> call_ensures(
            sampling.encode,
            (sampling.zero, samples),
            pixel,
        ),
{
}

} // verus!
