//! The pixel encoder: from the sum of a pixel's samples to the pixel as it is
//! written out.

use vstd::prelude::*;
use crate::helpers::{clamp, held};
use crate::ppm::{pixel_text, Rgb};

verus! {

/// The numeric side of encoding a pixel, as the caller supplies it.
///
/// `T` is the type of a colour channel.
pub struct Tone<T, A, G, Q> {
    /// The least value of a channel that is told apart: darker is as dark.
    pub floor: T,
    /// The largest value of a channel that is told apart: brighter is as
    /// bright.
    pub ceiling: T,
    /// The mean of a channel, from its sum over a number of samples.
    pub average: A,
    /// The gamma correction of a channel.
    pub gamma: G,
    /// The integer from 0 to 255 that stands for a channel between `floor`
    /// and `ceiling`.
    pub scale: Q,
}

impl<T, A, G, Q> Tone<T, A, G, Q> {
    /// Whether `average`, `gamma` and `scale` can be called on every
    /// argument.
    pub open spec fn total(&self) -> bool where A: Fn(T, i32) -> T, G: Fn(T) -> T, Q: Fn(T) -> u8 {
        &&& forall|sum: T, samples: i32| call_requires(self.average, (sum, samples))
        &&& forall|mean: T| call_requires(self.gamma, (mean,))
        &&& forall|channel: T| call_requires(self.scale, (channel,))
    }
}

/// Whether `value` can stand for a channel whose samples sum to `sum`: the
/// sum is averaged over the samples, the mean is gamma-corrected, the result
/// is held between `floor` and `ceiling`, and what is left is scaled.
pub open spec fn encoded<T: PartialOrd, A, G, Q>(
    tone: &Tone<T, A, G, Q>,
    sum: T,
    samples_per_pixel: i32,
    value: u8,
) -> bool where A: Fn(T, i32) -> T, G: Fn(T) -> T, Q: Fn(T) -> u8 {
    exists|mean: T, corrected: T, kept: T| #[trigger]
        call_ensures(tone.average, (sum, samples_per_pixel), mean) && #[trigger] call_ensures(
            tone.gamma,
            (mean,),
            corrected,
        ) && held(corrected, tone.floor, tone.ceiling, kept) && #[trigger] call_ensures(
            tone.scale,
            (kept,),
            value,
        )
}

/// The integer that stands for a channel whose samples sum to `sum`.
pub fn encode_channel<T: PartialOrd + Copy, A, G, Q>(
    sum: T,
    samples_per_pixel: i32,
    tone: &Tone<T, A, G, Q>,
) -> (value: u8) where A: Fn(T, i32) -> T, G: Fn(T) -> T, Q: Fn(T) -> u8
    requires
        tone.total(),
    ensures
        encoded(tone, sum, samples_per_pixel, value),
{
    let mean = (tone.average)(sum, samples_per_pixel);
    let corrected = (tone.gamma)(mean);
    let kept = clamp(corrected, tone.floor, tone.ceiling);
    (tone.scale)(kept)
}

/// The pixel that stands for the sums `red`, `green` and `blue` of the
/// channels over the samples of a pixel.
pub fn to_rgb<T: PartialOrd + Copy, A, G, Q>(
    red: T,
    green: T,
    blue: T,
    samples_per_pixel: i32,
    tone: &Tone<T, A, G, Q>,
) -> (pixel: Rgb) where A: Fn(T, i32) -> T, G: Fn(T) -> T, Q: Fn(T) -> u8
    requires
        tone.total(),
    ensures
        encoded(tone, red, samples_per_pixel, pixel.r),
        encoded(tone, green, samples_per_pixel, pixel.g),
        encoded(tone, blue, samples_per_pixel, pixel.b),
{
    let r = encode_channel(red, samples_per_pixel, tone);
    let g = encode_channel(green, samples_per_pixel, tone);
    let b = encode_channel(blue, samples_per_pixel, tone);
    Rgb { r, g, b }
}

/// The line of the output for the pixel that stands for the sums `red`,
/// `green` and `blue` of the channels over the samples of a pixel.
pub fn to_rgb_string<T: PartialOrd + Copy, A, G, Q>(
    red: T,
    green: T,
    blue: T,
    samples_per_pixel: i32,
    tone: &Tone<T, A, G, Q>,
) -> (line: String) where A: Fn(T, i32) -> T, G: Fn(T) -> T, Q: Fn(T) -> u8
    requires
        tone.total(),
    ensures
        exists|pixel: Rgb|
            encoded(tone, red, samples_per_pixel, pixel.r) && encoded(
                tone,
                green,
                samples_per_pixel,
                pixel.g,
            ) && encoded(tone, blue, samples_per_pixel, pixel.b) && line@ == #[trigger] pixel_text(
                pixel,
            ),
{
    to_rgb(red, green, blue, samples_per_pixel, tone).to_rgb_string()
}

} // verus!
