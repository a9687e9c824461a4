//! The output format: a plain-text image of one line per pixel.
//!
//! The text opens with three header lines: the mark of the plain pixmap
//! format, the width and the height, and the largest value of a channel. One
//! line per pixel follows, holding the red, green and blue channels in decimal
//! with a space between them.

use vstd::prelude::*;
use vstd::string::*;
use crate::image::ImageSize;

verus! {

/// A pixel as it is written out: each channel an integer from 0 to 255.
#[derive(Clone, Copy, PartialEq, Eq, Debug, Structural)]
pub struct Rgb {
    pub r: u8,
    pub g: u8,
    pub b: u8,
}

/// The character of the decimal digit `d`.
pub open spec fn digit_char(d: int) -> char {
    if d == 0 {
        '0'
    } else if d == 1 {
        '1'
    } else if d == 2 {
        '2'
    } else if d == 3 {
        '3'
    } else if d == 4 {
        '4'
    } else if d == 5 {
        '5'
    } else if d == 6 {
        '6'
    } else if d == 7 {
        '7'
    } else if d == 8 {
        '8'
    } else {
        '9'
    }
}

/// The digit that `c` stands for; 0 where `c` is no digit.
pub open spec fn digit_value(c: char) -> int {
    if c == '1' {
        1
    } else if c == '2' {
        2
    } else if c == '3' {
        3
    } else if c == '4' {
        4
    } else if c == '5' {
        5
    } else if c == '6' {
        6
    } else if c == '7' {
        7
    } else if c == '8' {
        8
    } else if c == '9' {
        9
    } else {
        0
    }
}

/// Whether `c` is one of the ten decimal digits.
pub open spec fn is_digit(c: char) -> bool {
    c == '0' || digit_value(c) != 0
}

/// `n` in decimal, without leading zeros.
pub open spec fn decimal(n: nat) -> Seq<char>
    decreases n,
{
    if n < 10 {
        seq![digit_char(n as int)]
    } else {
        decimal(n / 10).push(digit_char((n % 10) as int))
    }
}

/// The number that the digits of `text` spell.
pub open spec fn decimal_value(text: Seq<char>) -> nat
    decreases text.len(),
{
    if text.len() == 0 {
        0
    } else {
        (decimal_value(text.drop_last()) * 10 + digit_value(text.last())) as nat
    }
}

/// The line of one pixel.
pub open spec fn pixel_text(pixel: Rgb) -> Seq<char> {
    decimal(pixel.r as nat) + seq![' '] + decimal(pixel.g as nat) + seq![' '] + decimal(
        pixel.b as nat,
    )
}

/// The three header lines, without the line break after the last.
pub open spec fn header_text(width: nat, height: nat) -> Seq<char> {
    seq!['P', '3', '\n'] + decimal(width) + seq![' '] + decimal(height) + seq![
        '\n',
        '2',
        '5',
        '5',
    ]
}

/// The lines of `pixels` in order, with a line break between two lines.
pub open spec fn body_text(pixels: Seq<Rgb>) -> Seq<char>
    decreases pixels.len(),
{
    if pixels.len() == 0 {
        Seq::empty()
    } else if pixels.len() == 1 {
        pixel_text(pixels[0])
    } else {
        body_text(pixels.drop_last()) + seq!['\n'] + pixel_text(pixels.last())
    }
}

/// The whole image: header, pixel lines, and a closing line break.
pub open spec fn image_text(width: nat, height: nat, pixels: Seq<Rgb>) -> Seq<char> {
    header_text(width, height) + seq!['\n'] + body_text(pixels) + seq!['\n']
}

/// The decimal form of a number is made of digits, is not empty, and starts
/// with a zero only for zero itself.
pub proof fn lemma_decimal_is_canonical(n: nat)
    ensures
        decimal(n).len() >= 1,
        forall|i: int| 0 <= i < decimal(n).len() ==> is_digit(#[trigger] decimal(n)[i]),
        decimal(n)[0] == '0' <==> n == 0,
    decreases n,
{
    if n >= 10 {
        lemma_decimal_is_canonical(n / 10);
    }
}

/// Reading the decimal form of a number gives the number back.
pub proof fn lemma_decimal_round_trip(n: nat)
    ensures
        decimal_value(decimal(n)) == n,
    decreases n,
{
    if n < 10 {
        assert(decimal_value(decimal(n).drop_last()) == 0);
    } else {
        lemma_decimal_round_trip(n / 10);
        assert(decimal(n).drop_last() =~= decimal(n / 10));
    }
}

/// Two numbers with the same decimal form are equal.
pub proof fn lemma_decimal_injective(a: nat, b: nat)
    requires
        decimal(a) == decimal(b),
    ensures
        a == b,
{
    lemma_decimal_round_trip(a);
    lemma_decimal_round_trip(b);
}

fn digit_text(d: usize) -> (text: &'static str)
    requires
        d < 10,
    ensures
        text@ == seq![digit_char(d as int)],
{
    proof {
        reveal_strlit("0");
        reveal_strlit("1");
        reveal_strlit("2");
        reveal_strlit("3");
        reveal_strlit("4");
        reveal_strlit("5");
        reveal_strlit("6");
        reveal_strlit("7");
        reveal_strlit("8");
        reveal_strlit("9");
    }
    let text = if d == 0 {
        "0"
    } else if d == 1 {
        "1"
    } else if d == 2 {
        "2"
    } else if d == 3 {
        "3"
    } else if d == 4 {
        "4"
    } else if d == 5 {
        "5"
    } else if d == 6 {
        "6"
    } else if d == 7 {
        "7"
    } else if d == 8 {
        "8"
    } else {
        "9"
    };
    text
}

fn push_decimal(text: &mut String, n: usize)
    ensures
        final(text)@ == old(text)@ + decimal(n as nat),
    decreases n,
{
    if n >= 10 {
        push_decimal(text, n / 10);
    }
    text.append(digit_text(n % 10));
}

fn push_pixel(text: &mut String, pixel: Rgb)
    ensures
        final(text)@ == old(text)@ + pixel_text(pixel),
{
    proof {
        reveal_strlit(" ");
    }
    push_decimal(text, pixel.r as usize);
    text.append(" ");
    push_decimal(text, pixel.g as usize);
    text.append(" ");
    push_decimal(text, pixel.b as usize);
}

impl Rgb {
    /// The pixel's line in the output: the three channels in decimal, with a
    /// space between them.
    pub fn to_rgb_string(&self) -> (line: String)
        ensures
            line@ == pixel_text(*self),
    {
        let mut line = String::new();
        push_pixel(&mut line, *self);
        line
    }
}

/// The header of an image of the given size.
pub fn header(size: ImageSize) -> (text: String)
    ensures
        text@ == header_text(size.width() as nat, size.height() as nat),
{
    proof {
        reveal_strlit("P3\n");
        reveal_strlit(" ");
        reveal_strlit("\n255");
    }
    let mut text = String::new();
    text.append("P3\n");
    push_decimal(&mut text, size.width());
    text.append(" ");
    push_decimal(&mut text, size.height());
    text.append("\n255");
    text
}

/// The image made of `pixels`, listed from the top left, as text.
pub fn encode(size: ImageSize, pixels: &Vec<Rgb>) -> (text: String)
    ensures
        text@ == image_text(size.width() as nat, size.height() as nat, pixels@),
{
    proof {
        reveal_strlit("\n");
    }
    let mut text = header(size);
    text.append("\n");
    let ghost opening = text@;
    let mut i: usize = 0;
    while i < pixels.len()
        invariant
            i <= pixels.len(),
            "\n"@ == seq!['\n'],
            text@ == opening + body_text(pixels@.take(i as int)),
        decreases pixels.len() - i,
    {
        if i > 0 {
            text.append("\n");
        }
        push_pixel(&mut text, pixels[i]);
        proof {
            let done = pixels@.take(i + 1);
            assert(done.drop_last() =~= pixels@.take(i as int));
        }
        i += 1;
    }
    text.append("\n");
    proof {
        assert(pixels@.take(i as int) =~= pixels@);
    }
    text
}

} // verus!
