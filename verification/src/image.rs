//! The pixel grid: its size, and where each pixel stands in the output.
//!
//! Scanlines are counted from the bottom of the image, columns from the left.
//! The output lists the pixels from the top scanline down, each scanline from
//! left to right, so the pixel of column `i` on scanline `j` stands in slot
//! `(height - 1 - j) * width + i`.

use vstd::prelude::*;

verus! {

/// The slot of the pixel in `column` on `scanline`.
pub open spec fn slot_of(width: int, height: int, column: int, scanline: int) -> int {
    (height - 1 - scanline) * width + column
}

/// The column of the pixel that stands in `slot`.
pub open spec fn column_of(width: int, slot: int) -> int {
    slot % width
}

/// The scanline of the pixel that stands in `slot`.
pub open spec fn scanline_of(width: int, height: int, slot: int) -> int {
    height - 1 - slot / width
}

/// Every pixel of the grid has a slot below `width * height`.
pub proof fn lemma_slot_in_range(width: int, height: int, column: int, scanline: int)
    requires
        0 <= column < width,
        0 <= scanline < height,
    ensures
        0 <= slot_of(width, height, column, scanline) < width * height,
{
    let row = height - 1 - scanline;
    assert(0 <= row * width && row * width + width <= height * width) by (nonlinear_arith)
        requires
            0 <= row < height,
            0 < width,
    ;
}

/// The slot of a pixel leads back to the pixel's column and scanline.
pub proof fn lemma_position_of_slot(width: int, height: int, column: int, scanline: int)
    requires
        0 <= column < width,
        0 <= scanline < height,
    ensures
        column_of(width, slot_of(width, height, column, scanline)) == column,
        scanline_of(width, height, slot_of(width, height, column, scanline)) == scanline,
{
    let row = height - 1 - scanline;
    vstd::arithmetic::div_mod::lemma_fundamental_div_mod_converse(
        row * width + column,
        width,
        row,
        column,
    );
}

/// The column and scanline of a slot lead back to the slot, and lie in the grid.
pub proof fn lemma_slot_of_position(width: int, height: int, slot: int)
    requires
        0 < width,
        0 <= slot < width * height,
    ensures
        0 <= column_of(width, slot) < width,
        0 <= scanline_of(width, height, slot) < height,
        slot_of(width, height, column_of(width, slot), scanline_of(width, height, slot)) == slot,
{
    vstd::arithmetic::div_mod::lemma_fundamental_div_mod(slot, width);
    let row = slot / width;
    assert(0 <= row < height) by (nonlinear_arith)
        requires
            0 < width,
            0 <= slot < width * height,
            slot == width * row + slot % width,
            0 <= slot % width < width,
    ;
    assert(width * row == row * width) by (nonlinear_arith);
}

/// Two pixels of the grid that share a slot are the same pixel.
pub proof fn lemma_slots_distinct(
    width: int,
    height: int,
    column_a: int,
    scanline_a: int,
    column_b: int,
    scanline_b: int,
)
    requires
        0 <= column_a < width,
        0 <= scanline_a < height,
        0 <= column_b < width,
        0 <= scanline_b < height,
        slot_of(width, height, column_a, scanline_a) == slot_of(
            width,
            height,
            column_b,
            scanline_b,
        ),
    ensures
        column_a == column_b,
        scanline_a == scanline_b,
{
    lemma_position_of_slot(width, height, column_a, scanline_a);
    lemma_position_of_slot(width, height, column_b, scanline_b);
}

/// The width and height of an image whose pixel count fits in a `usize`.
#[derive(Clone, Copy, PartialEq, Eq, Debug, Structural)]
pub struct ImageSize {
    width: usize,
    height: usize,
}

impl ImageSize {
    #[verifier::type_invariant]
    spec fn countable(self) -> bool {
        self.width * self.height <= usize::MAX
    }

    /// The number of columns.
    pub closed spec fn spec_width(&self) -> usize {
        self.width
    }

    /// The number of scanlines.
    pub closed spec fn spec_height(&self) -> usize {
        self.height
    }

    /// The number of pixels.
    pub open spec fn spec_pixel_count(&self) -> int {
        self.spec_width() * self.spec_height()
    }

    /// An image of `width` columns and `height` scanlines, unless it has more
    /// pixels than a `usize` can count.
    pub fn new(width: usize, height: usize) -> (size: Option<ImageSize>)
        ensures
            size is Some <==> width * height <= usize::MAX,
            size matches Some(s) ==> s.spec_width() == width && s.spec_height() == height,
    {
        match width.checked_mul(height) {
            Some(_) => Some(ImageSize { width, height }),
            None => None,
        }
    }

    /// The number of columns.
    #[verifier::when_used_as_spec(spec_width)]
    pub fn width(&self) -> (width: usize)
        ensures
            width == self.spec_width(),
    {
        self.width
    }

    /// The number of scanlines.
    #[verifier::when_used_as_spec(spec_height)]
    pub fn height(&self) -> (height: usize)
        ensures
            height == self.spec_height(),
    {
        self.height
    }

    /// The number of pixels.
    pub fn pixel_count(&self) -> (count: usize)
        ensures
            count == self.spec_pixel_count(),
    {
        proof {
            use_type_invariant(self);
        }
        self.width * self.height
    }

    /// The slot of the pixel in `column` on `scanline`, if the image has that
    /// pixel.
    pub fn slot(&self, column: usize, scanline: usize) -> (slot: Option<usize>)
        ensures
            slot is Some <==> column < self.width() && scanline < self.height(),
            slot matches Some(k) ==> k == slot_of(
                self.width() as int,
                self.height() as int,
                column as int,
                scanline as int,
            ),
    {
        if column < self.width && scanline < self.height {
            proof {
                use_type_invariant(self);
                lemma_slot_in_range(
                    self.width as int,
                    self.height as int,
                    column as int,
                    scanline as int,
                );
                lemma_slot_in_range(
                    self.width as int,
                    self.height as int,
                    0,
                    scanline as int,
                );
            }
            Some((self.height - 1 - scanline) * self.width + column)
        } else {
            None
        }
    }

    /// The column and the scanline of the pixel that stands in `slot`, if the
    /// image has that slot.
    pub fn position(&self, slot: usize) -> (position: Option<(usize, usize)>)
        ensures
            position is Some <==> slot < self.spec_pixel_count(),
            position matches Some((column, scanline)) ==> {
                &&& column == column_of(self.width() as int, slot as int)
                &&& scanline == scanline_of(self.width() as int, self.height() as int, slot as int)
            },
    {
        proof {
            use_type_invariant(self);
        }
        if self.width == 0 {
            assert(self.width * self.height == 0) by (nonlinear_arith)
                requires
                    self.width == 0,
            ;
            return None;
        }
        if slot < self.width * self.height {
            proof {
                lemma_slot_of_position(self.width as int, self.height as int, slot as int);
            }
            Some((slot % self.width, self.height - 1 - slot / self.width))
        } else {
            None
        }
    }
}

} // verus!
