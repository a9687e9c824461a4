//! The scheduler: the partition of an image into units of work, and the
//! buffer that gathers finished units.
//!
//! A unit of work is one scanline. One hand-over per scanline keeps the
//! dispatch cheap; the price is that scanlines of uneven cost balance the
//! workers less well than single pixels would.
//!
//! Each unit names the slots that its pixels are bound for, so the buffer ends
//! up the same in whatever order the units come back.

use vstd::prelude::*;
use crate::image::{
    column_of, lemma_position_of_slot, lemma_slot_in_range, lemma_slot_of_position, scanline_of,
    slot_of, ImageSize,
};
use crate::ppm::Rgb;

verus! {

/// One scanline to render, and the slots `start..end` that its pixels fill.
#[derive(Clone, Copy, PartialEq, Eq, Debug, Structural)]
pub struct WorkUnit {
    pub scanline: usize,
    pub start: usize,
    pub end: usize,
}

impl WorkUnit {
    /// Whether the unit is a scanline of an image of `width` by `height`
    /// pixels, with the slots of that scanline.
    pub open spec fn is_row_of(self, width: int, height: int) -> bool {
        &&& self.scanline < height
        &&& self.start == slot_of(width, height, 0, self.scanline as int)
        &&& self.end == self.start + width
    }
}

/// The unit of `scanline`, if the image has that scanline.
pub fn row_unit(size: ImageSize, scanline: usize) -> (unit: Option<WorkUnit>)
    ensures
        unit is Some <==> scanline < size.height(),
        unit matches Some(u) ==> {
            &&& u.scanline == scanline
            &&& u.is_row_of(size.width() as int, size.height() as int)
            &&& u.end <= size.spec_pixel_count()
        },
{
    if scanline < size.height() {
        // the count is asked for what it tells: that it fits in a `usize`
        let count = size.pixel_count();
        let width = size.width();
        let above = size.height() - 1 - scanline;
        proof {
            assert(count == width * size.height());
            assert(0 <= above * width && above * width + width <= size.height() * width)
                by (nonlinear_arith)
                requires
                    0 <= above < size.height(),
                    0 <= width,
            ;
            assert(size.height() * width == width * size.height()) by (nonlinear_arith);
        }
        let start = above * width;
        Some(WorkUnit { scanline, start, end: start + width })
    } else {
        None
    }
}

/// The units of an image in the order in which they are dispatched: the top
/// scanline first, so the unit dispatched as number `k` fills row `k` of the
/// output.
pub fn row_units(size: ImageSize) -> (units: Vec<WorkUnit>)
    ensures
        units@.len() == size.height(),
        forall|k: int|
            0 <= k < units@.len() ==> {
                &&& (#[trigger] units@[k]).scanline == size.height() - 1 - k
                &&& units@[k].is_row_of(size.width() as int, size.height() as int)
                &&& units@[k].start == k * size.width()
                &&& units@[k].end <= size.spec_pixel_count()
            },
{
    let height = size.height();
    let mut units: Vec<WorkUnit> = Vec::new();
    let mut k: usize = 0;
    while k < height
        invariant
            k <= height,
            height == size.height(),
            units@.len() == k,
            forall|n: int|
                0 <= n < k ==> {
                    &&& (#[trigger] units@[n]).scanline == size.height() - 1 - n
                    &&& units@[n].is_row_of(size.width() as int, size.height() as int)
                    &&& units@[n].start == n * size.width()
                    &&& units@[n].end <= size.spec_pixel_count()
                },
        decreases height - k,
    {
        if let Some(unit) = row_unit(size, height - 1 - k) {
            proof {
                let above = size.height() - 1 - unit.scanline;
                assert(above * size.width() == k * size.width()) by (nonlinear_arith)
                    requires
                        above == k,
                ;
            }
            units.push(unit);
        }
        k += 1;
    }
    units
}

/// Why a finished unit was not taken into the buffer.
#[derive(Clone, Copy, PartialEq, Eq, Debug, Structural)]
pub enum PlaceError {
    /// The unit's slots are not a range of the buffer.
    OutOfBounds,
    /// The unit came with more or fewer pixels than it has slots.
    LengthMismatch,
}

/// The buffer `slots` after `pixels` were written to the slots from `start` on.
pub open spec fn placed(slots: Seq<Option<Rgb>>, start: int, pixels: Seq<Rgb>) -> Seq<
    Option<Rgb>,
> {
    Seq::new(
        slots.len(),
        |i: int|
            if start <= i < start + pixels.len() {
                Some(pixels[i - start])
            } else {
                slots[i]
            },
    )
}

/// Whether a buffer of `len` slots takes `pixels` for `unit`.
pub open spec fn accepts(len: int, unit: WorkUnit, pixels: Seq<Rgb>) -> bool {
    unit.start <= unit.end <= len && pixels.len() == unit.end - unit.start
}

/// The buffer `slots` after `unit` came back with `pixels`: written to the
/// unit's slots where the buffer takes them, unchanged where it does not.
pub open spec fn taken(slots: Seq<Option<Rgb>>, unit: WorkUnit, pixels: Seq<Rgb>) -> Seq<
    Option<Rgb>,
> {
    if accepts(slots.len() as int, unit, pixels) {
        placed(slots, unit.start as int, pixels)
    } else {
        slots
    }
}

/// The buffer `slots` after the units of `arrivals` came back in that order,
/// each with its pixels.
pub open spec fn aggregate(slots: Seq<Option<Rgb>>, arrivals: Seq<(WorkUnit, Seq<Rgb>)>) -> Seq<
    Option<Rgb>,
>
    decreases arrivals.len(),
{
    if arrivals.len() == 0 {
        slots
    } else {
        taken(aggregate(slots, arrivals.drop_last()), arrivals.last().0, arrivals.last().1)
    }
}

/// Whether `slot` is one of the slots of `unit`.
pub open spec fn covers(unit: WorkUnit, slot: int) -> bool {
    unit.start <= slot < unit.end
}

/// Whether `a` and `b` have a slot in common.
pub open spec fn overlap(a: WorkUnit, b: WorkUnit) -> bool {
    a.start < b.end && b.start < a.end && a.start < a.end && b.start < b.end
}

/// Whether a buffer of `len` slots takes every arrival.
pub open spec fn all_accepted(len: int, arrivals: Seq<(WorkUnit, Seq<Rgb>)>) -> bool {
    forall|k: int|
        0 <= k < arrivals.len() ==> accepts(len, (#[trigger] arrivals[k]).0, arrivals[k].1)
}

/// Whether no slot is claimed by two different arrivals: arrivals whose units
/// share a slot are the same unit with the same pixels.
pub open spec fn consistent(arrivals: Seq<(WorkUnit, Seq<Rgb>)>) -> bool {
    forall|j: int, k: int|
        0 <= j < arrivals.len() && 0 <= k < arrivals.len() && overlap(
            (#[trigger] arrivals[j]).0,
            (#[trigger] arrivals[k]).0,
        ) ==> arrivals[j] == arrivals[k]
}

/// The pixels of an image, each in its slot once the unit that holds it has
/// come back.
pub struct FrameBuffer {
    size: ImageSize,
    slots: Vec<Option<Rgb>>,
}

impl View for FrameBuffer {
    type V = Seq<Option<Rgb>>;

    closed spec fn view(&self) -> Seq<Option<Rgb>> {
        self.slots@
    }
}

impl FrameBuffer {
    #[verifier::type_invariant]
    spec fn sized(self) -> bool {
        self.slots@.len() == self.size.spec_pixel_count()
    }

    /// The size of the image that the buffer is for.
    pub closed spec fn spec_size(&self) -> ImageSize {
        self.size
    }

    /// Whether every slot holds a pixel.
    pub open spec fn spec_is_complete(&self) -> bool {
        forall|i: int| 0 <= i < self@.len() ==> (#[trigger] self@[i]) is Some
    }

    /// A buffer for an image of `size`, with every slot still empty.
    pub fn new(size: ImageSize) -> (buffer: FrameBuffer)
        ensures
            buffer.spec_size() == size,
            buffer@.len() == size.spec_pixel_count(),
            forall|i: int| 0 <= i < buffer@.len() ==> (#[trigger] buffer@[i]) is None,
    {
        let count = size.pixel_count();
        let mut slots: Vec<Option<Rgb>> = Vec::new();
        let mut i: usize = 0;
        while i < count
            invariant
                i <= count,
                slots@.len() == i,
                forall|n: int| 0 <= n < i ==> (#[trigger] slots@[n]) is None,
            decreases count - i,
        {
            slots.push(None);
            i += 1;
        }
        FrameBuffer { size, slots }
    }

    /// The size of the image that the buffer is for.
    #[verifier::when_used_as_spec(spec_size)]
    pub fn size(&self) -> (size: ImageSize)
        ensures
            size == self.spec_size(),
    {
        self.size
    }

    /// Writes the pixels of a finished unit into the unit's slots. Pixels that
    /// were there before are replaced. A unit that does not fit the buffer, or
    /// whose pixels do not fit the unit, changes nothing.
    pub fn place(&mut self, unit: WorkUnit, pixels: &Vec<Rgb>) -> (outcome: Result<(), PlaceError>)
        ensures
            final(self).spec_size() == old(self).spec_size(),
            final(self)@.len() == old(self)@.len(),
            final(self)@.len() == final(self).spec_size().spec_pixel_count(),
            final(self)@ == taken(old(self)@, unit, pixels@),
            outcome is Ok <==> accepts(old(self)@.len() as int, unit, pixels@),
            outcome == Err::<(), PlaceError>(PlaceError::OutOfBounds) <==> !(unit.start <= unit.end
                <= old(self)@.len()),
            outcome == Err::<(), PlaceError>(PlaceError::LengthMismatch) <==> unit.start <= unit.end
                <= old(self)@.len() && pixels@.len() != unit.end - unit.start,
    {
        proof {
            use_type_invariant(&*self);
        }
        if unit.start > unit.end || unit.end > self.slots.len() {
            return Err(PlaceError::OutOfBounds);
        }
        if pixels.len() != unit.end - unit.start {
            return Err(PlaceError::LengthMismatch);
        }
        let mut i: usize = 0;
        while i < pixels.len()
            invariant
                i <= pixels.len(),
                unit.start + pixels.len() == unit.end,
                unit.end <= self.slots@.len(),
                self.size == old(self).size,
                self.slots@.len() == old(self).slots@.len(),
                self.slots@.len() == self.size.spec_pixel_count(),
                self.slots@ == placed(old(self).slots@, unit.start as int, pixels@.take(i as int)),
            decreases pixels.len() - i,
        {
            self.slots[unit.start + i] = Some(pixels[i]);
            i += 1;
        }
        proof {
            assert(pixels@.take(i as int) =~= pixels@);
        }
        Ok(())
    }

    /// Whether every slot holds a pixel.
    #[verifier::when_used_as_spec(spec_is_complete)]
    pub fn is_complete(&self) -> (complete: bool)
        ensures
            complete == self.spec_is_complete(),
            self@.len() == self.spec_size().spec_pixel_count(),
    {
        proof {
            use_type_invariant(self);
        }
        let mut i: usize = 0;
        while i < self.slots.len()
            invariant
                i <= self.slots@.len(),
                self.slots@.len() == self.size.spec_pixel_count(),
                forall|n: int| 0 <= n < i ==> (#[trigger] self.slots@[n]) is Some,
            decreases self.slots.len() - i,
        {
            if self.slots[i].is_none() {
                return false;
            }
            i += 1;
        }
        true
    }

    /// The finished image, from the top left: every slot's pixel, once every
    /// slot holds one.
    pub fn into_pixels(self) -> (pixels: Option<Vec<Rgb>>)
        ensures
            pixels is Some <==> self.spec_is_complete(),
            pixels matches Some(image) ==> {
                &&& image@.len() == self@.len()
                &&& image@.len() == self.spec_size().spec_pixel_count()
                &&& forall|i: int| 0 <= i < image@.len() ==> self@[i] == Some(#[trigger] image@[i])
            },
    {
        proof {
            use_type_invariant(&self);
        }
        let mut image: Vec<Rgb> = Vec::new();
        let mut i: usize = 0;
        while i < self.slots.len()
            invariant
                i <= self.slots@.len(),
                self.slots@.len() == self.size.spec_pixel_count(),
                image@.len() == i,
                forall|n: int| 0 <= n < i ==> (#[trigger] self.slots@[n]) is Some,
                forall|n: int| 0 <= n < i ==> self.slots@[n] == Some(#[trigger] image@[n]),
            decreases self.slots.len() - i,
        {
            match self.slots[i] {
                Some(pixel) => {
                    image.push(pixel);
                },
                None => {
                    return None;
                },
            }
            i += 1;
        }
        Some(image)
    }
}

/// The buffer keeps its length, whatever comes back.
pub proof fn lemma_aggregate_len(slots: Seq<Option<Rgb>>, arrivals: Seq<(WorkUnit, Seq<Rgb>)>)
    ensures
        aggregate(slots, arrivals).len() == slots.len(),
    decreases arrivals.len(),
{
    if arrivals.len() > 0 {
        lemma_aggregate_len(slots, arrivals.drop_last());
    }
}

/// A slot that no arrival covers keeps what it held.
pub proof fn lemma_aggregate_untouched(
    slots: Seq<Option<Rgb>>,
    arrivals: Seq<(WorkUnit, Seq<Rgb>)>,
    slot: int,
)
    requires
        0 <= slot < slots.len(),
        forall|k: int| 0 <= k < arrivals.len() ==> !covers((#[trigger] arrivals[k]).0, slot),
    ensures
        aggregate(slots, arrivals)[slot] == slots[slot],
    decreases arrivals.len(),
{
    if arrivals.len() > 0 {
        let earlier = arrivals.drop_last();
        assert forall|k: int| 0 <= k < earlier.len() implies !covers(
            (#[trigger] earlier[k]).0,
            slot,
        ) by {
            assert(earlier[k] == arrivals[k]);
        }
        lemma_aggregate_untouched(slots, earlier, slot);
        lemma_aggregate_len(slots, earlier);
        assert(!covers(arrivals[arrivals.len() - 1].0, slot));
    }
}

/// Each pixel ends in the slot that its unit names, wherever in the order of
/// arrival the unit stands: after arrivals that the buffer takes and that
/// claim no slot twice, a slot covered by an arrival holds that arrival's
/// pixel for the slot.
pub proof fn lemma_aggregate_slot(
    slots: Seq<Option<Rgb>>,
    arrivals: Seq<(WorkUnit, Seq<Rgb>)>,
    k: int,
    slot: int,
)
    requires
        all_accepted(slots.len() as int, arrivals),
        consistent(arrivals),
        0 <= k < arrivals.len(),
        covers(arrivals[k].0, slot),
    ensures
        aggregate(slots, arrivals)[slot] == Some(arrivals[k].1[slot - arrivals[k].0.start]),
    decreases arrivals.len(),
{
    let earlier = arrivals.drop_last();
    let last = arrivals.len() - 1;
    lemma_aggregate_len(slots, earlier);
    assert(accepts(slots.len() as int, arrivals[last].0, arrivals[last].1));
    assert(accepts(slots.len() as int, arrivals[k].0, arrivals[k].1));
    if covers(arrivals[last].0, slot) {
        assert(overlap(arrivals[k].0, arrivals[last].0));
        assert(arrivals[k] == arrivals[last]);
    } else {
        assert(k < last);
        assert forall|n: int| 0 <= n < earlier.len() implies accepts(
            slots.len() as int,
            (#[trigger] earlier[n]).0,
            earlier[n].1,
        ) by {
            assert(earlier[n] == arrivals[n]);
        }
        assert forall|m: int, n: int|
            0 <= m < earlier.len() && 0 <= n < earlier.len() && overlap(
                (#[trigger] earlier[m]).0,
                (#[trigger] earlier[n]).0,
            ) implies earlier[m] == earlier[n] by {
            assert(earlier[m] == arrivals[m]);
            assert(earlier[n] == arrivals[n]);
        }
        assert(earlier[k] == arrivals[k]);
        lemma_aggregate_slot(slots, earlier, k, slot);
    }
}

/// The order in which units come back does not matter: two orders of arrival
/// that hold the same arrivals leave the same buffer, provided the buffer
/// takes them and they claim no slot twice.
pub proof fn lemma_order_does_not_matter(
    slots: Seq<Option<Rgb>>,
    first: Seq<(WorkUnit, Seq<Rgb>)>,
    second: Seq<(WorkUnit, Seq<Rgb>)>,
)
    requires
        all_accepted(slots.len() as int, first),
        consistent(first),
        forall|arrival: (WorkUnit, Seq<Rgb>)|
            first.contains(arrival) <==> second.contains(arrival),
    ensures
        aggregate(slots, first) == aggregate(slots, second),
{
    lemma_aggregate_len(slots, first);
    lemma_aggregate_len(slots, second);
    assert forall|k: int| 0 <= k < second.len() implies accepts(
        slots.len() as int,
        (#[trigger] second[k]).0,
        second[k].1,
    ) by {
        assert(second.contains(second[k]));
        let j = choose|j: int| 0 <= j < first.len() && first[j] == second[k];
        assert(accepts(slots.len() as int, first[j].0, first[j].1));
    }
    assert forall|m: int, n: int|
        0 <= m < second.len() && 0 <= n < second.len() && overlap(
            (#[trigger] second[m]).0,
            (#[trigger] second[n]).0,
        ) implies second[m] == second[n] by {
        assert(second.contains(second[m]));
        assert(second.contains(second[n]));
        let i = choose|i: int| 0 <= i < first.len() && first[i] == second[m];
        let j = choose|j: int| 0 <= j < first.len() && first[j] == second[n];
        assert(overlap(first[i].0, first[j].0));
    }
    assert forall|slot: int| 0 <= slot < slots.len() implies aggregate(slots, first)[slot]
        == aggregate(slots, second)[slot] by {
        if exists|k: int| 0 <= k < first.len() && covers((#[trigger] first[k]).0, slot) {
            let k = choose|k: int| 0 <= k < first.len() && covers((#[trigger] first[k]).0, slot);
            assert(first.contains(first[k]));
            let n = choose|n: int| 0 <= n < second.len() && second[n] == first[k];
            lemma_aggregate_slot(slots, first, k, slot);
            lemma_aggregate_slot(slots, second, n, slot);
        } else {
            assert forall|n: int| 0 <= n < second.len() implies !covers(
                (#[trigger] second[n]).0,
                slot,
            ) by {
                assert(second.contains(second[n]));
                let k = choose|k: int| 0 <= k < first.len() && first[k] == second[n];
                assert(!covers(first[k].0, slot));
            }
            lemma_aggregate_untouched(slots, first, slot);
            lemma_aggregate_untouched(slots, second, slot);
        }
    }
    assert(aggregate(slots, first) =~= aggregate(slots, second));
}

/// Two units that share no slot can come back in either order.
pub proof fn lemma_taken_commutes(
    slots: Seq<Option<Rgb>>,
    a: WorkUnit,
    pixels_a: Seq<Rgb>,
    b: WorkUnit,
    pixels_b: Seq<Rgb>,
)
    requires
        !overlap(a, b),
    ensures
        taken(taken(slots, a, pixels_a), b, pixels_b) == taken(
            taken(slots, b, pixels_b),
            a,
            pixels_a,
        ),
{
    assert(taken(taken(slots, a, pixels_a), b, pixels_b) =~= taken(
        taken(slots, b, pixels_b),
        a,
        pixels_a,
    ));
}

/// The buffer of an image takes any of the image's scanlines that comes back
/// with one pixel per column.
pub proof fn lemma_row_is_accepted(width: int, height: int, unit: WorkUnit, pixels: Seq<Rgb>)
    requires
        unit.is_row_of(width, height),
        pixels.len() == width,
    ensures
        accepts(width * height, unit, pixels),
{
    if width > 0 {
        lemma_slot_in_range(width, height, 0, unit.scanline as int);
        lemma_slot_in_range(width, height, width - 1, unit.scanline as int);
    }
}

/// Two scanline units of one image that share a slot are the same scanline.
pub proof fn lemma_rows_apart(width: int, height: int, a: WorkUnit, b: WorkUnit)
    requires
        a.is_row_of(width, height),
        b.is_row_of(width, height),
        overlap(a, b),
    ensures
        a == b,
{
    let shared = if a.start < b.start {
        b.start as int
    } else {
        a.start as int
    };
    lemma_position_of_slot(width, height, shared - a.start, a.scanline as int);
    lemma_position_of_slot(width, height, shared - b.start, b.scanline as int);
}

/// Whether `arrivals` are scanlines of an image of `width` by `height` pixels,
/// each with one pixel per column, and no scanline with two different rows of
/// pixels.
pub open spec fn rows_of(width: int, height: int, arrivals: Seq<(WorkUnit, Seq<Rgb>)>) -> bool {
    &&& forall|n: int|
        0 <= n < arrivals.len() ==> (#[trigger] arrivals[n]).0.is_row_of(width, height)
            && arrivals[n].1.len() == width
    &&& forall|m: int, n: int|
        0 <= m < arrivals.len() && 0 <= n < arrivals.len() && (#[trigger] arrivals[m]).0.scanline
            == (#[trigger] arrivals[n]).0.scanline ==> arrivals[m] == arrivals[n]
}

/// Scanlines of one image are taken by its buffer and claim no slot twice.
pub proof fn lemma_rows_are_consistent(
    width: int,
    height: int,
    arrivals: Seq<(WorkUnit, Seq<Rgb>)>,
)
    requires
        rows_of(width, height, arrivals),
    ensures
        all_accepted(width * height, arrivals),
        consistent(arrivals),
{
    assert forall|n: int| 0 <= n < arrivals.len() implies accepts(
        width * height,
        (#[trigger] arrivals[n]).0,
        arrivals[n].1,
    ) by {
        lemma_row_is_accepted(width, height, arrivals[n].0, arrivals[n].1);
    }
    assert forall|m: int, n: int|
        0 <= m < arrivals.len() && 0 <= n < arrivals.len() && overlap(
            (#[trigger] arrivals[m]).0,
            (#[trigger] arrivals[n]).0,
        ) implies arrivals[m] == arrivals[n] by {
        lemma_rows_apart(width, height, arrivals[m].0, arrivals[n].0);
    }
}

/// Each pixel's place in the output is given by its column and scanline, in
/// whatever order the scanlines come back: after the scanlines of `arrivals`,
/// the slot of `column` on the scanline of any arrival holds that arrival's
/// pixel for the column.
pub proof fn lemma_rows_fill_image(
    width: int,
    height: int,
    slots: Seq<Option<Rgb>>,
    arrivals: Seq<(WorkUnit, Seq<Rgb>)>,
    k: int,
    column: int,
)
    requires
        slots.len() == width * height,
        rows_of(width, height, arrivals),
        0 <= k < arrivals.len(),
        0 <= column < width,
    ensures
        aggregate(slots, arrivals).len() == width * height,
        0 <= slot_of(width, height, column, arrivals[k].0.scanline as int) < width * height,
        aggregate(slots, arrivals)[slot_of(width, height, column, arrivals[k].0.scanline as int)]
            == Some(arrivals[k].1[column]),
{
    lemma_aggregate_len(slots, arrivals);
    lemma_rows_are_consistent(width, height, arrivals);
    let unit = arrivals[k].0;
    lemma_slot_in_range(width, height, column, unit.scanline as int);
    lemma_aggregate_slot(slots, arrivals, k, slot_of(width, height, column, unit.scanline as int));
}

/// Whether the unit of `scanline` is among `arrivals`.
pub open spec fn has_row(arrivals: Seq<(WorkUnit, Seq<Rgb>)>, scanline: int) -> bool {
    exists|n: int| 0 <= n < arrivals.len() && (#[trigger] arrivals[n]).0.scanline == scanline
}

/// Once every scanline of the image has come back, in whatever order, every
/// slot holds a pixel.
pub proof fn lemma_every_row_completes(
    width: int,
    height: int,
    slots: Seq<Option<Rgb>>,
    arrivals: Seq<(WorkUnit, Seq<Rgb>)>,
)
    requires
        0 <= width,
        slots.len() == width * height,
        rows_of(width, height, arrivals),
        forall|scanline: int| 0 <= scanline < height ==> #[trigger] has_row(arrivals, scanline),
    ensures
        aggregate(slots, arrivals).len() == width * height,
        forall|slot: int|
            0 <= slot < width * height ==> (#[trigger] aggregate(slots, arrivals)[slot]) is Some,
{
    lemma_aggregate_len(slots, arrivals);
    assert forall|slot: int| 0 <= slot < width * height implies (#[trigger] aggregate(
        slots,
        arrivals,
    )[slot]) is Some by {
        if width == 0 {
            assert(width * height == 0) by (nonlinear_arith)
                requires
                    width == 0,
            ;
        }
        lemma_slot_of_position(width, height, slot);
        let column = column_of(width, slot);
        let scanline = scanline_of(width, height, slot);
        assert(has_row(arrivals, scanline));
        let n = choose|n: int|
            0 <= n < arrivals.len() && (#[trigger] arrivals[n]).0.scanline == scanline;
        lemma_rows_fill_image(width, height, slots, arrivals, n, column);
    }
}

} // verus!
