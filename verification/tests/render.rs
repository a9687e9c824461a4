use raytracing_rs::ppm::Rgb;
use raytracing_rs::random::Random;
use raytracing_rs::render::{render_row, Sampling};
use std::cell::RefCell;
use std::sync::atomic::{AtomicUsize, Ordering};

/// A jitter that is always the same.
#[derive(Clone, Copy, Debug, PartialEq)]
struct Still;

impl Random for Still {
    fn random() -> Self {
        Still
    }

    fn random_in(_min: Self, _max: Self) -> Self {
        Still
    }
}

static DRAWS: AtomicUsize = AtomicUsize::new(0);

/// A jitter that tells how many were drawn before it.
#[derive(Clone, Copy, Debug, PartialEq)]
struct Counted(usize);

impl Random for Counted {
    fn random() -> Self {
        Counted(DRAWS.fetch_add(1, Ordering::SeqCst))
    }

    fn random_in(min: Self, _max: Self) -> Self {
        min
    }
}

fn sum_pixel(sum: i64, samples: i32) -> Rgb {
    Rgb { r: sum as u8, g: samples as u8, b: 0 }
}

#[test]
fn row_has_one_pixel_per_column() {
    let sampling = Sampling {
        zero: 0i64,
        sample: |_column: usize, _scanline: usize, _du: Still, _dv: Still| 1i64,
        accumulate: |sum: i64, drawn: i64| sum + drawn,
        encode: sum_pixel,
    };
    for width in [0, 1, 2, 17] {
        assert_eq!(render_row(width, 0, 3, &sampling).len(), width);
    }
}

#[test]
fn each_pixel_is_the_encoded_sum_of_its_samples() {
    let sampling = Sampling {
        zero: 0i64,
        sample: |column: usize, scanline: usize, _du: Still, _dv: Still| {
            (10 * scanline + column) as i64
        },
        accumulate: |sum: i64, drawn: i64| sum + drawn,
        encode: sum_pixel,
    };
    let row = render_row(4, 2, 5, &sampling);
    assert_eq!(
        row,
        vec![
            Rgb { r: 100, g: 5, b: 0 },
            Rgb { r: 105, g: 5, b: 0 },
            Rgb { r: 110, g: 5, b: 0 },
            Rgb { r: 115, g: 5, b: 0 },
        ]
    );
}

#[test]
fn samples_are_taken_pixel_by_pixel_from_the_left() {
    let log = RefCell::new(Vec::new());
    let sampling = Sampling {
        zero: 0i64,
        sample: |column: usize, scanline: usize, _du: Still, _dv: Still| {
            log.borrow_mut().push((column, scanline));
            0i64
        },
        accumulate: |sum: i64, drawn: i64| sum + drawn,
        encode: sum_pixel,
    };
    render_row(3, 7, 2, &sampling);
    assert_eq!(*log.borrow(), vec![(0, 7), (0, 7), (1, 7), (1, 7), (2, 7), (2, 7)]);
}

#[test]
fn two_jitters_are_drawn_for_each_sample() {
    let log = RefCell::new(Vec::new());
    let sampling = Sampling {
        zero: 0i64,
        sample: |_column: usize, _scanline: usize, du: Counted, dv: Counted| {
            log.borrow_mut().push((du.0, dv.0));
            0i64
        },
        accumulate: |sum: i64, drawn: i64| sum + drawn,
        encode: sum_pixel,
    };
    let first = DRAWS.load(Ordering::SeqCst);
    render_row(2, 0, 3, &sampling);
    let expected: Vec<(usize, usize)> =
        (0..6).map(|n| (first + 2 * n, first + 2 * n + 1)).collect();
    assert_eq!(*log.borrow(), expected);
    assert_eq!(DRAWS.load(Ordering::SeqCst), first + 12);
}

#[test]
fn samples_are_summed_in_the_order_taken() {
    let taken = RefCell::new(0i64);
    let sampling = Sampling {
        zero: 5i64,
        sample: |_column: usize, _scanline: usize, _du: Still, _dv: Still| {
            *taken.borrow_mut() += 1;
            *taken.borrow()
        },
        // keeps only the last two digits' worth of history: order shows
        accumulate: |sum: i64, drawn: i64| 3 * sum - drawn,
        encode: |sum: i64, _samples: i32| Rgb { r: sum as u8, g: 0, b: 0 },
    };
    let row = render_row(1, 0, 3, &sampling);
    // ((5 * 3 - 1) * 3 - 2) * 3 - 3 = 117
    assert_eq!(row, vec![Rgb { r: 117, g: 0, b: 0 }]);
}

#[test]
fn no_samples_encode_zero() {
    let log = RefCell::new(0usize);
    let sampling = Sampling {
        zero: 42i64,
        sample: |_column: usize, _scanline: usize, _du: Still, _dv: Still| {
            *log.borrow_mut() += 1;
            1i64
        },
        accumulate: |sum: i64, drawn: i64| sum + drawn,
        encode: |sum: i64, samples: i32| Rgb { r: sum as u8, g: (samples + 10) as u8, b: 0 },
    };
    assert_eq!(render_row(2, 0, 0, &sampling), vec![Rgb { r: 42, g: 10, b: 0 }; 2]);
    assert_eq!(render_row(1, 0, -4, &sampling), vec![Rgb { r: 42, g: 6, b: 0 }]);
    assert_eq!(*log.borrow(), 0);
}
