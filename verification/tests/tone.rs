use raytracing_rs::ppm::Rgb;
use raytracing_rs::tone::{encode_channel, to_rgb, to_rgb_string, Tone};
use std::cell::RefCell;

fn average(sum: f64, samples_per_pixel: i32) -> f64 {
    sum / f64::from(samples_per_pixel)
}

fn scale(channel: f64) -> u8 {
    (256.0 * channel) as u8
}

fn tone() -> Tone<f64, fn(f64, i32) -> f64, fn(f64) -> f64, fn(f64) -> u8> {
    Tone { floor: 0.0, ceiling: 0.999, average, gamma: f64::sqrt, scale }
}

#[test]
fn full_white_sum_encodes_to_255() {
    assert_eq!(to_rgb(1.0, 1.0, 1.0, 1, &tone()), Rgb { r: 255, g: 255, b: 255 });
    assert_eq!(to_rgb_string(1.0, 1.0, 1.0, 1, &tone()), "255 255 255");
}

#[test]
fn black_sum_encodes_to_zero() {
    assert_eq!(to_rgb(0.0, 0.0, 0.0, 1, &tone()), Rgb { r: 0, g: 0, b: 0 });
    assert_eq!(to_rgb_string(0.0, 0.0, 0.0, 1, &tone()), "0 0 0");
}

#[test]
fn quarter_grey_is_gamma_corrected() {
    // sqrt(0.25) = 0.5, and 256 * 0.5 = 128
    assert_eq!(encode_channel(0.25, 1, &tone()), 128);
    assert_eq!(to_rgb_string(0.25, 0.25, 0.25, 1, &tone()), "128 128 128");
}

#[test]
fn sums_are_averaged_over_the_samples() {
    // 125 / 500 = 0.25
    assert_eq!(encode_channel(125.0, 500, &tone()), 128);
    assert_eq!(to_rgb(500.0, 125.0, 0.0, 500, &tone()), Rgb { r: 255, g: 128, b: 0 });
}

#[test]
fn channels_keep_their_places() {
    // sqrt(0.01) = 0.1 -> 25, sqrt(0.04) = 0.2 -> 51, sqrt(0.09) = 0.3 -> 76
    assert_eq!(to_rgb(0.01, 0.04, 0.09, 1, &tone()), Rgb { r: 25, g: 51, b: 76 });
    assert_eq!(to_rgb_string(0.01, 0.04, 0.09, 1, &tone()), "25 51 76");
}

#[test]
fn overbright_and_negative_sums_are_held() {
    assert_eq!(encode_channel(4.0, 1, &tone()), 255);
    assert_eq!(encode_channel(f64::INFINITY, 1, &tone()), 255);
    // the square root of a negative mean is no number, which is left as it is and scales to 0
    assert_eq!(encode_channel(-1.0, 1, &tone()), 0);
    // no samples: 0 / 0 is no number either
    assert_eq!(encode_channel(0.0, 0, &tone()), 0);
    assert_eq!(encode_channel(1.0, 0, &tone()), 255);
}

#[test]
fn the_steps_come_in_order() {
    let log = RefCell::new(Vec::new());
    let tone = Tone {
        floor: 10,
        ceiling: 20,
        average: |sum: i64, samples_per_pixel: i32| {
            log.borrow_mut().push(("average", sum));
            sum / i64::from(samples_per_pixel)
        },
        gamma: |mean: i64| {
            log.borrow_mut().push(("gamma", mean));
            mean + 1
        },
        scale: |kept: i64| {
            log.borrow_mut().push(("scale", kept));
            kept as u8
        },
    };
    assert_eq!(encode_channel(90, 3, &tone), 20);
    assert_eq!(encode_channel(30, 3, &tone), 11);
    assert_eq!(encode_channel(3, 3, &tone), 10);
    assert_eq!(
        *log.borrow(),
        vec![
            ("average", 90),
            ("gamma", 30),
            ("scale", 20),
            ("average", 30),
            ("gamma", 10),
            ("scale", 11),
            ("average", 3),
            ("gamma", 1),
            ("scale", 10),
        ]
    );
}
