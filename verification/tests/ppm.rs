use raytracing_rs::image::ImageSize;
use raytracing_rs::ppm::{encode, header, Rgb};

#[test]
fn white_pixel_line() {
    let white = Rgb { r: 255, g: 255, b: 255 };
    assert_eq!(white.to_rgb_string(), "255 255 255");
}

#[test]
fn black_pixel_line() {
    let black = Rgb { r: 0, g: 0, b: 0 };
    assert_eq!(black.to_rgb_string(), "0 0 0");
}

#[test]
fn pixel_line_mixes_digit_counts() {
    let pixel = Rgb { r: 7, g: 42, b: 199 };
    assert_eq!(pixel.to_rgb_string(), "7 42 199");
    let round = Rgb { r: 10, g: 100, b: 200 };
    assert_eq!(round.to_rgb_string(), "10 100 200");
}

#[test]
fn every_channel_value_is_written_as_rust_writes_it() {
    for n in 0..=255u8 {
        let pixel = Rgb { r: n, g: 255 - n, b: n / 2 };
        assert_eq!(pixel.to_rgb_string(), format!("{} {} {}", n, 255 - n, n / 2));
    }
}

#[test]
fn header_of_large_image() {
    let size = ImageSize::new(1200, 800).unwrap();
    assert_eq!(header(size), "P3\n1200 800\n255");
}

#[test]
fn header_of_empty_image() {
    let size = ImageSize::new(0, 0).unwrap();
    assert_eq!(header(size), "P3\n0 0\n255");
}

#[test]
fn encode_two_by_one() {
    let size = ImageSize::new(2, 1).unwrap();
    let pixels = vec![Rgb { r: 1, g: 20, b: 255 }, Rgb { r: 0, g: 109, b: 7 }];
    assert_eq!(encode(size, &pixels), "P3\n2 1\n255\n1 20 255\n0 109 7\n");
}

#[test]
fn encode_single_pixel() {
    let size = ImageSize::new(1, 1).unwrap();
    let pixels = vec![Rgb { r: 9, g: 8, b: 7 }];
    assert_eq!(encode(size, &pixels), "P3\n1 1\n255\n9 8 7\n");
}

#[test]
fn encode_no_pixels() {
    let size = ImageSize::new(0, 0).unwrap();
    let pixels: Vec<Rgb> = Vec::new();
    assert_eq!(encode(size, &pixels), "P3\n0 0\n255\n\n");
}

#[test]
fn encode_matches_joined_lines() {
    let size = ImageSize::new(3, 2).unwrap();
    let mut pixels = Vec::new();
    for n in 0..6u8 {
        pixels.push(Rgb { r: n, g: 10 * n, b: 40 * n });
    }
    let lines: Vec<String> = pixels.iter().map(|p| p.to_rgb_string()).collect();
    let expected = format!("{}\n{}\n", header(size), lines.join("\n"));
    assert_eq!(encode(size, &pixels), expected);
    assert_eq!(encode(size, &pixels).lines().count(), 3 + 6);
}
