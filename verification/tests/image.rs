use raytracing_rs::image::ImageSize;

#[test]
fn size_keeps_width_and_height() {
    let size = ImageSize::new(1200, 800).unwrap();
    assert_eq!(size.width(), 1200);
    assert_eq!(size.height(), 800);
    assert_eq!(size.pixel_count(), 960_000);
}

#[test]
fn size_with_too_many_pixels_is_refused() {
    assert!(ImageSize::new(usize::MAX, 2).is_none());
    assert!(ImageSize::new(2, usize::MAX).is_none());
    assert!(ImageSize::new(usize::MAX, 1).is_some());
    assert!(ImageSize::new(usize::MAX, 0).is_some());
}

#[test]
fn top_scanline_comes_first() {
    let size = ImageSize::new(4, 3).unwrap();
    assert_eq!(size.slot(0, 2), Some(0));
    assert_eq!(size.slot(3, 2), Some(3));
    assert_eq!(size.slot(0, 1), Some(4));
    assert_eq!(size.slot(0, 0), Some(8));
    assert_eq!(size.slot(3, 0), Some(11));
}

#[test]
fn slot_outside_the_grid_is_none() {
    let size = ImageSize::new(4, 3).unwrap();
    assert_eq!(size.slot(4, 0), None);
    assert_eq!(size.slot(0, 3), None);
    assert_eq!(size.position(12), None);
    let empty = ImageSize::new(0, 5).unwrap();
    assert_eq!(empty.slot(0, 0), None);
    assert_eq!(empty.position(0), None);
}

#[test]
fn position_of_slot_values() {
    let size = ImageSize::new(4, 3).unwrap();
    assert_eq!(size.position(0), Some((0, 2)));
    assert_eq!(size.position(5), Some((1, 1)));
    assert_eq!(size.position(11), Some((3, 0)));
}

#[test]
fn slot_and_position_are_inverse() {
    let size = ImageSize::new(7, 5).unwrap();
    let mut seen = vec![false; 35];
    for scanline in 0..5 {
        for column in 0..7 {
            let slot = size.slot(column, scanline).unwrap();
            assert!(!seen[slot]);
            seen[slot] = true;
            assert_eq!(size.position(slot), Some((column, scanline)));
        }
    }
    assert!(seen.iter().all(|s| *s));
    for slot in 0..35 {
        let (column, scanline) = size.position(slot).unwrap();
        assert_eq!(size.slot(column, scanline), Some(slot));
    }
}
