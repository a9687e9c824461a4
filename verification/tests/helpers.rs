use raytracing_rs::helpers::{clamp, is_inside};

#[test]
fn clamp_holds_a_number_between_the_bounds() {
    assert_eq!(clamp(0.5, 0.0, 0.999), 0.5);
    assert_eq!(clamp(-0.5, 0.0, 0.999), 0.0);
    assert_eq!(clamp(1.0, 0.0, 0.999), 0.999);
    assert_eq!(clamp(0.0, 0.0, 0.999), 0.0);
    assert_eq!(clamp(0.999, 0.0, 0.999), 0.999);
    assert_eq!(clamp(f64::INFINITY, 0.0, 0.999), 0.999);
    assert_eq!(clamp(f64::NEG_INFINITY, 0.0, 0.999), 0.0);
}

#[test]
fn clamp_leaves_what_does_not_compare() {
    assert!(clamp(f64::NAN, 0.0, 0.999).is_nan());
}

#[test]
fn clamp_works_on_integers_too() {
    assert_eq!(clamp(7, 1, 5), 5);
    assert_eq!(clamp(-7, 1, 5), 1);
    assert_eq!(clamp(3, 1, 5), 3);
}

#[test]
fn inside_is_strict_on_both_sides() {
    assert!(is_inside(&0.5, &0.001, &f64::INFINITY));
    assert!(!is_inside(&0.001, &0.001, &f64::INFINITY));
    assert!(!is_inside(&0.0005, &0.001, &f64::INFINITY));
    assert!(!is_inside(&f64::INFINITY, &0.001, &f64::INFINITY));
    assert!(!is_inside(&2.0, &0.0, &2.0));
    assert!(!is_inside(&f64::NAN, &0.0, &2.0));
    assert!(!is_inside(&1.0, &f64::NAN, &2.0));
    assert!(!is_inside(&1.0, &0.0, &f64::NAN));
}
