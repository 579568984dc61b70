use evosim::fixed::{HALF_PI_FP, PI_FP, SCALE};
use evosim::trig::{atan2_fp, cos_fp, sin_fp};

#[test]
fn sine_hits_the_cardinal_points_closely() {
    assert_eq!(sin_fp(0), 0);
    let at_half_pi = sin_fp(HALF_PI_FP);
    assert!((at_half_pi - SCALE).abs() <= 40);
    let at_minus_half_pi = sin_fp(-HALF_PI_FP);
    assert!((at_minus_half_pi + SCALE).abs() <= 40);
    assert!(sin_fp(PI_FP).abs() <= 40);
}

#[test]
fn cosine_hits_the_cardinal_points_closely() {
    let at_zero = cos_fp(0);
    assert!((at_zero - SCALE).abs() <= 40);
    assert!(cos_fp(HALF_PI_FP).abs() <= 40);
    let at_pi = cos_fp(PI_FP);
    assert!((at_pi + SCALE).abs() <= 40);
}

#[test]
fn bearing_of_the_axes() {
    assert_eq!(atan2_fp(0, SCALE), 0);
    assert_eq!(atan2_fp(0, -SCALE), PI_FP);
    let quarter = atan2_fp(SCALE, 0);
    assert!((quarter - HALF_PI_FP).abs() <= 200);
    let diagonal = atan2_fp(SCALE, SCALE);
    assert!((diagonal - PI_FP / 4).abs() <= 300);
}
