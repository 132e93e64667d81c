use antsim::geometry::rotation::Rotation;
use antsim::geometry::trig::{cosine_ppm, normalize_degrees, sine_ppm, snap_to_zero};

#[test]
fn add_rotation() {
    let zero_degrees = Rotation(0);
    let ninety_degrees = Rotation(90);
    let two_hundred_seventy = Rotation(270);
    let three_hundred_sixty = Rotation(360);

    assert_eq!(zero_degrees + ninety_degrees, Rotation(90));
    assert_eq!(ninety_degrees + ninety_degrees, Rotation(180));
    // wrap-around
    assert_eq!(two_hundred_seventy + ninety_degrees, Rotation(0));
    assert_eq!(three_hundred_sixty + ninety_degrees, Rotation(90));
}

#[test]
fn sub_rotation() {
    let zero_degrees = Rotation(0);
    let ninety_degrees = Rotation(90);
    let two_hundred_seventy = Rotation(270);
    let three_hundred_sixty = Rotation(360);

    assert_eq!(zero_degrees - ninety_degrees, Rotation(270)); // wrap-around
    assert_eq!(ninety_degrees - ninety_degrees, Rotation(0));
    assert_eq!(two_hundred_seventy - ninety_degrees, Rotation(180));
    assert_eq!(three_hundred_sixty - ninety_degrees, Rotation(270));
}

#[test]
fn neg_rotation() {
    let zero_degrees = Rotation(0);
    let ninety_degrees = Rotation(90);
    let two_hundred_seventy = Rotation(270);
    let three_hundred_sixty = Rotation(360);

    assert_eq!(-zero_degrees, Rotation(0));
    assert_eq!(-ninety_degrees, Rotation(270));
    assert_eq!(-two_hundred_seventy, Rotation(90));
    assert_eq!(-three_hundred_sixty, Rotation(0));
}

#[test]
fn new_keeps_the_number_as_given() {
    assert_eq!(Rotation::new(360).degrees(), 360);
    assert_eq!(Rotation::new(-725).degrees(), -725);
    assert_eq!(Rotation::new(45), Rotation(45));
}

#[test]
fn arithmetic_wraps_into_one_turn() {
    assert_eq!(Rotation::new(-725) + Rotation::new(0), Rotation(355));
    assert_eq!(Rotation::new(i32::MAX) + Rotation::new(i32::MAX), Rotation(254));
    assert_eq!(Rotation::new(i32::MIN) - Rotation::new(i32::MAX), Rotation(105));
    assert_eq!(-Rotation::new(i32::MIN), Rotation(128));
    assert_eq!(-Rotation::new(1), Rotation(359));
}

#[test]
fn add_then_sub_gives_the_angle_back() {
    for a in 0..360 {
        for b in [-1000, -360, -90, -1, 0, 1, 45, 359, 360, 361, 100_000] {
            assert_eq!((Rotation::new(a) + Rotation::new(b)) - Rotation::new(b), Rotation::new(a));
        }
    }
    // an angle outside of one turn comes back wrapped
    assert_eq!((Rotation::new(400) + Rotation::new(7)) - Rotation::new(7), Rotation(40));
}

#[test]
fn double_negation_and_full_turn() {
    for a in 0..360 {
        assert_eq!(-(-Rotation::new(a)), Rotation::new(a));
        assert_eq!(Rotation::new(a) + Rotation::new(360), Rotation::new(a));
    }
    assert_eq!(-(-Rotation::new(-10)), Rotation(350));
    assert_eq!(Rotation::new(725) + Rotation::new(360), Rotation(5));
}

#[test]
fn radians_in_millionths() {
    assert_eq!(Rotation::new(0).radians(), 0);
    assert_eq!(Rotation::new(7).radians(), 122_173);
    assert_eq!(Rotation::new(-7).radians(), -122_173);
    assert_eq!(Rotation::new(90).radians(), 1_570_797);
    assert_eq!(Rotation::new(360).radians(), 6_283_186);
}

#[test]
fn normalize_degrees_wraps() {
    assert_eq!(normalize_degrees(0), 0);
    assert_eq!(normalize_degrees(360), 0);
    assert_eq!(normalize_degrees(-1), 359);
    assert_eq!(normalize_degrees(725), 5);
    assert_eq!(normalize_degrees(i64::MIN), 352);
}

#[test]
fn sines_and_cosines_in_parts_per_million() {
    assert_eq!(sine_ppm(0), 0);
    assert_eq!(sine_ppm(30), 500_000);
    assert_eq!(sine_ppm(45), 707_107);
    assert_eq!(sine_ppm(90), 1_000_000);
    assert_eq!(sine_ppm(150), 500_000);
    assert_eq!(sine_ppm(210), -500_000);
    assert_eq!(sine_ppm(270), -1_000_000);
    assert_eq!(sine_ppm(-30), -500_000);
    assert_eq!(sine_ppm(390), 500_000);
    assert_eq!(cosine_ppm(0), 1_000_000);
    assert_eq!(cosine_ppm(60), 500_000);
    assert_eq!(cosine_ppm(90), 0);
    assert_eq!(cosine_ppm(120), -500_000);
    assert_eq!(cosine_ppm(180), -1_000_000);
    assert_eq!(cosine_ppm(315), 707_107);
    assert_eq!(cosine_ppm(-45), 707_107);
    assert_eq!(sine_ppm(1), 17_452);
    assert_eq!(cosine_ppm(89), 17_452);
}

#[test]
fn sines_agree_with_the_floating_point_sine() {
    for degrees in -720..720 {
        let exact = (f64::from(degrees)).to_radians().sin() * 1_000_000.0;
        assert!((sine_ppm(degrees) as f64 - exact).abs() <= 0.5 + 1e-6);
        let exact = (f64::from(degrees)).to_radians().cos() * 1_000_000.0;
        assert!((cosine_ppm(degrees) as f64 - exact).abs() <= 0.5 + 1e-6);
    }
}

#[test]
fn snap_to_zero_takes_a_hundredth_for_zero() {
    assert_eq!(snap_to_zero(0), 0);
    assert_eq!(snap_to_zero(10_000), 0);
    assert_eq!(snap_to_zero(-10_000), 0);
    assert_eq!(snap_to_zero(10_001), 10_001);
    assert_eq!(snap_to_zero(-10_001), -10_001);
    assert_eq!(snap_to_zero(1_000_000), 1_000_000);
}
