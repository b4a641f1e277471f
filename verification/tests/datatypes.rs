//! Angle parsing and DMS round-trip checks.

use curve_solver::angle::Angle;
use curve_solver::datatypes::Error;

fn nano(a: &Angle) -> i128 {
    a.decimal_degrees.as_nano()
}

#[test]
fn from_angle() {
    let angles = vec![
        "10d32\'60.1\"",
        "1d0\'0\"",
        "10d",
        "10\'",
        "10\"",
        "10\'12\"",
    ];

    for angle in angles {
        match Angle::from(angle) {
            Ok(w) => println!("O: {:?}", w),
            Err(e) => println!("Failed: {} for {:?}", angle, e),
        }
    }
}

#[test]
fn dd_dms_dd_eq() {
    let angles = vec![
        "10d32\'60.1\"",
        "1d0\'0\"",
        "10d",
        "10\'",
        "10\"",
        "10\'12\"",
    ];

    for angle in angles {
        let w1 = Angle::from(angle).unwrap();
        let w2 = w1.to_dms();
        println!("{:?} ?= {:?}", angle, w2);
    }
}

#[test]
fn dms_round_trip_within_tolerance() {
    // reparsing the DMS rendering recovers the angle within a
    // millionth of a degree
    let angles = vec![
        "10d32\'60.1\"",
        "1d0\'0\"",
        "10d",
        "10\'",
        "10\"",
        "10\'12\"",
    ];

    for angle in angles {
        let w1 = Angle::from(angle).unwrap();
        let w2 = Angle::from(w1.to_dms().as_str()).unwrap();
        let diff = (nano(&w1) - nano(&w2)).abs();
        assert!(diff <= 1_000, "{} differs by {} nano-degrees", angle, diff);
    }
}

#[test]
fn dms_exact_values() {
    // 10 + 32/60 + 60.1/3600 degrees, truncated at the ninth decimal
    let w = Angle::from("10d32\'60.1\"").unwrap();
    assert_eq!(nano(&w), 10_550_027_777);
    // the overflowing seconds normalize in the rendering
    assert_eq!(w.to_dms(), "10d33\'0.10\"");

    let w = Angle::from("1d0\'0\"").unwrap();
    assert_eq!(nano(&w), 1_000_000_000);
    assert_eq!(w.to_dms(), "1d0\'0.00\"");

    // a bare minutes component means zero degrees
    let w = Angle::from("10\'").unwrap();
    assert_eq!(nano(&w), 166_666_666);

    // decimal degrees parse exactly
    let w = Angle::from("63.25").unwrap();
    assert_eq!(nano(&w), 63_250_000_000);
}

#[test]
fn oversized_angles_fail() {
    assert_eq!(Angle::from("180"), Err(Error::OversizedAngle));
    assert_eq!(Angle::from("200d"), Err(Error::OversizedAngle));
    assert_eq!(Angle::from("179d60\'"), Err(Error::OversizedAngle));
    assert_eq!(Angle::from("abc"), Err(Error::ParseAngle));
    assert_eq!(Angle::from(""), Err(Error::ParseAngle));
    assert_eq!(Angle::from("-10"), Err(Error::ParseAngle));
}

#[test]
fn negative_angles_fail() {
    // the domain's angles lie in [0, 180) degrees
    assert_eq!(Angle::from("-10d"), Err(Error::ParseAngle));
    assert_eq!(Angle::from("-0.5d"), Err(Error::ParseAngle));
    assert_eq!(Angle::from("0d-30\'"), Err(Error::ParseAngle));
    assert_eq!(Angle::from("10d-45\'").unwrap().decimal_degrees.as_nano(), 9_250_000_000);
}
