//! The field parsers: station notation, elevations, lengths, grades
//! and speeds, with their error taxonomy.

use curve_solver::datatypes::{
    coerce_elevation, coerce_grade, coerce_length, coerce_speed, coerce_station_value, Error,
};

#[test]
fn station_parse() {
    assert_eq!(coerce_station_value("12+34").unwrap().as_nano(), 1_234_000_000_000);
    // a negative zero head still signs the tail
    assert_eq!(coerce_station_value("-0+0").unwrap().as_nano(), 0);
    assert_eq!(coerce_station_value("-0+5").unwrap().as_nano(), -5_000_000_000);
    assert_eq!(coerce_station_value("-10284+50").unwrap().as_nano(), -1_028_450_000_000_000);
    assert_eq!(coerce_station_value("10284+50").unwrap().as_nano(), 1_028_450_000_000_000);
    assert_eq!(coerce_station_value("1+2.5").unwrap().as_nano(), 102_500_000_000);
    assert_eq!(coerce_station_value(" 12 + 34 ").unwrap().as_nano(), 1_234_000_000_000);
}

#[test]
fn station_parse_errors() {
    assert_eq!(coerce_station_value(""), Err(Error::NoValue));
    assert_eq!(coerce_station_value("12"), Err(Error::NoPlus));
    assert_eq!(coerce_station_value("12+34+5"), Err(Error::ExcessiveValues));
    assert_eq!(coerce_station_value("12+-5"), Err(Error::DifferentSign));
    assert_eq!(coerce_station_value("12+-0"), Err(Error::DifferentSign));
    assert_eq!(coerce_station_value("abc"), Err(Error::ParseNonFloat));
    assert_eq!(coerce_station_value("12+x"), Err(Error::ParseNonFloat));
    assert_eq!(coerce_station_value("12++5"), Err(Error::ParseNonFloat));
    // a trailing separator leaves a single segment
    assert_eq!(coerce_station_value("12+"), Err(Error::NoPlus));
    // a combined value past the representable range
    assert_eq!(
        coerce_station_value("99999999+99999999.9"),
        Err(Error::ParseStation)
    );
    // and one after two good segments is dropped
    assert_eq!(coerce_station_value("1+2+").unwrap().as_nano(), 102_000_000_000);
}

#[test]
fn elevation_and_length() {
    assert_eq!(coerce_elevation("1001.38").unwrap().as_nano(), 1_001_380_000_000);
    assert_eq!(coerce_elevation(" -3.5 ").unwrap().as_nano(), -3_500_000_000);
    assert_eq!(coerce_elevation(""), Err(Error::NoElevValue));
    assert_eq!(coerce_elevation("abc"), Err(Error::ParseElevation));
    assert_eq!(coerce_length("500").unwrap().as_nano(), 500_000_000_000);
    assert_eq!(coerce_length(""), Err(Error::NoLenValue));
    assert_eq!(coerce_length("5x"), Err(Error::ParseLength));
}

#[test]
fn grades() {
    // a percent sign divides by one hundred
    assert_eq!(coerce_grade("0.44%").unwrap().as_nano(), 4_400_000);
    assert_eq!(coerce_grade("-0.57%").unwrap().as_nano(), -5_700_000);
    assert_eq!(coerce_grade("-0.02").unwrap().as_nano(), -20_000_000);
    assert_eq!(coerce_grade("2").unwrap().as_nano(), 2_000_000_000);
    assert_eq!(coerce_grade(""), Err(Error::NoGradeValue));
    assert_eq!(coerce_grade("x%"), Err(Error::ParseGrade));
    // the sign strips only at the end, with no second trim
    assert_eq!(coerce_grade("5 %"), Err(Error::ParseGrade));
}

#[test]
fn speeds() {
    assert_eq!(coerce_speed("65"), Ok(65));
    assert_eq!(coerce_speed(" -40 "), Ok(-40));
    assert_eq!(coerce_speed("65.5"), Err(Error::ParseSpeed));
    assert_eq!(coerce_speed(""), Err(Error::ParseSpeed));
    assert_eq!(coerce_speed("2147483647"), Ok(2147483647));
    assert_eq!(coerce_speed("2147483648"), Err(Error::ParseSpeed));
    assert_eq!(coerce_speed("-2147483648"), Ok(-2147483648));
}

#[test]
fn fractions_parse_exactly_to_nine_places() {
    assert_eq!(coerce_length("0.123456789").unwrap().as_nano(), 123_456_789);
    // digits past the ninth truncate toward zero
    assert_eq!(coerce_length("0.1234567899").unwrap().as_nano(), 123_456_789);
    assert_eq!(coerce_length(".5").unwrap().as_nano(), 500_000_000);
    assert_eq!(coerce_length("5.").unwrap().as_nano(), 5_000_000_000);
    assert_eq!(coerce_length("."), Err(Error::ParseLength));
    assert_eq!(coerce_length("1.2.3"), Err(Error::ParseLength));
}
