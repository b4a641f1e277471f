//! Standards tables, sight-distance compliance and the dual-branch
//! minimum-length equations.

use curve_solver::datatypes::{calc_adjustment, DesignStandard, SightType};
use curve_solver::fixed::Fixed;
use curve_solver::tables::get_min_sight;
use curve_solver::vertical::calculate::Error;
use curve_solver::vertical::{VerticalData, VerticalDefinition};

fn feet(v: i128) -> i128 {
    v * 1_000_000_000
}

fn curve_with_speed(speed: &str) -> curve_solver::vertical::calculate::VerticalCurve {
    VerticalData {
        input_method: VerticalDefinition::PVI,
        input_station: "10284+50".to_string(),
        input_elevation: "1001.38".to_string(),
        input_incoming_grade: "0.44%".to_string(),
        input_outgoing_grade: "-0.57%".to_string(),
        input_length: "500".to_string(),
        input_design_speed: speed.to_string(),
        ..Default::default()
    }
    .to_vertical_curve()
    .unwrap()
}

#[test]
fn table_lookups() {
    assert_eq!(
        get_min_sight(65, DesignStandard::CALTRANS, SightType::Stopping).unwrap().as_nano(),
        feet(660)
    );
    assert_eq!(
        get_min_sight(65, DesignStandard::CALTRANS, SightType::Decision).unwrap().as_nano(),
        feet(1050)
    );
    assert_eq!(
        get_min_sight(15, DesignStandard::AASHTO, SightType::Stopping).unwrap().as_nano(),
        feet(80)
    );
    assert_eq!(
        get_min_sight(80, DesignStandard::AASHTO, SightType::Passing).unwrap().as_nano(),
        feet(1400)
    );
    // decision sight distance is undefined under AASHTO
    assert!(get_min_sight(65, DesignStandard::AASHTO, SightType::Decision).is_none());
    // speeds off the table rows are undefined
    assert!(get_min_sight(63, DesignStandard::CALTRANS, SightType::Stopping).is_none());
    assert!(get_min_sight(10, DesignStandard::AASHTO, SightType::Stopping).is_none());
}

#[test]
fn adjustment_factor() {
    assert_eq!(calc_adjustment(false).as_nano(), 1_000_000_000);
    assert_eq!(calc_adjustment(true).as_nano(), 1_200_000_000);
}

#[test]
fn vertical_compliance_crest() {
    // A = 1.01, S = 660, crest 1329: the short-curve branch resolves:
    // 2 S - 1329/A = 1320 - 1315.841584158... = 4.158415842
    let curve = curve_with_speed("65");
    let (ok, min_len) = curve
        .is_compliant(DesignStandard::CALTRANS, SightType::Stopping, calc_adjustment(false))
        .unwrap();
    assert!(ok);
    assert_eq!(min_len.as_nano(), 4_158_415_842);
}

#[test]
fn vertical_compliance_missing_speed() {
    let curve = curve_with_speed("");
    assert_eq!(
        curve.is_compliant(DesignStandard::CALTRANS, SightType::Stopping, calc_adjustment(false)),
        Err(Error::DesignSpeedNotInStandard)
    );
    let curve = curve_with_speed("65");
    assert_eq!(
        curve.is_compliant(DesignStandard::AASHTO, SightType::Decision, calc_adjustment(false)),
        Err(Error::DesignSpeedNotInStandard)
    );
}

#[test]
fn zero_grade_break_demands_nothing() {
    let curve = VerticalData {
        input_method: VerticalDefinition::PVI,
        input_station: "10+00".to_string(),
        input_elevation: "100".to_string(),
        input_incoming_grade: "1%".to_string(),
        input_outgoing_grade: "1%".to_string(),
        input_length: "500".to_string(),
        ..Default::default()
    }
    .to_vertical_curve()
    .unwrap();
    let r = curve
        .calc_min_curve_length(
            Fixed::from_nano(feet(660)).unwrap(),
            DesignStandard::CALTRANS,
            SightType::Stopping,
        )
        .unwrap();
    assert_eq!(r.as_nano(), 0);
}

#[test]
fn branch_resolution_failure() {
    // A = 7 and S = 189.857142857 sit exactly in the truncation gap of
    // 1329/7, so neither branch is consistent with its own assumption
    let curve = VerticalData {
        input_method: VerticalDefinition::PVI,
        input_station: "10+00".to_string(),
        input_elevation: "100".to_string(),
        input_incoming_grade: "3.5%".to_string(),
        input_outgoing_grade: "-3.5%".to_string(),
        input_length: "500".to_string(),
        ..Default::default()
    }
    .to_vertical_curve()
    .unwrap();
    let r = curve.calc_min_curve_length(
        Fixed::from_nano(189_857_142_857).unwrap(),
        DesignStandard::CALTRANS,
        SightType::Stopping,
    );
    assert_eq!(
        r,
        Err(Error::BranchResolutionFailure {
            standard: DesignStandard::CALTRANS,
            sight_type: SightType::Stopping,
            crest: true,
        })
    );
}

#[test]
fn long_curve_branch_resolves() {
    // a large grade break keeps the long-curve assumption consistent:
    // A = 10, S = 200, crest 1329: A S^2 / 1329 = 300.978... >= S
    let curve = VerticalData {
        input_method: VerticalDefinition::PVI,
        input_station: "10+00".to_string(),
        input_elevation: "100".to_string(),
        input_incoming_grade: "5%".to_string(),
        input_outgoing_grade: "-5%".to_string(),
        input_length: "500".to_string(),
        ..Default::default()
    }
    .to_vertical_curve()
    .unwrap();
    let r = curve
        .calc_min_curve_length(
            Fixed::from_nano(feet(200)).unwrap(),
            DesignStandard::CALTRANS,
            SightType::Stopping,
        )
        .unwrap();
    // 10 * 200^2 / 1329 = 300.9781790820...
    assert_eq!(r.as_nano(), 300_978_179_082);
}

#[test]
fn field_errors_carry_through() {
    let r = VerticalData {
        input_method: VerticalDefinition::PVI,
        input_station: "10+00".to_string(),
        input_elevation: "100".to_string(),
        input_incoming_grade: String::new(),
        input_outgoing_grade: "-1%".to_string(),
        input_length: "500".to_string(),
        ..Default::default()
    }
    .to_vertical_curve();
    assert_eq!(
        r.err(),
        Some(Error::Parse(curve_solver::datatypes::Error::NoGradeValue))
    );
}

#[test]
fn equal_grades_have_no_extreme_point() {
    let curve = VerticalData {
        input_method: VerticalDefinition::PVI,
        input_station: "10+00".to_string(),
        input_elevation: "100".to_string(),
        input_incoming_grade: "1%".to_string(),
        input_outgoing_grade: "1%".to_string(),
        input_length: "500".to_string(),
        ..Default::default()
    }
    .to_vertical_curve()
    .unwrap();
    assert_eq!(curve.get_extreme().err(), Some(Error::FlatGrade));
}

#[test]
fn overflowing_derivations_are_reported() {
    // a vanishing curve length blows the parabola coefficient out of
    // the representable range
    let r = VerticalData {
        input_method: VerticalDefinition::PVI,
        input_station: "10+00".to_string(),
        input_elevation: "100".to_string(),
        input_incoming_grade: "99999999".to_string(),
        input_outgoing_grade: "-99999999".to_string(),
        input_length: "0.000000001".to_string(),
        ..Default::default()
    }
    .to_vertical_curve();
    assert_eq!(r.err(), Some(Error::NumericOverflow));
}

#[test]
fn degenerate_lengths_are_rejected() {
    for length in ["0", "-500"] {
        let r = VerticalData {
            input_method: VerticalDefinition::PVI,
            input_station: "10+00".to_string(),
            input_elevation: "100".to_string(),
            input_incoming_grade: "1%".to_string(),
            input_outgoing_grade: "-1%".to_string(),
            input_length: length.to_string(),
            ..Default::default()
        }
        .to_vertical_curve();
        assert_eq!(r.err(), Some(Error::NonPositiveCurveLength));
    }
}
