//! Obstacle clearance checks along a vertical curve.

use curve_solver::datatypes::{ObstacleDetail, Station};
use curve_solver::fixed::Fixed;
use curve_solver::vertical::calculate::Error;
use curve_solver::vertical::{ObstacleType, VerticalData, VerticalDefinition};

fn fx(nano: i128) -> Fixed {
    Fixed::from_nano(nano).unwrap()
}

fn station(value_nano: i128, elevation_nano: i128) -> Station {
    Station {
        value: fx(value_nano),
        elevation: Some(fx(elevation_nano)),
        deflection: None,
        chord: None,
    }
}

fn curve() -> curve_solver::vertical::calculate::VerticalCurve {
    VerticalData {
        input_method: VerticalDefinition::PVI,
        input_station: "10284+50".to_string(),
        input_elevation: "1001.38".to_string(),
        input_incoming_grade: "0.44%".to_string(),
        input_outgoing_grade: "-0.57%".to_string(),
        input_length: "500".to_string(),
        ..Default::default()
    }
    .to_vertical_curve()
    .unwrap()
}

#[test]
fn obstacle_on_the_curve_satisfies_both_directions() {
    // the curve's elevation one interval past the PVC is exactly
    // 1000.619; an obstacle exactly there is compliant either way
    let c = curve();
    for kind in [ObstacleType::Above, ObstacleType::Below] {
        let detail = ObstacleDetail {
            interval: vec![(station(1_028_300_000_000_000, 1_000_619_000_000), kind)],
        };
        let verdicts = c.obstacle_compliant(&detail);
        assert_eq!(verdicts.len(), 1);
        let (within, _, curve_station, delta) = verdicts[0].clone().unwrap();
        assert!(within);
        assert_eq!(delta.as_nano(), 0);
        assert_eq!(curve_station.elevation.unwrap().as_nano(), 1_000_619_000_000);
    }
}

#[test]
fn obstacle_above_and_below() {
    let c = curve();
    // an overhead structure well above the surface clears
    let above_clear = ObstacleDetail {
        interval: vec![(station(1_028_300_000_000_000, 1_010_000_000_000), ObstacleType::Above)],
    };
    let (within, _, _, delta) = c.obstacle_compliant(&above_clear)[0].clone().unwrap();
    assert!(within);
    assert_eq!(delta.as_nano(), 9_381_000_000);
    // a buried utility above the surface does not
    let below_blocked = ObstacleDetail {
        interval: vec![(station(1_028_300_000_000_000, 1_010_000_000_000), ObstacleType::Below)],
    };
    let (within, _, _, _) = c.obstacle_compliant(&below_blocked)[0].clone().unwrap();
    assert!(!within);
}

#[test]
fn obstacle_outside_the_curve_is_reported() {
    let c = curve();
    let detail = ObstacleDetail {
        interval: vec![(station(0, 1_000_000_000_000), ObstacleType::Above)],
    };
    let verdicts = c.obstacle_compliant(&detail);
    match &verdicts[0] {
        Err(Error::ObstacleOutOfRange { station }) => {
            assert_eq!(station.value.as_nano(), 0);
        },
        other => panic!("unexpected outcome: {:?}", other),
    }
}
