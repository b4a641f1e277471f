//! Vertical-curve derivations against known-good fixtures.

use curve_solver::fixed::Fixed;
use curve_solver::vertical::{VerticalData, VerticalDefinition};

fn feet(v: i128) -> i128 {
    v * 1_000_000_000
}

fn base_data() -> VerticalData {
    VerticalData {
        input_method: VerticalDefinition::PVI,
        input_station: "10284+50".to_string(),
        input_elevation: "1001.38".to_string(),
        input_incoming_grade: "0.44%".to_string(),
        input_outgoing_grade: "-0.57%".to_string(),
        input_length: "500".to_string(),
        ..Default::default()
    }
}

#[test]
fn v1() {
    let data = base_data();
    let curve = data.to_vertical_curve().unwrap();
    assert_eq!(curve.stations.pvc.value.as_nano(), feet(1028200));
    assert_eq!(curve.stations.pvc.elevation.unwrap().as_nano(), 1_000_280_000_000);
    assert_eq!(curve.stations.pvt.value.as_nano(), feet(1028700));
    assert_eq!(curve.stations.pvt.elevation.unwrap().as_nano(), 999_955_000_000);
}

#[test]
fn v2() {
    let data = VerticalData { input_station: "-10284+50".to_string(), ..base_data() };
    let curve = data.to_vertical_curve().unwrap();
    assert_eq!(curve.stations.pvc.value.as_nano(), feet(-1028700));
    assert_eq!(curve.stations.pvc.elevation.unwrap().as_nano(), 1_000_280_000_000);
    assert_eq!(curve.stations.pvt.value.as_nano(), feet(-1028200));
    assert_eq!(curve.stations.pvt.elevation.unwrap().as_nano(), 999_955_000_000);
}

#[test]
fn v3() {
    let data = VerticalData { input_station: "-0+0".to_string(), ..base_data() };
    let curve = data.to_vertical_curve().unwrap();
    assert_eq!(curve.stations.pvc.value.as_nano(), feet(-250));
    assert_eq!(curve.stations.pvc.elevation.unwrap().as_nano(), 1_000_280_000_000);
    assert_eq!(curve.stations.pvt.value.as_nano(), feet(250));
    assert_eq!(curve.stations.pvt.elevation.unwrap().as_nano(), 999_955_000_000);
}

#[test]
fn v4() {
    let data = VerticalData {
        input_method: VerticalDefinition::PVC,
        input_station: "-2+50".to_string(),
        input_elevation: "1000.28".to_string(),
        ..base_data()
    };
    let curve = data.to_vertical_curve().unwrap();
    assert_eq!(curve.stations.pvi.value.as_nano(), feet(0));
    assert_eq!(curve.stations.pvi.elevation.unwrap().as_nano(), 1_001_380_000_000);
    assert_eq!(curve.stations.pvt.value.as_nano(), feet(250));
    assert_eq!(curve.stations.pvt.elevation.unwrap().as_nano(), 999_955_000_000);
}

#[test]
fn v5() {
    let data = VerticalData {
        input_method: VerticalDefinition::PVT,
        input_station: "2+50".to_string(),
        input_elevation: "999.955".to_string(),
        ..base_data()
    };
    let curve = data.to_vertical_curve().unwrap();
    assert_eq!(curve.stations.pvi.value.as_nano(), feet(0));
    assert_eq!(curve.stations.pvi.elevation.unwrap().as_nano(), 1_001_380_000_000);
    assert_eq!(curve.stations.pvc.value.as_nano(), feet(-250));
    assert_eq!(curve.stations.pvc.elevation.unwrap().as_nano(), 1_000_280_000_000);
}

#[test]
fn station_reference_round_trip() {
    // a curve rebuilt from its own derived PVC reproduces the PVI
    let curve = base_data().to_vertical_curve().unwrap();
    let from_pvc = VerticalData {
        input_method: VerticalDefinition::PVC,
        input_station: "10282+00".to_string(),
        input_elevation: "1000.28".to_string(),
        ..base_data()
    };
    let again = from_pvc.to_vertical_curve().unwrap();
    assert_eq!(
        again.stations.pvi.value.as_nano(),
        curve.stations.pvi.value.as_nano()
    );
    assert_eq!(
        again.stations.pvi.elevation.unwrap().as_nano(),
        curve.stations.pvi.elevation.unwrap().as_nano()
    );
    // and rebuilt from its own derived PVT it reproduces both
    let from_pvt = VerticalData {
        input_method: VerticalDefinition::PVT,
        input_station: "10287+00".to_string(),
        input_elevation: "999.955".to_string(),
        ..base_data()
    };
    let third = from_pvt.to_vertical_curve().unwrap();
    assert_eq!(
        third.stations.pvc.value.as_nano(),
        curve.stations.pvc.value.as_nano()
    );
    assert_eq!(
        third.stations.pvi.elevation.unwrap().as_nano(),
        curve.stations.pvi.elevation.unwrap().as_nano()
    );
}

#[test]
fn parabola_and_extreme() {
    let curve = base_data().to_vertical_curve().unwrap();
    // external: a (L/2)^2 with a = (g2 - g1)/(2 L)
    // a = -0.0000101 exactly, external = -0.63125 exactly
    assert_eq!(curve.dimensions.external.as_nano(), -631_250_000);
    // the high point at x = -g1/(2a) = 217.821782178... past the PVC
    let extreme = curve.get_extreme().unwrap();
    let x = (extreme.value.as_nano() - curve.stations.pvc.value.as_nano()) as f64 / 1e9;
    assert!((x - 217.8217821).abs() < 1e-6);
    let e = extreme.elevation.unwrap().as_nano() as f64 / 1e9;
    // e0 + g1 x + a x^2 evaluated in floating point for reference
    let expect = 1000.28 + 0.0044 * x + (-0.0000101) * x * x;
    assert!((e - expect).abs() < 1e-6);
}

#[test]
fn interval_stations_align_and_close() {
    let curve = base_data().to_vertical_curve().unwrap();
    let detail = curve.interval_stations(Fixed::from_nano(feet(100)).unwrap());
    let values: Vec<i128> = detail.interval.iter().map(|s| s.value.as_nano()).collect();
    assert_eq!(
        values,
        vec![
            feet(1028200),
            feet(1028300),
            feet(1028400),
            feet(1028500),
            feet(1028600),
            feet(1028700),
        ]
    );
    // elevation at one full interval past the PVC, exactly
    assert_eq!(detail.interval[1].elevation.unwrap().as_nano(), 1_000_619_000_000);
    // the last station is the PVT itself
    assert_eq!(
        detail.interval.last().unwrap().value.as_nano(),
        curve.stations.pvt.value.as_nano()
    );
}

#[test]
fn interval_stations_terminate_on_degenerate_interval() {
    let curve = base_data().to_vertical_curve().unwrap();
    for nano in [0i128, -1_000_000_000] {
        let detail = curve.interval_stations(Fixed::from_nano(nano).unwrap());
        assert!(detail.interval.len() <= 101);
        assert_eq!(
            detail.interval.last().unwrap().value.as_nano(),
            curve.stations.pvt.value.as_nano()
        );
    }
    // a tiny positive interval hits the hundred-step cap and still
    // closes on the PVT
    let detail = curve.interval_stations(Fixed::from_nano(1).unwrap());
    assert_eq!(detail.interval.len(), 101);
    assert_eq!(
        detail.interval.last().unwrap().value.as_nano(),
        curve.stations.pvt.value.as_nano()
    );
}
