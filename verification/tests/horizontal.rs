//! Horizontal-curve derivations, with the transcendental values
//! evaluated here in floating point and handed to the library.

use curve_solver::angle::Angle;
use curve_solver::datatypes::{calc_adjustment, DesignStandard, SightType};
use curve_solver::fixed::Fixed;
use curve_solver::horizontal::{
    HorizontalBuildDefinition, HorizontalData, HorizontalStationDefinition, TrigValues,
};

fn fx(x: f64) -> Fixed {
    Fixed::from_nano((x * 1e9).round() as i128).unwrap()
}

fn feet(v: i128) -> i128 {
    v * 1_000_000_000
}

/// Evaluates the transcendental values for a parsed curve angle (in
/// decimal degrees), radius and sightline offset, as the library asks.
fn trig_for(angle_degrees: f64, radius: f64, m: f64) -> TrigValues {
    let radians = angle_degrees.to_radians();
    TrigValues {
        radians: fx(radians),
        tan_half: fx((radians / 2.0).tan()),
        cos_half: fx((radians / 2.0).cos()),
        sin_half: fx((radians / 2.0).sin()),
        offset_degrees: fx(((radius - m) / radius).acos().to_degrees()),
        angle_degrees: fx(angle_degrees),
    }
}

fn h1_data() -> HorizontalData {
    HorizontalData {
        input_station_method: HorizontalStationDefinition::PI,
        input_build_method: HorizontalBuildDefinition::RadiusCurveAngle,
        input_station: "10284+50".to_string(),
        input_length: "600".to_string(),
        input_radius: "818.5".to_string(),
        input_curve_angle: "63d15\'34\"".to_string(),
        input_design_speed: "65".to_string(),
        input_m: "1000".to_string(),
        ..Default::default()
    }
}

#[test]
fn h1() {
    let horizontal_data = h1_data();
    let angle = Angle::from(horizontal_data.input_curve_angle.as_str()).unwrap();
    let degrees = angle.decimal_degrees.as_nano() as f64 / 1e9;
    let trig = trig_for(degrees, 818.5, 1000.0);
    match horizontal_data.to_horizontal_curve(&trig) {
        Ok(w) => println!("O: {:#?}", w),
        Err(e) => println!("{:?}", e),
    }
}

#[test]
fn h2() {
    let horizontal_data = HorizontalData {
        input_station_method: HorizontalStationDefinition::PC,
        input_station: "100+00".to_string(),
        ..h1_data()
    };
    let angle = Angle::from(horizontal_data.input_curve_angle.as_str()).unwrap();
    let degrees = angle.decimal_degrees.as_nano() as f64 / 1e9;
    let trig = trig_for(degrees, 818.5, 1000.0);
    match horizontal_data.to_horizontal_curve(&trig) {
        Ok(w) => println!("O: {:#?}", w),
        Err(e) => println!("{:?}", e),
    }
}

#[test]
fn h3() {
    // a half-turn curve angle is rejected at the parse
    let horizontal_data = HorizontalData {
        input_station_method: HorizontalStationDefinition::PC,
        input_station: "100+00".to_string(),
        input_curve_angle: "180".to_string(),
        input_design_speed: String::new(),
        input_m: String::new(),
        ..h1_data()
    };
    let trig = trig_for(0.0, 818.5, 0.0);
    let r = horizontal_data.to_horizontal_curve(&trig);
    assert!(matches!(
        r,
        Err(curve_solver::horizontal::calculate::Error::Parse(
            curve_solver::datatypes::Error::OversizedAngle
        ))
    ));
}

/// A curve with simple transcendental values, chosen so every derived
/// dimension is exact.
fn simple_curve() -> curve_solver::horizontal::calculate::HorizontalCurve {
    let data = HorizontalData {
        input_station_method: HorizontalStationDefinition::PI,
        input_build_method: HorizontalBuildDefinition::RadiusCurveAngle,
        input_station: "10+00".to_string(),
        input_radius: "100".to_string(),
        input_curve_angle: "60".to_string(),
        input_design_speed: "65".to_string(),
        ..Default::default()
    };
    let trig = TrigValues {
        radians: Fixed::from_nano(1_100_000_000).unwrap(),
        tan_half: Fixed::from_nano(500_000_000).unwrap(),
        cos_half: Fixed::from_nano(800_000_000).unwrap(),
        sin_half: Fixed::from_nano(600_000_000).unwrap(),
        offset_degrees: Fixed::from_nano(feet(10)).unwrap(),
        angle_degrees: Fixed::from_nano(0).unwrap(),
    };
    data.to_horizontal_curve(&trig).unwrap()
}

#[test]
fn dimensions_are_exact() {
    let c = simple_curve();
    assert_eq!(c.dimensions.curve_length.as_nano(), feet(110));
    assert_eq!(c.dimensions.tangent.as_nano(), feet(50));
    assert_eq!(c.dimensions.external.as_nano(), feet(25));
    assert_eq!(c.dimensions.middle_ordinate.as_nano(), feet(20));
    assert_eq!(c.dimensions.long_chord.as_nano(), feet(120));
    assert_eq!(c.dimensions.curve_length_100.decimal_degrees.as_nano(), 57_296_000_000);
    // (100 / 28.65) * 10 = 34.90401396...
    assert_eq!(c.dimensions.sight_distance.as_nano(), 34_904_013_960);
    // stations from the PI: back a tangent, forward a tangent
    assert_eq!(c.stations.pc.value.as_nano(), feet(950));
    assert_eq!(c.stations.pi.value.as_nano(), feet(1000));
    assert_eq!(c.stations.pt.value.as_nano(), feet(1050));
}

#[test]
fn horizontal_compliance() {
    let c = simple_curve();
    let (ok, required) = c
        .is_compliant(DesignStandard::CALTRANS, SightType::Stopping, calc_adjustment(false))
        .unwrap();
    assert!(!ok);
    assert_eq!(required.as_nano(), feet(660));
    // the sustained-downgrade adjustment scales the requirement
    let (_, adjusted) = c
        .is_compliant(DesignStandard::CALTRANS, SightType::Stopping, calc_adjustment(true))
        .unwrap();
    assert_eq!(adjusted.as_nano(), feet(792));
}

#[test]
fn interval_stations_and_chords() {
    let c = simple_curve();
    let detail = c.interval_stations(Fixed::from_nano(feet(25)).unwrap());
    let values: Vec<i128> = detail.interval.iter().map(|s| s.value.as_nano()).collect();
    assert_eq!(values, vec![feet(950), feet(975), feet(1000), feet(1025), feet(1050)]);
    // the PC sits on a whole multiple, so the first deflection is zero
    // and each step adds half the degree of curve
    assert_eq!(detail.interval[0].deflection.unwrap().as_nano(), 0);
    assert_eq!(detail.interval[1].deflection.unwrap().as_nano(), 28_648_000_000);
    assert_eq!(detail.interval[2].deflection.unwrap().as_nano(), 57_296_000_000);
    // the library fixes each chord angle: the opening segment's share
    // (zero here), the half degree-of-curve per whole step, and the
    // prorated closing segment alone
    let angles = c.chord_angles(&detail);
    assert_eq!(angles.len(), detail.interval.len());
    assert_eq!(angles[0].unwrap().as_nano(), 0);
    assert_eq!(angles[1].unwrap().as_nano(), 28_648_000_000);
    assert_eq!(angles[2].unwrap().as_nano(), 28_648_000_000);
    // closing segment: (25/110)·60/2 degrees
    assert_eq!(angles[4].unwrap().as_nano(), 6_818_181_810);
    // chords from caller-supplied sines: 2 R sin
    let sines = vec![fx(0.5); detail.interval.len()];
    let with_chords = c.interval_chords(&detail, &sines);
    for st in &with_chords.interval {
        assert_eq!(st.chord.unwrap().as_nano(), feet(100));
    }
    // the run closes on the PT whatever the interval
    let degenerate = c.interval_stations(Fixed::from_nano(0).unwrap());
    assert_eq!(
        degenerate.interval.last().unwrap().value.as_nano(),
        c.stations.pt.value.as_nano()
    );
    assert!(degenerate.interval.len() <= 101);
}

#[test]
fn horizontal_compliance_without_speed() {
    let data = HorizontalData { input_design_speed: String::new(), ..h1_data() };
    let trig = trig_for(63.0, 818.5, 1000.0);
    let c = data.to_horizontal_curve(&trig).unwrap();
    assert_eq!(
        c.is_compliant(DesignStandard::CALTRANS, SightType::Stopping, calc_adjustment(false)),
        Err(curve_solver::horizontal::calculate::Error::DesignSpeedLUTError)
    );
}

#[test]
fn degenerate_cosine_is_reported() {
    let data = HorizontalData { input_design_speed: String::new(), ..h1_data() };
    let mut trig = trig_for(63.0, 818.5, 1000.0);
    trig.cos_half = Fixed::from_nano(0).unwrap();
    assert_eq!(
        data.to_horizontal_curve(&trig).err(),
        Some(curve_solver::horizontal::calculate::Error::NumericOverflow)
    );
}

#[test]
fn degenerate_radius_is_rejected() {
    for radius in ["0", "-100"] {
        let data = HorizontalData { input_radius: radius.to_string(), ..h1_data() };
        let trig = trig_for(63.0, 818.5, 1000.0);
        assert_eq!(
            data.to_horizontal_curve(&trig).err(),
            Some(curve_solver::horizontal::calculate::Error::NonPositiveRadius)
        );
    }
}

#[test]
fn radius_tangent_build() {
    // with the tangent given, the angle comes from the caller
    let data = HorizontalData {
        input_station_method: HorizontalStationDefinition::PC,
        input_build_method: HorizontalBuildDefinition::RadiusTangent,
        input_station: "0+00".to_string(),
        input_radius: "100".to_string(),
        input_tangent: "50".to_string(),
        ..Default::default()
    };
    // 2 atan(0.5) in degrees and radians
    let degrees = 2.0 * 0.5f64.atan().to_degrees();
    let radians = 2.0 * 0.5f64.atan();
    let trig = TrigValues {
        radians: fx(radians),
        tan_half: fx((radians / 2.0).tan()),
        cos_half: fx((radians / 2.0).cos()),
        sin_half: fx((radians / 2.0).sin()),
        offset_degrees: Fixed::from_nano(0).unwrap(),
        angle_degrees: fx(degrees),
    };
    let c = data.to_horizontal_curve(&trig).unwrap();
    assert_eq!(c.dimensions.tangent.as_nano(), feet(50));
    assert_eq!(c.dimensions.curve_angle.decimal_degrees, fx(degrees));
    // the PT stands a curve length past the PC
    assert_eq!(
        c.stations.pt.value.as_nano(),
        c.dimensions.curve_length.as_nano()
    );
}
