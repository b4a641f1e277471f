//! The cyclic selectors the input screens page through.

use curve_solver::datatypes::{DesignStandard, SightType};
use curve_solver::horizontal::{HorizontalBuildDefinition, HorizontalStationDefinition};
use curve_solver::vertical::{ObstacleType, VerticalDefinition};

#[test]
fn sight_and_standard_cycle() {
    assert_eq!(SightType::Stopping.next(), SightType::Passing);
    assert_eq!(SightType::Passing.next(), SightType::Decision);
    assert_eq!(SightType::Decision.next(), SightType::Stopping);
    assert_eq!(DesignStandard::AASHTO.next(), DesignStandard::CALTRANS);
    assert_eq!(DesignStandard::CALTRANS.next(), DesignStandard::AASHTO);
}

#[test]
fn reference_point_cycles() {
    assert_eq!(VerticalDefinition::PVC.next(), VerticalDefinition::PVI);
    assert_eq!(VerticalDefinition::PVI.next(), VerticalDefinition::PVT);
    assert_eq!(VerticalDefinition::PVT.next(), VerticalDefinition::PVC);
    assert_eq!(HorizontalStationDefinition::PC.next(), HorizontalStationDefinition::PI);
    assert_eq!(HorizontalStationDefinition::PI.next(), HorizontalStationDefinition::PT);
    assert_eq!(HorizontalStationDefinition::PT.next(), HorizontalStationDefinition::PC);
    assert_eq!(
        HorizontalBuildDefinition::RadiusCurveAngle.next(),
        HorizontalBuildDefinition::RadiusTangent
    );
    assert_eq!(
        HorizontalBuildDefinition::RadiusTangent.next(),
        HorizontalBuildDefinition::RadiusCurveAngle
    );
    assert_eq!(ObstacleType::Above.next(), ObstacleType::Below);
    assert_eq!(ObstacleType::Below.next(), ObstacleType::Above);
}
