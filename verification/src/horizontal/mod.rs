//! Horizontal (circular-arc) transition curves: parsing an input
//! record, deriving the dimensions and the three named stations, and
//! the station-reference conversions among PC, PI and PT.
//!
//! A circular curve's dimensions rest on a handful of transcendental
//! values (the angle in radians, tangent, cosine and sine of the half
//! angle, and the sightline offset angle). Those cannot be computed
//! here; the caller evaluates them and hands them in as a
//! [`TrigValues`], and everything built from them is exact.

use vstd::prelude::*;

use crate::angle::{Angle, spec_angle};
use crate::datatypes::{
    DesignStandard, Error as ParseError, SightType, Station, spec_length, spec_speed,
    spec_station, coerce_length, coerce_speed, coerce_station_value,
};
use crate::fixed::{Fixed, SCALE, fdiv, fmul, in_range};

pub mod calculate;
pub mod interval;

use self::calculate::{Error, HorizontalCurve, HorizontalDimensions, HorizontalStations};

verus! {

/// Which of the three named stations the input record gives.
#[derive(Debug, Clone, Copy, PartialEq, Eq, Structural, Default)]
pub enum HorizontalStationDefinition {
    #[default]
    PI,
    PC,
    PT,
}

impl HorizontalStationDefinition {
    /// The next selector in display order.
    pub fn next(self) -> (r: Self)
        ensures
            r == (match self {
                HorizontalStationDefinition::PC => HorizontalStationDefinition::PI,
                HorizontalStationDefinition::PI => HorizontalStationDefinition::PT,
                HorizontalStationDefinition::PT => HorizontalStationDefinition::PC,
            }),
    {
        match self {
            Self::PC => Self::PI,
            Self::PI => Self::PT,
            Self::PT => Self::PC,
        }
    }
}

/// Which pair of measurements defines the arc.
#[derive(Debug, Clone, Copy, PartialEq, Eq, Structural, Default)]
pub enum HorizontalBuildDefinition {
    #[default]
    RadiusCurveAngle,
    RadiusTangent,
}

impl HorizontalBuildDefinition {
    /// The other build method.
    pub fn next(self) -> (r: Self)
        ensures
            r == (match self {
                HorizontalBuildDefinition::RadiusCurveAngle
                    => HorizontalBuildDefinition::RadiusTangent,
                HorizontalBuildDefinition::RadiusTangent
                    => HorizontalBuildDefinition::RadiusCurveAngle,
            }),
    {
        match self {
            Self::RadiusCurveAngle => Self::RadiusTangent,
            Self::RadiusTangent => Self::RadiusCurveAngle,
        }
    }
}

/// The raw input record for a horizontal curve: every field as entered.
#[derive(Debug, Clone, Default)]
pub struct HorizontalData {
    pub input_station_method: HorizontalStationDefinition,
    pub input_build_method: HorizontalBuildDefinition,
    pub input_station: String,
    pub input_length: String,
    pub input_radius: String,
    pub input_curve_angle: String,
    pub input_tangent: String,
    pub input_station_interval: String,
    pub input_sight_type: SightType,
    pub input_design_speed: String,
    pub input_m: String,
    pub input_design_standard: DesignStandard,
    pub sustained_downgrade: bool,
}

/// The transcendental values a circular curve's derivations rest on,
/// evaluated by the caller for the curve's angle Δ, radius R and
/// sightline offset m.
#[derive(Debug, Clone, Copy)]
pub struct TrigValues {
    /// Δ in radians.
    pub radians: Fixed,
    /// tan(Δ/2).
    pub tan_half: Fixed,
    /// cos(Δ/2).
    pub cos_half: Fixed,
    /// sin(Δ/2).
    pub sin_half: Fixed,
    /// acos((R − m)/R)·180/π: the sightline offset's central angle, in
    /// decimal degrees.
    pub offset_degrees: Fixed,
    /// Δ in decimal degrees; read only by the radius-and-tangent build,
    /// where Δ = 2·atan(T/R) cannot be computed here.
    pub angle_degrees: Fixed,
}

/// Nano-degrees of arc per hundred length-units at unit radius:
/// 5729.6, the arc-definition constant.
pub const ARC_DEF_NANO: i128 = 5_729_600_000_000;

/// Nano-units of the sight-distance divisor 28.65.
pub const SIGHT_DIV_NANO: i128 = 28_650_000_000;

/// Whether every derived dimension stays representable; the tangent is
/// derived only by the radius-and-curve-angle build.
pub open spec fn hdims_fit(m: HorizontalBuildDefinition, r: int, t: TrigValues) -> bool {
    &&& in_range(fmul(r, t.radians@))
    &&& (m matches HorizontalBuildDefinition::RadiusCurveAngle ==> in_range(
        fmul(r, t.tan_half@),
    ))
    &&& t.cos_half@ != 0
    &&& in_range(fdiv(SCALE as int, t.cos_half@))
    &&& in_range(fdiv(SCALE as int, t.cos_half@) - SCALE as int)
    &&& in_range(fmul(r, fdiv(SCALE as int, t.cos_half@) - SCALE as int))
    &&& in_range(SCALE as int - t.cos_half@)
    &&& in_range(fmul(r, SCALE as int - t.cos_half@))
    &&& in_range(2 * r)
    &&& in_range(fmul(2 * r, t.sin_half@))
    &&& r != 0
    &&& in_range(fdiv(ARC_DEF_NANO as int, r))
    &&& in_range(fdiv(r, SIGHT_DIV_NANO as int))
    &&& in_range(fmul(fdiv(r, SIGHT_DIV_NANO as int), t.offset_degrees@))
}

/// The first failure deriving the dimensions runs into, if any: the
/// defining fields in the build method's order, then a radius that is
/// not positive (the arc would be degenerate or reversed), then a
/// derived quantity out of range.
pub open spec fn spec_hdims_err(d: HorizontalData, t: TrigValues) -> Option<Error> {
    match d.input_build_method {
        HorizontalBuildDefinition::RadiusCurveAngle => match spec_length(d.input_radius@) {
            Err(e) => Some(Error::Parse(e)),
            Ok(r) => match spec_angle(d.input_curve_angle@) {
                Err(e) => Some(Error::Parse(e)),
                Ok(_) => if r <= 0 {
                    Some(Error::NonPositiveRadius)
                } else if !hdims_fit(d.input_build_method, r, t) {
                    Some(Error::NumericOverflow)
                } else {
                    None
                },
            },
        },
        HorizontalBuildDefinition::RadiusTangent => match spec_length(d.input_tangent@) {
            Err(e) => Some(Error::Parse(e)),
            Ok(_) => match spec_length(d.input_radius@) {
                Err(e) => Some(Error::Parse(e)),
                Ok(r) => if r <= 0 {
                    Some(Error::NonPositiveRadius)
                } else if !hdims_fit(d.input_build_method, r, t) {
                    Some(Error::NumericOverflow)
                } else {
                    None
                },
            },
        },
    }
}

/// The radius, curve angle and tangent a record derives (zero where a
/// field does not parse; only read where it does).
pub open spec fn hd_radius(d: HorizontalData) -> int {
    match spec_length(d.input_radius@) {
        Ok(v) => v,
        Err(_) => 0,
    }
}

pub open spec fn hd_angle_degrees(d: HorizontalData, t: TrigValues) -> int {
    match d.input_build_method {
        HorizontalBuildDefinition::RadiusCurveAngle => match spec_angle(d.input_curve_angle@) {
            Ok(v) => v,
            Err(_) => 0,
        },
        HorizontalBuildDefinition::RadiusTangent => t.angle_degrees@,
    }
}

pub open spec fn hd_tangent(d: HorizontalData, t: TrigValues) -> int {
    match d.input_build_method {
        HorizontalBuildDefinition::RadiusCurveAngle => fmul(hd_radius(d), t.tan_half@),
        HorizontalBuildDefinition::RadiusTangent => match spec_length(d.input_tangent@) {
            Ok(v) => v,
            Err(_) => 0,
        },
    }
}

/// Whether the dimensions hold exactly what the record and the
/// supplied transcendental values derive.
pub open spec fn hdims_match(dm: HorizontalDimensions, d: HorizontalData, t: TrigValues) -> bool {
    let r = dm.radius@;
    &&& spec_length(d.input_radius@) == Ok::<int, ParseError>(r)
    &&& dm.curve_angle.decimal_degrees@ == hd_angle_degrees(d, t)
    &&& dm.tangent@ == hd_tangent(d, t)
    &&& dm.curve_length@ == fmul(r, t.radians@)
    &&& dm.external@ == fmul(r, fdiv(SCALE as int, t.cos_half@) - SCALE as int)
    &&& dm.middle_ordinate@ == fmul(r, SCALE as int - t.cos_half@)
    &&& dm.long_chord@ == fmul(2 * r, t.sin_half@)
    &&& dm.curve_length_100.decimal_degrees@ == fdiv(ARC_DEF_NANO as int, r)
    &&& dm.sight_distance@ == fmul(fdiv(r, SIGHT_DIV_NANO as int), t.offset_degrees@)
    &&& dm.design_speed as int == crate::vertical::spec_speed_or_zero(d.input_design_speed@)
}

/// Whether the station conversions the record's method needs stay
/// representable.
pub open spec fn h_method_fits(
    m: HorizontalStationDefinition,
    v: int,
    tan: int,
    cl: int,
) -> bool {
    match m {
        HorizontalStationDefinition::PC => in_range(v + tan) && in_range(v + cl),
        HorizontalStationDefinition::PI => in_range(v - tan) && in_range(v + tan),
        HorizontalStationDefinition::PT => in_range(v - tan) && in_range(v - cl),
    }
}

/// The first failure deriving the stations runs into, if any.
pub open spec fn spec_hstations_err(d: HorizontalData, tan: int, cl: int) -> Option<Error> {
    match spec_station(d.input_station@) {
        Err(e) => Some(Error::Parse(e)),
        Ok(v) => if !h_method_fits(d.input_station_method, v, tan, cl) {
            Some(Error::NumericOverflow)
        } else {
            None
        },
    }
}

pub open spec fn hd_v(d: HorizontalData) -> int {
    match spec_station(d.input_station@) {
        Ok(v) => v,
        Err(_) => 0,
    }
}

/// A station holding the value `v` and nothing else: elevation,
/// deflection and chord are not tracked for horizontal curves.
pub open spec fn h_station_bare(s: Station, v: int) -> bool {
    &&& s.value@ == v
    &&& s.elevation is None
    &&& s.deflection is None
    &&& s.chord is None
}

/// Whether the three named stations hold exactly the values the
/// record's method derives from the starting value `v`, and only
/// those values.
pub open spec fn h_stations_match(
    st: HorizontalStations,
    m: HorizontalStationDefinition,
    v: int,
    tan: int,
    cl: int,
) -> bool {
    match m {
        HorizontalStationDefinition::PC => h_station_bare(st.pc, v) && h_station_bare(
            st.pi,
            v + tan,
        ) && h_station_bare(st.pt, v + cl),
        HorizontalStationDefinition::PI => h_station_bare(st.pc, v - tan) && h_station_bare(
            st.pi,
            v,
        ) && h_station_bare(st.pt, v + tan),
        HorizontalStationDefinition::PT => h_station_bare(st.pc, v - cl) && h_station_bare(
            st.pi,
            v - tan,
        ) && h_station_bare(st.pt, v),
    }
}

/// The first failure deriving the whole curve runs into, if any.
pub open spec fn spec_horizontal_err(d: HorizontalData, t: TrigValues) -> Option<Error> {
    match spec_hdims_err(d, t) {
        Some(e) => Some(e),
        None => spec_hstations_err(d, hd_tangent(d, t), fmul(hd_radius(d), t.radians@)),
    }
}

impl HorizontalData {
    /// Derives the curve's dimensions from the raw fields and the
    /// supplied transcendental values.
    fn to_dimensions(&self, trig: &TrigValues) -> (r: Result<HorizontalDimensions, Error>)
        ensures
            r is Err <==> spec_hdims_err(*self, *trig) is Some,
            r matches Err(e) ==> spec_hdims_err(*self, *trig) == Some(e),
            r matches Ok(dm) ==> hdims_match(dm, *self, *trig),
    {
        let (radius, curve_angle, tangent_in) = match self.input_build_method {
            HorizontalBuildDefinition::RadiusCurveAngle => {
                let radius = match coerce_length(self.input_radius.as_str()) {
                    Err(e) => {
                        return Err(Error::Parse(e));
                    },
                    Ok(v) => v,
                };
                let curve_angle = match Angle::from(self.input_curve_angle.as_str()) {
                    Err(e) => {
                        return Err(Error::Parse(e));
                    },
                    Ok(v) => v,
                };
                (radius, curve_angle, None)
            },
            HorizontalBuildDefinition::RadiusTangent => {
                let tangent = match coerce_length(self.input_tangent.as_str()) {
                    Err(e) => {
                        return Err(Error::Parse(e));
                    },
                    Ok(v) => v,
                };
                let radius = match coerce_length(self.input_radius.as_str()) {
                    Err(e) => {
                        return Err(Error::Parse(e));
                    },
                    Ok(v) => v,
                };
                (radius, Angle { decimal_degrees: trig.angle_degrees }, Some(tangent))
            },
        };
        if !Fixed::zero().lt(radius) {
            return Err(Error::NonPositiveRadius);
        }
        let curve_length = match radius.checked_mul(trig.radians) {
            None => {
                return Err(Error::NumericOverflow);
            },
            Some(v) => v,
        };
        let tangent = match tangent_in {
            Some(t) => t,
            None => match radius.checked_mul(trig.tan_half) {
                None => {
                    return Err(Error::NumericOverflow);
                },
                Some(v) => v,
            },
        };
        if trig.cos_half.is_zero() {
            return Err(Error::NumericOverflow);
        }
        let one = Fixed::one();
        let sec = match one.checked_div(trig.cos_half) {
            None => {
                return Err(Error::NumericOverflow);
            },
            Some(v) => v,
        };
        let sec_less = match sec.checked_sub(one) {
            None => {
                return Err(Error::NumericOverflow);
            },
            Some(v) => v,
        };
        let external = match radius.checked_mul(sec_less) {
            None => {
                return Err(Error::NumericOverflow);
            },
            Some(v) => v,
        };
        let versine = match one.checked_sub(trig.cos_half) {
            None => {
                return Err(Error::NumericOverflow);
            },
            Some(v) => v,
        };
        let middle_ordinate = match radius.checked_mul(versine) {
            None => {
                return Err(Error::NumericOverflow);
            },
            Some(v) => v,
        };
        let twor = match radius.checked_add(radius) {
            None => {
                return Err(Error::NumericOverflow);
            },
            Some(v) => v,
        };
        let long_chord = match twor.checked_mul(trig.sin_half) {
            None => {
                return Err(Error::NumericOverflow);
            },
            Some(v) => v,
        };
        let arc_def = match Fixed::from_nano(ARC_DEF_NANO) {
            Some(v) => v,
            None => unreached(),
        };
        let degree_of_curve = match arc_def.checked_div(radius) {
            None => {
                return Err(Error::NumericOverflow);
            },
            Some(v) => v,
        };
        let sight_div = match Fixed::from_nano(SIGHT_DIV_NANO) {
            Some(v) => v,
            None => unreached(),
        };
        let r_scaled = match radius.checked_div(sight_div) {
            None => {
                return Err(Error::NumericOverflow);
            },
            Some(v) => v,
        };
        let sight_distance = match r_scaled.checked_mul(trig.offset_degrees) {
            None => {
                return Err(Error::NumericOverflow);
            },
            Some(v) => v,
        };
        let design_speed = match coerce_speed(self.input_design_speed.as_str()) {
            Ok(v) => v,
            Err(_) => 0,
        };
        Ok(
            HorizontalDimensions {
                radius,
                curve_length,
                tangent,
                long_chord,
                middle_ordinate,
                external,
                curve_length_100: Angle { decimal_degrees: degree_of_curve },
                curve_angle,
                design_speed,
                sight_distance,
            },
        )
    }

    /// Derives the three named stations from the raw station field and
    /// the dimensions.
    fn to_stations(&self, dimensions: &HorizontalDimensions) -> (r: Result<
        HorizontalStations,
        Error,
    >)
        ensures
            r is Err <==> spec_hstations_err(
                *self,
                dimensions.tangent@,
                dimensions.curve_length@,
            ) is Some,
            r matches Err(e) ==> spec_hstations_err(
                *self,
                dimensions.tangent@,
                dimensions.curve_length@,
            ) == Some(e),
            r matches Ok(st) ==> spec_station(self.input_station@) == Ok::<int, ParseError>(
                hd_v(*self),
            ) && h_stations_match(
                st,
                self.input_station_method,
                hd_v(*self),
                dimensions.tangent@,
                dimensions.curve_length@,
            ),
    {
        let value = match coerce_station_value(self.input_station.as_str()) {
            Err(e) => {
                return Err(Error::Parse(e));
            },
            Ok(v) => v,
        };
        match self.input_station_method {
            HorizontalStationDefinition::PC => {
                let pi = match value.checked_add(dimensions.tangent) {
                    None => {
                        return Err(Error::NumericOverflow);
                    },
                    Some(v) => v,
                };
                let pt = match value.checked_add(dimensions.curve_length) {
                    None => {
                        return Err(Error::NumericOverflow);
                    },
                    Some(v) => v,
                };
                Ok(
                    HorizontalStations {
                        pc: Station::bare(value),
                        pi: Station::bare(pi),
                        pt: Station::bare(pt),
                    },
                )
            },
            HorizontalStationDefinition::PI => {
                let pc = match value.checked_sub(dimensions.tangent) {
                    None => {
                        return Err(Error::NumericOverflow);
                    },
                    Some(v) => v,
                };
                let pt = match value.checked_add(dimensions.tangent) {
                    None => {
                        return Err(Error::NumericOverflow);
                    },
                    Some(v) => v,
                };
                Ok(
                    HorizontalStations {
                        pc: Station::bare(pc),
                        pi: Station::bare(value),
                        pt: Station::bare(pt),
                    },
                )
            },
            HorizontalStationDefinition::PT => {
                let pc = match value.checked_sub(dimensions.curve_length) {
                    None => {
                        return Err(Error::NumericOverflow);
                    },
                    Some(v) => v,
                };
                let pi = match value.checked_sub(dimensions.tangent) {
                    None => {
                        return Err(Error::NumericOverflow);
                    },
                    Some(v) => v,
                };
                Ok(
                    HorizontalStations {
                        pc: Station::bare(pc),
                        pi: Station::bare(pi),
                        pt: Station::bare(value),
                    },
                )
            },
        }
    }

    /// Derives the whole curve from the raw fields and the supplied
    /// transcendental values: the dimensions, then the stations. The
    /// result is `Ok` exactly when the defining fields parse and every
    /// derived quantity stays representable; the error is the first
    /// failure met.
    pub fn to_horizontal_curve(&self, trig: &TrigValues) -> (r: Result<HorizontalCurve, Error>)
        ensures
            r is Err <==> spec_horizontal_err(*self, *trig) is Some,
            r matches Err(e) ==> spec_horizontal_err(*self, *trig) == Some(e),
            r matches Ok(c) ==> hdims_match(c.dimensions, *self, *trig) && h_stations_match(
                c.stations,
                self.input_station_method,
                hd_v(*self),
                hd_tangent(*self, *trig),
                fmul(hd_radius(*self), trig.radians@),
            ),
    {
        let dimensions = match self.to_dimensions(trig) {
            Err(e) => {
                return Err(e);
            },
            Ok(d) => d,
        };
        let stations = match self.to_stations(&dimensions) {
            Err(e) => {
                return Err(e);
            },
            Ok(s) => s,
        };
        Ok(HorizontalCurve { dimensions, stations })
    }
}

} // verus!
