//! The horizontal curve's derived records, its error taxonomy, and its
//! sight-distance compliance check.

use vstd::prelude::*;

use crate::angle::Angle;
use crate::datatypes::{DesignStandard, SightType, Station};
use crate::fixed::{Fixed, fmul, in_range};

verus! {

/// The three named stations of a horizontal curve.
#[derive(Debug, Clone, Copy)]
pub struct HorizontalStations {
    pub pc: Station,
    pub pi: Station,
    pub pt: Station,
}

/// The derived quantities of a horizontal curve. `curve_length_100` is
/// the degree of curve: the deflection per hundred length-units of arc.
#[derive(Debug, Clone, Copy)]
pub struct HorizontalDimensions {
    pub radius: Fixed,
    pub curve_length: Fixed,
    pub tangent: Fixed,
    pub long_chord: Fixed,
    pub middle_ordinate: Fixed,
    pub external: Fixed,
    pub curve_length_100: Angle,
    pub curve_angle: Angle,
    pub design_speed: i32,
    pub sight_distance: Fixed,
}

/// A fully derived horizontal curve.
#[derive(Debug, Clone, Copy)]
pub struct HorizontalCurve {
    pub dimensions: HorizontalDimensions,
    pub stations: HorizontalStations,
}

/// What a horizontal-curve computation can report.
#[derive(Debug, Clone, Copy, PartialEq, Eq, Structural)]
pub enum Error {
    /// A raw input field failed to parse.
    Parse(crate::datatypes::Error),
    /// The tables give no requirement for this speed, standard and
    /// sight type.
    DesignSpeedLUTError,
    /// The radius is not positive, so the arc is degenerate or
    /// reversed.
    NonPositiveRadius,
    /// A derived quantity left the representable range.
    NumericOverflow,
}

/// What a compliance check yields: the tabled sight distance scaled by
/// the adjustment, and whether the curve's sight distance reaches it.
pub open spec fn spec_horizontal_compliance(
    c: HorizontalCurve,
    standard: DesignStandard,
    sight: SightType,
    adj: int,
) -> Result<(bool, int), Error> {
    match crate::tables::spec_min_sight(c.dimensions.design_speed as int, standard, sight) {
        None => Err(Error::DesignSpeedLUTError),
        Some(w) => if !in_range(fmul(w, adj)) {
            Err(Error::NumericOverflow)
        } else {
            Ok((c.dimensions.sight_distance@ >= fmul(w, adj), fmul(w, adj)))
        },
    }
}

impl HorizontalCurve {
    /// Checks the curve's sight distance against what the tables demand
    /// for its design speed, exactly as [`spec_horizontal_compliance`]
    /// describes.
    pub fn is_compliant(
        &self,
        design_standard: DesignStandard,
        sight_type: SightType,
        adjustment: Fixed,
    ) -> (r: Result<(bool, Fixed), Error>)
        ensures
            r matches Ok(p) ==> spec_horizontal_compliance(
                *self,
                design_standard,
                sight_type,
                adjustment@,
            ) == Ok::<(bool, int), Error>((p.0, p.1@)),
            r matches Err(e) ==> spec_horizontal_compliance(
                *self,
                design_standard,
                sight_type,
                adjustment@,
            ) == Err::<(bool, int), Error>(e),
    {
        let w = match crate::tables::get_min_sight(
            self.dimensions.design_speed,
            design_standard,
            sight_type,
        ) {
            None => {
                return Err(Error::DesignSpeedLUTError);
            },
            Some(w) => w,
        };
        let required = match w.checked_mul(adjustment) {
            None => {
                return Err(Error::NumericOverflow);
            },
            Some(v) => v,
        };
        Ok((required.le(self.dimensions.sight_distance), required))
    }
}

} // verus!
