//! Vertical (parabolic) transition curves: parsing an input record,
//! deriving the dimensions and the three named stations, and the
//! station-reference conversions among PVC, PVI and PVT.

use vstd::prelude::*;

use crate::datatypes::{
    DesignStandard, Error as ParseError, SightType, Station, ObstacleDetail, spec_elevation,
    spec_grade, spec_length, spec_speed, spec_station, coerce_elevation, coerce_grade,
    coerce_length, coerce_speed, coerce_station_value,
};
use crate::fixed::{Fixed, fdiv, fmul, in_range, tdiv};

pub mod calculate;
pub mod interval;

use self::calculate::{Error, VerticalCurve, VerticalDimensions, VerticalStations};

verus! {

/// Which of the three named stations the input record gives.
#[derive(Debug, Clone, Copy, PartialEq, Eq, Structural, Default)]
pub enum VerticalDefinition {
    #[default]
    PVI,
    PVC,
    PVT,
}

impl VerticalDefinition {
    /// The next selector in display order.
    pub fn next(self) -> (r: Self)
        ensures
            r == (match self {
                VerticalDefinition::PVC => VerticalDefinition::PVI,
                VerticalDefinition::PVI => VerticalDefinition::PVT,
                VerticalDefinition::PVT => VerticalDefinition::PVC,
            }),
    {
        match self {
            VerticalDefinition::PVC => VerticalDefinition::PVI,
            VerticalDefinition::PVI => VerticalDefinition::PVT,
            VerticalDefinition::PVT => VerticalDefinition::PVC,
        }
    }
}

/// Which way an obstacle constrains the surface.
#[derive(Debug, Clone, Copy, PartialEq, Eq, Structural, Default)]
pub enum ObstacleType {
    /// The surface must pass at or below it, like a bridge overhead.
    #[default]
    Above,
    /// The surface must pass at or above it, like a buried water pipe.
    Below,
}

impl ObstacleType {
    /// The other constraint direction.
    pub fn next(self) -> (r: Self)
        ensures
            r == (match self {
                ObstacleType::Above => ObstacleType::Below,
                ObstacleType::Below => ObstacleType::Above,
            }),
    {
        match self {
            ObstacleType::Above => ObstacleType::Below,
            ObstacleType::Below => ObstacleType::Above,
        }
    }
}

/// The raw input record for a vertical curve: every field as entered.
#[derive(Debug, Clone, Default)]
pub struct VerticalData {
    pub input_method: VerticalDefinition,
    pub input_station: String,
    pub input_elevation: String,
    pub input_incoming_grade: String,
    pub input_outgoing_grade: String,
    pub input_length: String,
    pub input_station_interval: String,
    pub input_sight_type: SightType,
    pub input_design_speed: String,
    pub input_design_standard: DesignStandard,
    pub sustained_downgrade: bool,
    pub input_obstacle_station: String,
    pub input_obstacle_elevation: String,
    pub input_obstacle_type: ObstacleType,
    pub obstacles: ObstacleDetail,
}

/// The elevation a vertical station carries.
pub open spec fn station_elev(s: Station) -> int {
    s.elevation->0@
}

/// Whether a station carries exactly the elevation `e`.
pub open spec fn station_elev_is(s: Station, e: int) -> bool {
    s.elevation matches Some(x) && x@ == e
}

/// The parabola coefficient: the grade change over twice the length.
pub open spec fn parab_a(g1: int, g2: int, l: int) -> int {
    fdiv(g2 - g1, 2 * l)
}

/// Half the rise a grade accumulates over the curve: g·L/2.
pub open spec fn half_rise(g: int, l: int) -> int {
    tdiv(fmul(g, l), 2)
}

/// The external distance: a·(L/2)².
pub open spec fn external_of(g1: int, g2: int, l: int) -> int {
    fmul(parab_a(g1, g2, l), fmul(tdiv(l, 2), tdiv(l, 2)))
}

/// Whether the derived dimensions stay representable.
pub open spec fn dims_fit(g1: int, g2: int, l: int) -> bool {
    in_range(parab_a(g1, g2, l)) && in_range(fmul(tdiv(l, 2), tdiv(l, 2))) && in_range(
        external_of(g1, g2, l),
    )
}

/// Whether a half-length station step (toward `dir`) stays representable.
pub open spec fn fits_half_step(v: int, e: int, g: int, l: int, dir: int) -> bool {
    in_range(v + dir * tdiv(l, 2)) && in_range(fmul(g, l)) && in_range(e + dir * half_rise(g, l))
}

/// Whether a full-length station step (toward `dir`) stays representable.
pub open spec fn fits_full_step(v: int, e: int, g1: int, g2: int, l: int, dir: int) -> bool {
    in_range(v + dir * l) && in_range(fmul(g1, l)) && in_range(fmul(g2, l)) && in_range(
        e + dir * half_rise(g1, l),
    ) && in_range(e + dir * half_rise(g1, l) + dir * half_rise(g2, l))
}

/// The design speed a record asks for, zero when the field does not
/// parse.
pub open spec fn spec_speed_or_zero(s: Seq<char>) -> int {
    match spec_speed(s) {
        Ok(v) => v,
        Err(_) => 0,
    }
}

/// The first failure deriving the dimensions runs into, if any: the
/// grade and length fields in order, then a length that is not
/// positive, then a derived quantity out of range.
pub open spec fn spec_vdims_err(d: VerticalData) -> Option<Error> {
    match spec_grade(d.input_incoming_grade@) {
        Err(e) => Some(Error::Parse(e)),
        Ok(g1) => match spec_grade(d.input_outgoing_grade@) {
            Err(e) => Some(Error::Parse(e)),
            Ok(g2) => match spec_length(d.input_length@) {
                Err(e) => Some(Error::Parse(e)),
                Ok(l) => if l <= 0 {
                    Some(Error::NonPositiveCurveLength)
                } else if !dims_fit(g1, g2, l) {
                    Some(Error::NumericOverflow)
                } else {
                    None
                },
            },
        },
    }
}

/// Whether the station conversions the record's method needs stay
/// representable.
pub open spec fn method_fits(
    m: VerticalDefinition,
    v: int,
    e: int,
    g1: int,
    g2: int,
    l: int,
) -> bool {
    match m {
        VerticalDefinition::PVC => fits_half_step(v, e, g1, l, 1) && fits_full_step(
            v,
            e,
            g1,
            g2,
            l,
            1,
        ),
        VerticalDefinition::PVI => fits_half_step(v, e, g1, l, -1) && fits_half_step(
            v,
            e,
            g2,
            l,
            1,
        ),
        VerticalDefinition::PVT => fits_half_step(v, e, g2, l, -1) && fits_full_step(
            v,
            e,
            g1,
            g2,
            l,
            -1,
        ),
    }
}

/// The first failure deriving the stations runs into, if any.
pub open spec fn spec_vstations_err(d: VerticalData, g1: int, g2: int, l: int) -> Option<Error> {
    match spec_station(d.input_station@) {
        Err(e) => Some(Error::Parse(e)),
        Ok(v) => match spec_elevation(d.input_elevation@) {
            Err(e) => Some(Error::Parse(e)),
            Ok(e) => if !method_fits(d.input_method, v, e, g1, g2, l) {
                Some(Error::NumericOverflow)
            } else {
                None
            },
        },
    }
}

/// The incoming grade, outgoing grade and curve length a record parses
/// to (zero where the field does not parse; only read where it does).
pub open spec fn vd_g1(d: VerticalData) -> int {
    match spec_grade(d.input_incoming_grade@) {
        Ok(v) => v,
        Err(_) => 0,
    }
}

pub open spec fn vd_g2(d: VerticalData) -> int {
    match spec_grade(d.input_outgoing_grade@) {
        Ok(v) => v,
        Err(_) => 0,
    }
}

pub open spec fn vd_l(d: VerticalData) -> int {
    match spec_length(d.input_length@) {
        Ok(v) => v,
        Err(_) => 0,
    }
}

pub open spec fn vd_v(d: VerticalData) -> int {
    match spec_station(d.input_station@) {
        Ok(v) => v,
        Err(_) => 0,
    }
}

pub open spec fn vd_e(d: VerticalData) -> int {
    match spec_elevation(d.input_elevation@) {
        Ok(v) => v,
        Err(_) => 0,
    }
}

/// The first failure deriving the whole curve runs into, if any.
pub open spec fn spec_vertical_err(d: VerticalData) -> Option<Error> {
    match spec_vdims_err(d) {
        Some(e) => Some(e),
        None => spec_vstations_err(d, vd_g1(d), vd_g2(d), vd_l(d)),
    }
}

/// Whether the three named stations hold exactly the values the
/// record's method derives from the starting station `(v, e)`.
pub open spec fn stations_match(
    st: VerticalStations,
    m: VerticalDefinition,
    v: int,
    e: int,
    g1: int,
    g2: int,
    l: int,
) -> bool {
    match m {
        VerticalDefinition::PVC => {
            &&& st.pvc.value@ == v
            &&& station_elev_is(st.pvc, e)
            &&& st.pvi.value@ == v + tdiv(l, 2)
            &&& station_elev_is(st.pvi, e + half_rise(g1, l))
            &&& st.pvt.value@ == v + l
            &&& station_elev_is(st.pvt, e + half_rise(g1, l) + half_rise(g2, l))
        },
        VerticalDefinition::PVI => {
            &&& st.pvc.value@ == v - tdiv(l, 2)
            &&& station_elev_is(st.pvc, e - half_rise(g1, l))
            &&& st.pvi.value@ == v
            &&& station_elev_is(st.pvi, e)
            &&& st.pvt.value@ == v + tdiv(l, 2)
            &&& station_elev_is(st.pvt, e + half_rise(g2, l))
        },
        VerticalDefinition::PVT => {
            &&& st.pvc.value@ == v - l
            &&& station_elev_is(st.pvc, e - half_rise(g1, l) - half_rise(g2, l))
            &&& st.pvi.value@ == v - tdiv(l, 2)
            &&& station_elev_is(st.pvi, e - half_rise(g2, l))
            &&& st.pvt.value@ == v
            &&& station_elev_is(st.pvt, e)
        },
    }
}

/// Whether the dimensions hold exactly what the record derives.
pub open spec fn dims_match(dm: VerticalDimensions, d: VerticalData) -> bool {
    &&& spec_grade(d.input_incoming_grade@) == Ok::<int, ParseError>(dm.incoming_grade@)
    &&& spec_grade(d.input_outgoing_grade@) == Ok::<int, ParseError>(dm.outgoing_grade@)
    &&& spec_length(d.input_length@) == Ok::<int, ParseError>(dm.curve_length@)
    &&& dm.curve_length@ > 0
    &&& dm.external@ == external_of(dm.incoming_grade@, dm.outgoing_grade@, dm.curve_length@)
    &&& dm.design_speed as int == spec_speed_or_zero(d.input_design_speed@)
    &&& dm.sustained_downgrade == d.sustained_downgrade
}

/// Deriving the PVI from a PVC and deriving a PVC back from that PVI
/// reproduces the original station and elevation exactly, and the
/// return step always stays representable; likewise in the other
/// direction. The same holds of the PVI–PVT pair, which uses the
/// outgoing grade.
pub proof fn lemma_half_step_round_trip(v: int, e: int, g: int, l: int)
    requires
        in_range(v),
        in_range(e),
    ensures
        fits_half_step(v, e, g, l, 1) ==> fits_half_step(
            v + tdiv(l, 2),
            e + half_rise(g, l),
            g,
            l,
            -1,
        ) && (v + tdiv(l, 2)) - tdiv(l, 2) == v && (e + half_rise(g, l)) - half_rise(g, l) == e,
        fits_half_step(v, e, g, l, -1) ==> fits_half_step(
            v - tdiv(l, 2),
            e - half_rise(g, l),
            g,
            l,
            1,
        ) && (v - tdiv(l, 2)) + tdiv(l, 2) == v && (e - half_rise(g, l)) + half_rise(g, l) == e,
{
}

/// Deriving the PVT from a PVC and deriving a PVC back from that PVT
/// reproduces the original station and elevation exactly; the return
/// step stays representable whenever its one fresh intermediate (the
/// elevation less the incoming half-rise) does.
pub proof fn lemma_full_step_round_trip(v: int, e: int, g1: int, g2: int, l: int)
    requires
        in_range(v),
        in_range(e),
    ensures
        fits_full_step(v, e, g1, g2, l, 1) ==> (v + l) - l == v && (e + half_rise(g1, l)
            + half_rise(g2, l)) - half_rise(g1, l) - half_rise(g2, l) == e && (in_range(
            e + half_rise(g2, l),
        ) ==> fits_full_step(
            v + l,
            e + half_rise(g1, l) + half_rise(g2, l),
            g1,
            g2,
            l,
            -1,
        )),
        fits_full_step(v, e, g1, g2, l, -1) ==> (v - l) + l == v && (e - half_rise(g1, l)
            - half_rise(g2, l)) + half_rise(g1, l) + half_rise(g2, l) == e && (in_range(
            e - half_rise(g2, l),
        ) ==> fits_full_step(
            v - l,
            e - half_rise(g1, l) - half_rise(g2, l),
            g1,
            g2,
            l,
            1,
        )),
{
}

impl VerticalData {
    /// Derives the curve's dimensions from the raw fields.
    fn to_dimensions(&self) -> (r: Result<VerticalDimensions, Error>)
        ensures
            r is Err <==> spec_vdims_err(*self) is Some,
            r matches Err(e) ==> spec_vdims_err(*self) == Some(e),
            r matches Ok(dm) ==> dims_match(dm, *self),
    {
        let incoming_grade = match coerce_grade(self.input_incoming_grade.as_str()) {
            Err(e) => {
                return Err(Error::Parse(e));
            },
            Ok(g) => g,
        };
        let outgoing_grade = match coerce_grade(self.input_outgoing_grade.as_str()) {
            Err(e) => {
                return Err(Error::Parse(e));
            },
            Ok(g) => g,
        };
        let curve_length = match coerce_length(self.input_length.as_str()) {
            Err(e) => {
                return Err(Error::Parse(e));
            },
            Ok(l) => l,
        };
        if curve_length.is_zero() || curve_length.is_neg() {
            return Err(Error::NonPositiveCurveLength);
        }
        let diff = match outgoing_grade.checked_sub(incoming_grade) {
            Some(v) => v,
            None => unreached(),
        };
        let twol = match curve_length.checked_add(curve_length) {
            Some(v) => v,
            None => unreached(),
        };
        let a = match diff.checked_div(twol) {
            None => {
                return Err(Error::NumericOverflow);
            },
            Some(a) => a,
        };
        let half = curve_length.halved();
        let hh = match half.checked_mul(half) {
            None => {
                return Err(Error::NumericOverflow);
            },
            Some(v) => v,
        };
        let external = match a.checked_mul(hh) {
            None => {
                return Err(Error::NumericOverflow);
            },
            Some(v) => v,
        };
        let design_speed = match coerce_speed(self.input_design_speed.as_str()) {
            Ok(v) => v,
            Err(_) => 0,
        };
        Ok(
            VerticalDimensions {
                incoming_grade,
                outgoing_grade,
                curve_length,
                external,
                design_speed,
                sustained_downgrade: self.sustained_downgrade,
            },
        )
    }

    /// The station a half length past the PVC: the PVI.
    fn pvc_to_pvi(&self, sts: Station, dim: &VerticalDimensions) -> (r: Option<Station>)
        requires
            sts.elevation is Some,
        ensures
            r is Some <==> fits_half_step(
                sts.value@,
                station_elev(sts),
                dim.incoming_grade@,
                dim.curve_length@,
                1,
            ),
            r matches Some(p) ==> p.value@ == sts.value@ + tdiv(dim.curve_length@, 2)
                && station_elev_is(
                p,
                station_elev(sts) + half_rise(dim.incoming_grade@, dim.curve_length@),
            ) && p.deflection is None && p.chord is None,
    {
        let e = match sts.elevation {
            Some(e) => e,
            None => unreached(),
        };
        let nv = match sts.value.checked_add(dim.curve_length.halved()) {
            None => {
                return None;
            },
            Some(v) => v,
        };
        let rise = match dim.incoming_grade.checked_mul(dim.curve_length) {
            None => {
                return None;
            },
            Some(v) => v,
        };
        let ne = match e.checked_add(rise.halved()) {
            None => {
                return None;
            },
            Some(v) => v,
        };
        Some(Station { value: nv, elevation: Some(ne), deflection: None, chord: None })
    }

    /// The station a half length before the PVI: the PVC.
    fn pvi_to_pvc(&self, sts: Station, dim: &VerticalDimensions) -> (r: Option<Station>)
        requires
            sts.elevation is Some,
        ensures
            r is Some <==> fits_half_step(
                sts.value@,
                station_elev(sts),
                dim.incoming_grade@,
                dim.curve_length@,
                -1,
            ),
            r matches Some(p) ==> p.value@ == sts.value@ - tdiv(dim.curve_length@, 2)
                && station_elev_is(
                p,
                station_elev(sts) - half_rise(dim.incoming_grade@, dim.curve_length@),
            ) && p.deflection is None && p.chord is None,
    {
        let e = match sts.elevation {
            Some(e) => e,
            None => unreached(),
        };
        let nv = match sts.value.checked_sub(dim.curve_length.halved()) {
            None => {
                return None;
            },
            Some(v) => v,
        };
        let rise = match dim.incoming_grade.checked_mul(dim.curve_length) {
            None => {
                return None;
            },
            Some(v) => v,
        };
        let ne = match e.checked_sub(rise.halved()) {
            None => {
                return None;
            },
            Some(v) => v,
        };
        Some(Station { value: nv, elevation: Some(ne), deflection: None, chord: None })
    }

    /// The station a half length past the PVI: the PVT.
    fn pvi_to_pvt(&self, sts: Station, dim: &VerticalDimensions) -> (r: Option<Station>)
        requires
            sts.elevation is Some,
        ensures
            r is Some <==> fits_half_step(
                sts.value@,
                station_elev(sts),
                dim.outgoing_grade@,
                dim.curve_length@,
                1,
            ),
            r matches Some(p) ==> p.value@ == sts.value@ + tdiv(dim.curve_length@, 2)
                && station_elev_is(
                p,
                station_elev(sts) + half_rise(dim.outgoing_grade@, dim.curve_length@),
            ) && p.deflection is None && p.chord is None,
    {
        let e = match sts.elevation {
            Some(e) => e,
            None => unreached(),
        };
        let nv = match sts.value.checked_add(dim.curve_length.halved()) {
            None => {
                return None;
            },
            Some(v) => v,
        };
        let rise = match dim.outgoing_grade.checked_mul(dim.curve_length) {
            None => {
                return None;
            },
            Some(v) => v,
        };
        let ne = match e.checked_add(rise.halved()) {
            None => {
                return None;
            },
            Some(v) => v,
        };
        Some(Station { value: nv, elevation: Some(ne), deflection: None, chord: None })
    }

    /// The station a half length before the PVT: the PVI.
    fn pvt_to_pvi(&self, sts: Station, dim: &VerticalDimensions) -> (r: Option<Station>)
        requires
            sts.elevation is Some,
        ensures
            r is Some <==> fits_half_step(
                sts.value@,
                station_elev(sts),
                dim.outgoing_grade@,
                dim.curve_length@,
                -1,
            ),
            r matches Some(p) ==> p.value@ == sts.value@ - tdiv(dim.curve_length@, 2)
                && station_elev_is(
                p,
                station_elev(sts) - half_rise(dim.outgoing_grade@, dim.curve_length@),
            ) && p.deflection is None && p.chord is None,
    {
        let e = match sts.elevation {
            Some(e) => e,
            None => unreached(),
        };
        let nv = match sts.value.checked_sub(dim.curve_length.halved()) {
            None => {
                return None;
            },
            Some(v) => v,
        };
        let rise = match dim.outgoing_grade.checked_mul(dim.curve_length) {
            None => {
                return None;
            },
            Some(v) => v,
        };
        let ne = match e.checked_sub(rise.halved()) {
            None => {
                return None;
            },
            Some(v) => v,
        };
        Some(Station { value: nv, elevation: Some(ne), deflection: None, chord: None })
    }

    /// The station a whole length past the PVC: the PVT.
    fn pvc_to_pvt(&self, sts: Station, dim: &VerticalDimensions) -> (r: Option<Station>)
        requires
            sts.elevation is Some,
        ensures
            r is Some <==> fits_full_step(
                sts.value@,
                station_elev(sts),
                dim.incoming_grade@,
                dim.outgoing_grade@,
                dim.curve_length@,
                1,
            ),
            r matches Some(p) ==> p.value@ == sts.value@ + dim.curve_length@ && station_elev_is(
                p,
                station_elev(sts) + half_rise(dim.incoming_grade@, dim.curve_length@) + half_rise(
                    dim.outgoing_grade@,
                    dim.curve_length@,
                ),
            ) && p.deflection is None && p.chord is None,
    {
        let e = match sts.elevation {
            Some(e) => e,
            None => unreached(),
        };
        let nv = match sts.value.checked_add(dim.curve_length) {
            None => {
                return None;
            },
            Some(v) => v,
        };
        let rise1 = match dim.incoming_grade.checked_mul(dim.curve_length) {
            None => {
                return None;
            },
            Some(v) => v,
        };
        let rise2 = match dim.outgoing_grade.checked_mul(dim.curve_length) {
            None => {
                return None;
            },
            Some(v) => v,
        };
        let mid = match e.checked_add(rise1.halved()) {
            None => {
                return None;
            },
            Some(v) => v,
        };
        let ne = match mid.checked_add(rise2.halved()) {
            None => {
                return None;
            },
            Some(v) => v,
        };
        Some(Station { value: nv, elevation: Some(ne), deflection: None, chord: None })
    }

    /// The station a whole length before the PVT: the PVC.
    fn pvt_to_pvc(&self, sts: Station, dim: &VerticalDimensions) -> (r: Option<Station>)
        requires
            sts.elevation is Some,
        ensures
            r is Some <==> fits_full_step(
                sts.value@,
                station_elev(sts),
                dim.incoming_grade@,
                dim.outgoing_grade@,
                dim.curve_length@,
                -1,
            ),
            r matches Some(p) ==> p.value@ == sts.value@ - dim.curve_length@ && station_elev_is(
                p,
                station_elev(sts) - half_rise(dim.incoming_grade@, dim.curve_length@) - half_rise(
                    dim.outgoing_grade@,
                    dim.curve_length@,
                ),
            ) && p.deflection is None && p.chord is None,
    {
        let e = match sts.elevation {
            Some(e) => e,
            None => unreached(),
        };
        let nv = match sts.value.checked_sub(dim.curve_length) {
            None => {
                return None;
            },
            Some(v) => v,
        };
        let rise1 = match dim.incoming_grade.checked_mul(dim.curve_length) {
            None => {
                return None;
            },
            Some(v) => v,
        };
        let rise2 = match dim.outgoing_grade.checked_mul(dim.curve_length) {
            None => {
                return None;
            },
            Some(v) => v,
        };
        let mid = match e.checked_sub(rise1.halved()) {
            None => {
                return None;
            },
            Some(v) => v,
        };
        let ne = match mid.checked_sub(rise2.halved()) {
            None => {
                return None;
            },
            Some(v) => v,
        };
        Some(Station { value: nv, elevation: Some(ne), deflection: None, chord: None })
    }

    /// Derives the three named stations from the raw fields and the
    /// dimensions.
    fn to_stations(&self, dimensions: &VerticalDimensions) -> (r: Result<VerticalStations, Error>)
        ensures
            r is Err <==> spec_vstations_err(
                *self,
                dimensions.incoming_grade@,
                dimensions.outgoing_grade@,
                dimensions.curve_length@,
            ) is Some,
            r matches Err(e) ==> spec_vstations_err(
                *self,
                dimensions.incoming_grade@,
                dimensions.outgoing_grade@,
                dimensions.curve_length@,
            ) == Some(e),
            r matches Ok(st) ==> spec_station(self.input_station@) == Ok::<int, ParseError>(
                vd_v(*self),
            ) && spec_elevation(self.input_elevation@) == Ok::<int, ParseError>(vd_e(*self))
                && stations_match(
                st,
                self.input_method,
                vd_v(*self),
                vd_e(*self),
                dimensions.incoming_grade@,
                dimensions.outgoing_grade@,
                dimensions.curve_length@,
            ),
    {
        let value = match coerce_station_value(self.input_station.as_str()) {
            Err(e) => {
                return Err(Error::Parse(e));
            },
            Ok(v) => v,
        };
        let elevation = match coerce_elevation(self.input_elevation.as_str()) {
            Err(e) => {
                return Err(Error::Parse(e));
            },
            Ok(v) => v,
        };
        let starting_station = Station {
            value,
            elevation: Some(elevation),
            deflection: None,
            chord: None,
        };
        match self.input_method {
            VerticalDefinition::PVC => {
                let pvi = match self.pvc_to_pvi(starting_station, dimensions) {
                    None => {
                        return Err(Error::NumericOverflow);
                    },
                    Some(p) => p,
                };
                let pvt = match self.pvc_to_pvt(starting_station, dimensions) {
                    None => {
                        return Err(Error::NumericOverflow);
                    },
                    Some(p) => p,
                };
                Ok(VerticalStations { pvc: starting_station, pvi, pvt })
            },
            VerticalDefinition::PVI => {
                let pvc = match self.pvi_to_pvc(starting_station, dimensions) {
                    None => {
                        return Err(Error::NumericOverflow);
                    },
                    Some(p) => p,
                };
                let pvt = match self.pvi_to_pvt(starting_station, dimensions) {
                    None => {
                        return Err(Error::NumericOverflow);
                    },
                    Some(p) => p,
                };
                Ok(VerticalStations { pvc, pvi: starting_station, pvt })
            },
            VerticalDefinition::PVT => {
                let pvi = match self.pvt_to_pvi(starting_station, dimensions) {
                    None => {
                        return Err(Error::NumericOverflow);
                    },
                    Some(p) => p,
                };
                let pvc = match self.pvt_to_pvc(starting_station, dimensions) {
                    None => {
                        return Err(Error::NumericOverflow);
                    },
                    Some(p) => p,
                };
                Ok(VerticalStations { pvc, pvi, pvt: starting_station })
            },
        }
    }

    /// Derives the whole curve from the raw fields: the dimensions,
    /// then the stations. The result is `Ok` exactly when every field
    /// parses, the length is positive, and every derived quantity stays
    /// representable; the error is the first failure met.
    pub fn to_vertical_curve(&self) -> (r: Result<VerticalCurve, Error>)
        ensures
            r is Err <==> spec_vertical_err(*self) is Some,
            r matches Err(e) ==> spec_vertical_err(*self) == Some(e),
            r matches Ok(c) ==> dims_match(c.dimensions, *self) && stations_match(
                c.stations,
                self.input_method,
                vd_v(*self),
                vd_e(*self),
                vd_g1(*self),
                vd_g2(*self),
                vd_l(*self),
            ),
    {
        let dimensions = match self.to_dimensions() {
            Err(e) => {
                return Err(e);
            },
            Ok(d) => d,
        };
        let stations = match self.to_stations(&dimensions) {
            Err(e) => {
                return Err(e);
            },
            Ok(s) => s,
        };
        Ok(VerticalCurve { dimensions, stations })
    }
}

} // verus!
