//! The vertical curve's derived records, its error taxonomy, and its
//! compliance checks.

use vstd::prelude::*;

use crate::datatypes::{DesignStandard, ObstacleStation, ObstacleDetail, SightType, Station};
use crate::fixed::{Fixed, fdiv, fmul, iabs, in_range, tdiv, SCALE};
use crate::vertical::{parab_a, station_elev, station_elev_is};

verus! {

/// The three named stations of a vertical curve.
#[derive(Debug, Clone, Copy)]
pub struct VerticalStations {
    pub pvc: Station,
    pub pvi: Station,
    pub pvt: Station,
}

/// The derived quantities of a vertical curve.
#[derive(Debug, Clone, Copy)]
pub struct VerticalDimensions {
    pub incoming_grade: Fixed,
    pub outgoing_grade: Fixed,
    pub curve_length: Fixed,
    pub external: Fixed,
    pub design_speed: i32,
    pub sustained_downgrade: bool,
}

/// A fully derived vertical curve.
#[derive(Debug, Clone, Copy)]
pub struct VerticalCurve {
    pub dimensions: VerticalDimensions,
    pub stations: VerticalStations,
}

/// What a vertical-curve computation can report.
#[derive(Debug, Clone, Copy, PartialEq)]
pub enum Error {
    /// A raw input field failed to parse.
    Parse(crate::datatypes::Error),
    /// An obstacle stands outside the curve.
    ObstacleOutOfRange { station: Station },
    /// The tables give no requirement for this speed, standard and
    /// sight type.
    DesignSpeedNotInStandard,
    /// Neither branch of the minimum-length equation is consistent with
    /// its own assumption.
    BranchResolutionFailure { standard: DesignStandard, sight_type: SightType, crest: bool },
    /// The curve length is not positive, so the parabola is undefined
    /// or the curve reversed.
    NonPositiveCurveLength,
    /// The grades are equal, so the curve has no extreme point.
    FlatGrade,
    /// A derived quantity left the representable range.
    NumericOverflow,
}

/// What an obstacle check yields per obstacle: whether the curve
/// clears it, the obstacle, the curve's station there, and the
/// elevation difference.
pub type ObstacleReturn = Result<(bool, ObstacleStation, Station, Fixed), Error>;

/// The parabola coefficient of a curve.
pub open spec fn curve_a(c: VerticalCurve) -> int {
    parab_a(c.dimensions.incoming_grade@, c.dimensions.outgoing_grade@, c.dimensions.curve_length@)
}

/// The curve's elevation at offset `x` past the PVC: e₀ + g₁·x + a·x².
pub open spec fn parab_elev(e0: int, g1: int, a: int, x: int) -> int {
    e0 + fmul(g1, x) + fmul(a, fmul(x, x))
}

/// Whether the parabola's coefficient stays representable.
pub open spec fn coeff_fits(c: VerticalCurve) -> bool {
    &&& in_range(c.dimensions.outgoing_grade@ - c.dimensions.incoming_grade@)
    &&& in_range(2 * c.dimensions.curve_length@)
    &&& in_range(curve_a(c))
}

/// Whether evaluating the parabola at value `v` stays representable.
pub open spec fn spot_fits(c: VerticalCurve, v: int) -> bool {
    let e0 = station_elev(c.stations.pvc);
    let g1 = c.dimensions.incoming_grade@;
    let a = curve_a(c);
    let x = v - c.stations.pvc.value@;
    &&& coeff_fits(c)
    &&& in_range(x)
    &&& in_range(fmul(g1, x))
    &&& in_range(fmul(x, x))
    &&& in_range(fmul(a, fmul(x, x)))
    &&& in_range(e0 + fmul(g1, x))
    &&& in_range(parab_elev(e0, g1, a, x))
}

/// The curve's elevation at value `v`.
pub open spec fn spot_elev(c: VerticalCurve, v: int) -> int {
    parab_elev(
        station_elev(c.stations.pvc),
        c.dimensions.incoming_grade@,
        curve_a(c),
        v - c.stations.pvc.value@,
    )
}

/// Whether `v` lies on the curve.
pub open spec fn on_curve(c: VerticalCurve, v: int) -> bool {
    c.stations.pvc.value@ <= v <= c.stations.pvt.value@
}

/// What checking one obstacle must yield.
pub open spec fn obstacle_verdict_ok(c: VerticalCurve, obs: ObstacleStation, r: ObstacleReturn) -> bool {
    let v = obs.0.value@;
    let eo = station_elev(obs.0);
    let ec = spot_elev(c, v);
    if !on_curve(c, v) {
        r == Err::<(bool, ObstacleStation, Station, Fixed), Error>(
            Error::ObstacleOutOfRange { station: obs.0 },
        )
    } else if !(spot_fits(c, v) && in_range(ec - eo)) {
        r == Err::<(bool, ObstacleStation, Station, Fixed), Error>(Error::NumericOverflow)
    } else {
        match r {
            Err(_) => false,
            Ok((within, robs, rst, delta)) => {
                &&& within == (match obs.1 {
                    crate::vertical::ObstacleType::Above => ec <= eo,
                    crate::vertical::ObstacleType::Below => ec >= eo,
                })
                &&& robs == obs
                &&& rst.value@ == v
                &&& station_elev_is(rst, ec)
                &&& delta@ == iabs(ec - eo)
            },
        }
    }
}

/// An obstacle whose elevation the curve meets exactly satisfies the
/// check in both constraint directions: the comparisons are non-strict.
pub proof fn lemma_obstacle_boundary(c: VerticalCurve, obs: ObstacleStation, r: ObstacleReturn)
    requires
        obstacle_verdict_ok(c, obs, r),
        on_curve(c, obs.0.value@),
        spot_fits(c, obs.0.value@),
        in_range(spot_elev(c, obs.0.value@) - station_elev(obs.0)),
        spot_elev(c, obs.0.value@) == station_elev(obs.0),
    ensures
        r matches Ok(p) && p.0,
{
}

impl VerticalCurve {
    /// The parabola coefficient, as a scalar.
    pub(crate) fn coefficient(&self) -> (r: Option<Fixed>)
        requires
            self.dimensions.curve_length@ != 0,
        ensures
            r is Some <==> coeff_fits(*self),
            r matches Some(a) ==> a@ == curve_a(*self),
    {
        let diff = match self.dimensions.outgoing_grade.checked_sub(self.dimensions.incoming_grade) {
            None => {
                return None;
            },
            Some(v) => v,
        };
        let twol = match self.dimensions.curve_length.checked_add(self.dimensions.curve_length) {
            None => {
                return None;
            },
            Some(v) => v,
        };
        diff.checked_div(twol)
    }

    /// The curve's own station at the given station's value: the
    /// parabola evaluated there, when the value lies on the curve.
    fn spot_station_with_station(&self, station: Station) -> (r: Result<Station, Error>)
        requires
            self.stations.pvc.elevation is Some,
            self.dimensions.curve_length@ != 0,
        ensures
            r matches Ok(st) ==> on_curve(*self, station.value@) && spot_fits(
                *self,
                station.value@,
            ) && st.value@ == station.value@ && station_elev_is(
                st,
                spot_elev(*self, station.value@),
            ) && st.deflection is None && st.chord is None,
            !on_curve(*self, station.value@) ==> r == Err::<Station, Error>(
                Error::ObstacleOutOfRange { station },
            ),
            on_curve(*self, station.value@) && !spot_fits(*self, station.value@) ==> r
                == Err::<Station, Error>(Error::NumericOverflow),
            on_curve(*self, station.value@) && spot_fits(*self, station.value@) ==> r is Ok,
    {
        if !(self.stations.pvc.value.le(station.value) && station.value.le(
            self.stations.pvt.value,
        )) {
            return Err(Error::ObstacleOutOfRange { station });
        }
        let a = match self.coefficient() {
            None => {
                return Err(Error::NumericOverflow);
            },
            Some(a) => a,
        };
        let e0 = match self.stations.pvc.elevation {
            Some(e) => e,
            None => unreached(),
        };
        let x = match station.value.checked_sub(self.stations.pvc.value) {
            None => {
                return Err(Error::NumericOverflow);
            },
            Some(v) => v,
        };
        let gx = match self.dimensions.incoming_grade.checked_mul(x) {
            None => {
                return Err(Error::NumericOverflow);
            },
            Some(v) => v,
        };
        let xx = match x.checked_mul(x) {
            None => {
                return Err(Error::NumericOverflow);
            },
            Some(v) => v,
        };
        let axx = match a.checked_mul(xx) {
            None => {
                return Err(Error::NumericOverflow);
            },
            Some(v) => v,
        };
        let e1 = match e0.checked_add(gx) {
            None => {
                return Err(Error::NumericOverflow);
            },
            Some(v) => v,
        };
        let elevation = match e1.checked_add(axx) {
            None => {
                return Err(Error::NumericOverflow);
            },
            Some(v) => v,
        };
        Ok(Station { value: station.value, elevation: Some(elevation), deflection: None, chord: None })
    }

    /// Checks one obstacle: the curve's elevation at its station, the
    /// difference, and whether the constraint holds. A station exactly
    /// on the curve satisfies either constraint direction.
    fn within_obstacle(&self, obstacle: &ObstacleStation) -> (r: ObstacleReturn)
        requires
            self.stations.pvc.elevation is Some,
            obstacle.0.elevation is Some,
            self.dimensions.curve_length@ != 0,
        ensures
            obstacle_verdict_ok(*self, *obstacle, r),
    {
        let curve_station = match self.spot_station_with_station(obstacle.0) {
            Err(e) => {
                return Err(e);
            },
            Ok(st) => st,
        };
        let ec = match curve_station.elevation {
            Some(e) => e,
            None => unreached(),
        };
        let eo = match obstacle.0.elevation {
            Some(e) => e,
            None => unreached(),
        };
        let delta = match ec.checked_sub(eo) {
            None => {
                return Err(Error::NumericOverflow);
            },
            Some(v) => v.abs(),
        };
        let within: bool = match obstacle.1 {
            crate::vertical::ObstacleType::Above => ec.le(eo),
            crate::vertical::ObstacleType::Below => eo.le(ec),
        };
        Ok((within, *obstacle, curve_station, delta))
    }

    /// Checks every obstacle in order, exactly as
    /// [`obstacle_verdict_ok`] describes each verdict.
    pub fn obstacle_compliant(&self, obstacle_detail: &ObstacleDetail) -> (r: Vec<ObstacleReturn>)
        requires
            self.stations.pvc.elevation is Some,
            self.dimensions.curve_length@ != 0,
            forall|i: int|
                0 <= i < obstacle_detail.interval@.len()
                    ==> (#[trigger] obstacle_detail.interval@[i]).0.elevation is Some,
        ensures
            r@.len() == obstacle_detail.interval@.len(),
            forall|i: int|
                0 <= i < r@.len() ==> obstacle_verdict_ok(
                    *self,
                    obstacle_detail.interval@[i],
                    #[trigger] r@[i],
                ),
    {
        let mut obstacle_return: Vec<ObstacleReturn> = Vec::new();
        let mut idx: usize = 0;
        while idx < obstacle_detail.interval.len()
            invariant
                idx <= obstacle_detail.interval@.len(),
                obstacle_return@.len() == idx as int,
                self.stations.pvc.elevation is Some,
                self.dimensions.curve_length@ != 0,
                forall|i: int|
                    0 <= i < obstacle_detail.interval@.len()
                        ==> (#[trigger] obstacle_detail.interval@[i]).0.elevation is Some,
                forall|i: int|
                    0 <= i < idx as int ==> obstacle_verdict_ok(
                        *self,
                        obstacle_detail.interval@[i],
                        #[trigger] obstacle_return@[i],
                    ),
            decreases obstacle_detail.interval@.len() - idx,
        {
            let verdict = self.within_obstacle(&obstacle_detail.interval[idx]);
            obstacle_return.push(verdict);
            idx = idx + 1;
        }
        obstacle_return
    }
}

/// The crest-formula constant a standard and sight type use, in feet.
pub open spec fn crest_coefficient(standard: DesignStandard, sight: SightType) -> int {
    match standard {
        DesignStandard::AASHTO => match sight {
            SightType::Stopping => 2158,
            SightType::Passing => 2800,
            SightType::Decision => 0,
        },
        DesignStandard::CALTRANS => match sight {
            SightType::Stopping => 1329,
            SightType::Decision => 1329,
            SightType::Passing => 0,
        },
    }
}

/// Which combinations the minimum-length equations cover.
pub open spec fn combo_supported(standard: DesignStandard, sight: SightType) -> bool {
    match standard {
        DesignStandard::AASHTO => sight matches SightType::Stopping || sight
            matches SightType::Passing,
        DesignStandard::CALTRANS => sight matches SightType::Stopping || sight
            matches SightType::Decision,
    }
}

/// The sight distance after the small- and large-curve floor rules: ten
/// feet per mile per hour at large grade breaks and high speeds, two
/// hundred feet at small breaks and low speeds.
pub open spec fn adjusted_sight(s: int, a: int, speed: int) -> int {
    if a >= 2 * (SCALE as int) && speed >= 40 && s < speed * 10 * (SCALE as int) {
        speed * 10 * (SCALE as int)
    } else if a < 2 * (SCALE as int) && speed < 40 && s < 200 * (SCALE as int) {
        200 * (SCALE as int)
    } else {
        s
    }
}

/// Whether the adjusted sight distance stays representable.
pub open spec fn adjusted_fits(s: int, a: int, speed: int) -> bool {
    (a >= 2 * (SCALE as int) && speed >= 40 && s < speed * 10 * (SCALE as int)) ==> in_range(
        speed * 10 * (SCALE as int),
    )
}

/// The first (long-curve) branch value: A·S²/D.
pub open spec fn first_len(a: int, s: int, d: int) -> int {
    fdiv(fmul(a, fmul(s, s)), d)
}

/// Whether the first branch stays representable.
pub open spec fn first_fits(a: int, s: int, d: int) -> bool {
    in_range(fmul(s, s)) && in_range(fmul(a, fmul(s, s))) && in_range(first_len(a, s, d))
}

/// The second (short-curve) branch value: 2S − D/A.
pub open spec fn second_len(a: int, s: int, d: int) -> int {
    2 * s - fdiv(d, a)
}

/// Whether the second branch stays representable.
pub open spec fn second_fits(a: int, s: int, d: int) -> bool {
    in_range(2 * s) && in_range(fdiv(d, a)) && in_range(second_len(a, s, d))
}

/// The dual-branch resolution: the long-curve formula counts when its
/// answer is at least S, else the short-curve formula when its answer
/// is below S; when neither is consistent with its own assumption the
/// equation has no resolution.
pub open spec fn spec_dual(
    a: int,
    s: int,
    d: int,
    standard: DesignStandard,
    sight: SightType,
    crest: bool,
) -> Result<int, Error> {
    if !first_fits(a, s, d) {
        Err(Error::NumericOverflow)
    } else if first_len(a, s, d) >= s {
        Ok(first_len(a, s, d))
    } else if !second_fits(a, s, d) {
        Err(Error::NumericOverflow)
    } else if s > second_len(a, s, d) {
        Ok(second_len(a, s, d))
    } else {
        Err(Error::BranchResolutionFailure { standard, sight_type: sight, crest })
    }
}

/// The sag-formula denominator: 400 + 3.5·S.
pub open spec fn sag_denom(s: int) -> int {
    400 * (SCALE as int) + fmul(3_500_000_000, s)
}

/// Whether the sag denominator stays representable.
pub open spec fn sag_denom_fits(s: int) -> bool {
    in_range(fmul(3_500_000_000, s)) && in_range(sag_denom(s))
}

/// The minimum curve length a grade break and sight distance demand,
/// with the branch resolution of [`spec_dual`]. A zero grade break
/// demands nothing.
pub open spec fn spec_min_curve_length(
    g1: int,
    g2: int,
    speed: int,
    sight_in: int,
    standard: DesignStandard,
    sight: SightType,
) -> Result<int, Error> {
    if !in_range(g2 - g1) {
        Err(Error::NumericOverflow)
    } else if g2 - g1 == 0 {
        Ok(0)
    } else if !in_range(iabs(g2 - g1) * 100) {
        Err(Error::NumericOverflow)
    } else {
        let a = iabs(g2 - g1) * 100;
        if !adjusted_fits(sight_in, a, speed) {
            Err(Error::NumericOverflow)
        } else {
            let s = adjusted_sight(sight_in, a, speed);
            if !combo_supported(standard, sight) {
                Err(Error::DesignSpeedNotInStandard)
            } else if g2 - g1 > 0 {
                if !sag_denom_fits(s) || sag_denom(s) == 0 {
                    Err(Error::NumericOverflow)
                } else {
                    spec_dual(a, s, sag_denom(s), standard, sight, false)
                }
            } else {
                spec_dual(a, s, crest_coefficient(standard, sight) * (SCALE as int), standard, sight, true)
            }
        }
    }
}

/// What a compliance check yields: the tabled sight distance scaled by
/// the adjustment, the minimum length it demands, and whether the
/// curve is at least that long.
pub open spec fn spec_vertical_compliance(
    c: VerticalCurve,
    standard: DesignStandard,
    sight: SightType,
    adj: int,
) -> Result<(bool, int), Error> {
    match crate::tables::spec_min_sight(c.dimensions.design_speed as int, standard, sight) {
        None => Err(Error::DesignSpeedNotInStandard),
        Some(w) => if !in_range(fmul(w, adj)) {
            Err(Error::NumericOverflow)
        } else {
            match spec_min_curve_length(
                c.dimensions.incoming_grade@,
                c.dimensions.outgoing_grade@,
                c.dimensions.design_speed as int,
                fmul(w, adj),
                standard,
                sight,
            ) {
                Err(e) => Err(e),
                Ok(m) => Ok((c.dimensions.curve_length@ >= m, m)),
            }
        },
    }
}

/// Resolves the two branches of a minimum-length equation, exactly as
/// [`spec_dual`] describes.
fn dual_branch(
    a: Fixed,
    s: Fixed,
    denom: Fixed,
    standard: DesignStandard,
    sight_type: SightType,
    crest: bool,
) -> (r: Result<Fixed, Error>)
    requires
        a@ != 0,
        denom@ != 0,
    ensures
        r matches Ok(v) ==> spec_dual(a@, s@, denom@, standard, sight_type, crest) == Ok::<
            int,
            Error,
        >(v@),
        r matches Err(e) ==> spec_dual(a@, s@, denom@, standard, sight_type, crest) == Err::<
            int,
            Error,
        >(e),
{
    let ss = match s.checked_mul(s) {
        None => {
            return Err(Error::NumericOverflow);
        },
        Some(v) => v,
    };
    let ass = match a.checked_mul(ss) {
        None => {
            return Err(Error::NumericOverflow);
        },
        Some(v) => v,
    };
    let l1 = match ass.checked_div(denom) {
        None => {
            return Err(Error::NumericOverflow);
        },
        Some(v) => v,
    };
    if s.le(l1) {
        return Ok(l1);
    }
    let twos = match s.checked_add(s) {
        None => {
            return Err(Error::NumericOverflow);
        },
        Some(v) => v,
    };
    let da = match denom.checked_div(a) {
        None => {
            return Err(Error::NumericOverflow);
        },
        Some(v) => v,
    };
    let l2 = match twos.checked_sub(da) {
        None => {
            return Err(Error::NumericOverflow);
        },
        Some(v) => v,
    };
    if l2.lt(s) {
        return Ok(l2);
    }
    Err(Error::BranchResolutionFailure { standard, sight_type, crest })
}

impl VerticalCurve {
    /// The minimum curve length the grade break and the given sight
    /// distance demand, exactly as [`spec_min_curve_length`] describes.
    pub fn calc_min_curve_length(
        &self,
        min_sight: Fixed,
        design_standard: DesignStandard,
        sight_type: SightType,
    ) -> (r: Result<Fixed, Error>)
        ensures
            r matches Ok(v) ==> spec_min_curve_length(
                self.dimensions.incoming_grade@,
                self.dimensions.outgoing_grade@,
                self.dimensions.design_speed as int,
                min_sight@,
                design_standard,
                sight_type,
            ) == Ok::<int, Error>(v@),
            r matches Err(e) ==> spec_min_curve_length(
                self.dimensions.incoming_grade@,
                self.dimensions.outgoing_grade@,
                self.dimensions.design_speed as int,
                min_sight@,
                design_standard,
                sight_type,
            ) == Err::<int, Error>(e),
    {
        let grade_break = match self.dimensions.outgoing_grade.checked_sub(
            self.dimensions.incoming_grade,
        ) {
            None => {
                return Err(Error::NumericOverflow);
            },
            Some(v) => v,
        };
        if grade_break.is_zero() {
            return Ok(Fixed::zero());
        }
        let a = match Fixed::from_nano(grade_break.abs().as_nano() * 100) {
            None => {
                return Err(Error::NumericOverflow);
            },
            Some(v) => v,
        };
        let design_speed = self.dimensions.design_speed;
        let a_nano = a.as_nano();
        let s_nano = min_sight.as_nano();
        let mut min_sight_adjusted = min_sight;
        if a_nano >= 2 * SCALE && design_speed >= 40 && s_nano < (design_speed as i128) * 10
            * SCALE {
            min_sight_adjusted = match Fixed::from_nano((design_speed as i128) * 10 * SCALE) {
                None => {
                    return Err(Error::NumericOverflow);
                },
                Some(v) => v,
            };
        } else if a_nano < 2 * SCALE && design_speed < 40 && s_nano < 200 * SCALE {
            min_sight_adjusted = match Fixed::from_nano(200 * SCALE) {
                Some(v) => v,
                None => unreached(),
            };
        }
        let supported: bool = match design_standard {
            DesignStandard::AASHTO => match sight_type {
                SightType::Stopping => true,
                SightType::Passing => true,
                SightType::Decision => false,
            },
            DesignStandard::CALTRANS => match sight_type {
                SightType::Stopping => true,
                SightType::Decision => true,
                SightType::Passing => false,
            },
        };
        if !supported {
            return Err(Error::DesignSpeedNotInStandard);
        }
        if !grade_break.is_neg() {
            // sag: the grade turns upward
            let scaled = match Fixed::from_nano(3_500_000_000) {
                Some(v) => v,
                None => unreached(),
            };
            let term = match scaled.checked_mul(min_sight_adjusted) {
                None => {
                    return Err(Error::NumericOverflow);
                },
                Some(v) => v,
            };
            let base = match Fixed::from_nano(400 * SCALE) {
                Some(v) => v,
                None => unreached(),
            };
            let denom = match base.checked_add(term) {
                None => {
                    return Err(Error::NumericOverflow);
                },
                Some(v) => v,
            };
            if denom.is_zero() {
                return Err(Error::NumericOverflow);
            }
            dual_branch(a, min_sight_adjusted, denom, design_standard, sight_type, false)
        } else {
            // crest: the grade turns downward
            let c: i128 = match design_standard {
                DesignStandard::AASHTO => match sight_type {
                    SightType::Stopping => 2158,
                    _ => 2800,
                },
                DesignStandard::CALTRANS => 1329,
            };
            let denom = match Fixed::from_nano(c * SCALE) {
                Some(v) => v,
                None => unreached(),
            };
            dual_branch(a, min_sight_adjusted, denom, design_standard, sight_type, true)
        }
    }

    /// Checks the curve's length against what the tables demand for its
    /// design speed, exactly as [`spec_vertical_compliance`] describes.
    pub fn is_compliant(
        &self,
        design_standard: DesignStandard,
        sight_type: SightType,
        adjustment: Fixed,
    ) -> (r: Result<(bool, Fixed), Error>)
        ensures
            r matches Ok(p) ==> spec_vertical_compliance(
                *self,
                design_standard,
                sight_type,
                adjustment@,
            ) == Ok::<(bool, int), Error>((p.0, p.1@)),
            r matches Err(e) ==> spec_vertical_compliance(
                *self,
                design_standard,
                sight_type,
                adjustment@,
            ) == Err::<(bool, int), Error>(e),
    {
        let w = match crate::tables::get_min_sight(
            self.dimensions.design_speed,
            design_standard,
            sight_type,
        ) {
            None => {
                return Err(Error::DesignSpeedNotInStandard);
            },
            Some(w) => w,
        };
        let scaled = match w.checked_mul(adjustment) {
            None => {
                return Err(Error::NumericOverflow);
            },
            Some(v) => v,
        };
        let min_curve_length = match self.calc_min_curve_length(
            scaled,
            design_standard,
            sight_type,
        ) {
            Err(e) => {
                return Err(e);
            },
            Ok(v) => v,
        };
        Ok((min_curve_length.le(self.dimensions.curve_length), min_curve_length))
    }
}

} // verus!
