//! Derived station runs along a horizontal curve: interval stations
//! with accumulated deflections, and chords from caller-supplied sines.

use vstd::prelude::*;

use crate::datatypes::{CurveDetail, Station};
use crate::fixed::{Fixed, LIMIT, fdiv, fmul, iabs, in_range, tdiv};
use crate::horizontal::calculate::HorizontalCurve;
use crate::vertical::interval::{ceil_mult, first_station_value};

verus! {

/// The deflection a partial segment of the arc earns: half of the
/// segment's share of the curve angle, in decimal degrees.
pub open spec fn prorated_half(len: int, cl: int, deg: int) -> int {
    tdiv(fmul(fdiv(len, cl), deg), 2)
}

/// Whether that deflection stays representable.
pub open spec fn prorated_fits(len: int, cl: int, deg: int) -> bool {
    in_range(fdiv(len, cl)) && in_range(fmul(fdiv(len, cl), deg))
}

/// That deflection, or nothing where it is not representable.
pub open spec fn prorated_opt(len: int, cl: int, deg: int) -> Option<int> {
    if prorated_fits(len, cl, deg) {
        Some(prorated_half(len, cl, deg))
    } else {
        None
    }
}

/// The deflection after `k` whole interval steps past the first
/// station: the first deflection plus `k` half-degree-of-curve steps,
/// lost for good once a step leaves the representable range.
pub open spec fn defl_seq(d0: Option<int>, step: int, k: int) -> Option<int>
    decreases k,
{
    if k <= 0 {
        d0
    } else {
        match defl_seq(d0, step, k - 1) {
            None => None,
            Some(p) => if in_range(p + step) {
                Some(p + step)
            } else {
                None
            },
        }
    }
}

/// The sum of two optional deflections, where representable.
pub open spec fn opt_sum(a: Option<int>, b: Option<int>) -> Option<int> {
    match (a, b) {
        (Some(x), Some(y)) => if in_range(x + y) {
            Some(x + y)
        } else {
            None
        },
        _ => None,
    }
}

/// Whether an optional scalar holds exactly an optional value.
pub open spec fn opt_fixed_is(o: Option<Fixed>, s: Option<int>) -> bool {
    match s {
        Some(x) => o matches Some(f) && f@ == x,
        None => o is None,
    }
}

/// The chord angle station `i` of an interval run subtends, from the
/// stations' stored deflections: the first station's own deflection;
/// for a stepped station the gap from the one before; for the closing
/// station that gap less `step` (the half degree-of-curve its stored
/// deflection carries from beyond the last stepped station), leaving
/// the prorated closing segment alone.
pub open spec fn spec_chord_angle(stations: Seq<Station>, step: int, i: int) -> Option<int> {
    if i == 0 {
        match stations[0].deflection {
            Some(f) => Some(f@),
            None => None,
        }
    } else {
        match (stations[i].deflection, stations[i - 1].deflection) {
            (Some(a), Some(b)) => if i < stations.len() - 1 {
                if in_range(a@ - b@) {
                    Some(a@ - b@)
                } else {
                    None
                }
            } else {
                if in_range(a@ - b@) && in_range(a@ - b@ - step) {
                    Some(a@ - b@ - step)
                } else {
                    None
                }
            },
            _ => None,
        }
    }
}

/// Computes a prorated deflection, exactly as [`prorated_opt`].
fn prorated(len: Fixed, cl: Fixed, deg: Fixed) -> (r: Option<Fixed>)
    requires
        cl@ != 0,
    ensures
        opt_fixed_is(r, prorated_opt(len@, cl@, deg@)),
{
    let share = match len.checked_div(cl) {
        None => {
            return None;
        },
        Some(v) => v,
    };
    let delta = match share.checked_mul(deg) {
        None => {
            return None;
        },
        Some(v) => v,
    };
    Some(delta.halved())
}

impl HorizontalCurve {
    /// The stations along the arc at whole multiples of the interval,
    /// from the first multiple at or past the PC, each carrying its
    /// accumulated deflection (prorated over the partial first and
    /// last segments); the run always ends with the PT exactly, and a
    /// hard cap of one hundred steps bounds it whatever the interval.
    /// Chords are left to [`HorizontalCurve::interval_chords`].
    pub fn interval_stations(&self, station_interval: Fixed) -> (r: CurveDetail)
        requires
            self.dimensions.curve_length@ != 0,
            iabs(self.stations.pc.value@) <= (LIMIT as int) / 4,
            iabs(self.stations.pt.value@) <= (LIMIT as int) / 4,
            iabs(station_interval@) <= (LIMIT as int) / 200,
        ensures
            ({
                let first = first_station_value(self.stations.pc.value@, station_interval@);
                let iv = station_interval@;
                let pt = self.stations.pt.value@;
                let cl = self.dimensions.curve_length@;
                let deg = self.dimensions.curve_angle.decimal_degrees@;
                let step = tdiv(self.dimensions.curve_length_100.decimal_degrees@, 2);
                let d0 = prorated_opt(first - self.stations.pc.value@, cl, deg);
                let n = r.interval@.len();
                &&& 2 <= n <= 101
                &&& forall|i: int|
                    0 <= i < n - 1 ==> {
                        let st = #[trigger] r.interval@[i];
                        &&& st.value@ == first + i * iv
                        &&& st.elevation is None
                        &&& st.chord is None
                        &&& opt_fixed_is(st.deflection, defl_seq(d0, step, i))
                    }
                &&& forall|i: int| 1 <= i < n - 1 ==> first + #[trigger] (i * iv) < pt
                &&& (n - 1 < 100 ==> first + (n - 1) * iv >= pt)
                &&& ({
                    let last = r.interval@[n - 1];
                    &&& last.value@ == pt
                    &&& last.elevation is None
                    &&& last.chord is None
                    &&& opt_fixed_is(
                        last.deflection,
                        opt_sum(
                            prorated_opt(pt - first - (n - 2) * iv, cl, deg),
                            defl_seq(d0, step, n - 1),
                        ),
                    )
                })
            }),
    {
        let ghost first_g = first_station_value(self.stations.pc.value@, station_interval@);
        let zero = Fixed::zero();
        let first: Fixed = if station_interval.le(zero) {
            self.stations.pc.value
        } else {
            let iv = station_interval.as_nano();
            let pv = self.stations.pc.value.as_nano();
            proof {
                crate::vertical::interval::lemma_ceil_mult(pv as int, iv as int);
            }
            let q = crate::vertical::interval::floor_div_exec(pv + iv - 1, iv);
            proof {
                assert((q as int) * (iv as int) == ceil_mult(pv as int, iv as int));
            }
            let p = q * iv;
            match Fixed::from_nano(p) {
                Some(v) => v,
                None => unreached(),
            }
        };
        let cl = self.dimensions.curve_length;
        let deg = self.dimensions.curve_angle.decimal_degrees;
        let step = self.dimensions.curve_length_100.decimal_degrees.halved();
        let length1 = match first.checked_sub(self.stations.pc.value) {
            Some(v) => v,
            None => unreached(),
        };
        let mut defl: Option<Fixed> = prorated(length1, cl, deg);
        let ghost d0 = prorated_opt(first@ - self.stations.pc.value@, cl@, deg@);
        let mut interval: Vec<Station> = Vec::new();
        let st0 = Station {
            value: first,
            elevation: None,
            deflection: defl,
            chord: None,
        };
        interval.push(st0);
        proof {
            assert(first@ == first_g);
            assert(interval@[0] == st0);
            assert(first_g + 0 * station_interval@ == first@);
            assert(defl_seq(d0, step@, 0) == d0);
        }
        let mut k: usize = 1;
        let mut running = match first.checked_add(station_interval) {
            Some(v) => v,
            None => unreached(),
        };
        proof {
            if station_interval@ > 0 {
                crate::vertical::interval::lemma_ceil_mult(
                    self.stations.pc.value@,
                    station_interval@,
                );
            }
        }
        while running.lt(self.stations.pt.value) && k < 100
            invariant
                self.dimensions.curve_length@ != 0,
                iabs(self.stations.pc.value@) <= (LIMIT as int) / 4,
                iabs(self.stations.pt.value@) <= (LIMIT as int) / 4,
                iabs(station_interval@) <= (LIMIT as int) / 200,
                first_g == first_station_value(self.stations.pc.value@, station_interval@),
                first@ == first_g,
                iabs(first@) <= (LIMIT as int) / 4 + (LIMIT as int) / 200,
                cl == self.dimensions.curve_length,
                deg == self.dimensions.curve_angle.decimal_degrees,
                step@ == tdiv(self.dimensions.curve_length_100.decimal_degrees@, 2),
                d0 == prorated_opt(first_g - self.stations.pc.value@, cl@, deg@),
                1 <= k <= 100,
                interval@.len() == k as int,
                running@ == first@ + (k as int) * station_interval@,
                opt_fixed_is(defl, defl_seq(d0, step@, k as int - 1)),
                forall|i: int|
                    0 <= i < k as int ==> {
                        let st = #[trigger] interval@[i];
                        &&& st.value@ == first_g + i * station_interval@
                        &&& st.elevation is None
                        &&& st.chord is None
                        &&& opt_fixed_is(st.deflection, defl_seq(d0, step@, i))
                    },
                forall|i: int|
                    1 <= i < k as int ==> first_g + #[trigger] (i * station_interval@)
                        < self.stations.pt.value@,
            decreases 100 - k,
        {
            defl = match defl {
                None => None,
                Some(p) => p.checked_add(step),
            };
            let st = Station {
                value: running,
                elevation: None,
                deflection: defl,
                chord: None,
            };
            interval.push(st);
            proof {
                assert((k as int + 1) * station_interval@ == (k as int) * station_interval@
                    + station_interval@) by (nonlinear_arith);
                assert(iabs((k as int + 1) * station_interval@) <= 101 * ((LIMIT as int) / 200))
                    by (nonlinear_arith)
                    requires
                        1 <= k as int <= 100,
                        iabs(station_interval@) <= (LIMIT as int) / 200,
                ;
            }
            running = match running.checked_add(station_interval) {
                Some(v) => v,
                None => unreached(),
            };
            k = k + 1;
        }
        // the curve always closes on the PT exactly
        defl = match defl {
            None => None,
            Some(p) => p.checked_add(step),
        };
        proof {
            assert((k as int) * station_interval@ == (k as int - 1) * station_interval@
                + station_interval@) by (nonlinear_arith);
        }
        let behind = match running.checked_sub(station_interval) {
            Some(v) => v,
            None => unreached(),
        };
        let length2 = match self.stations.pt.value.checked_sub(behind) {
            Some(v) => v,
            None => unreached(),
        };
        let d2 = prorated(length2, cl, deg);
        let last_defl: Option<Fixed> = match (d2, defl) {
            (Some(a), Some(b)) => a.checked_add(b),
            _ => None,
        };
        let last = Station {
            value: self.stations.pt.value,
            elevation: None,
            deflection: last_defl,
            chord: None,
        };
        interval.push(last);
        CurveDetail { interval }
    }

    /// The chord angle each station of an interval run subtends,
    /// exactly as [`spec_chord_angle`] describes: the first station's
    /// own deflection (the prorated opening segment), then the gap
    /// from the station before (a half degree-of-curve per whole
    /// step), and for the closing station that gap less the half-step
    /// its stored deflection carries from beyond the last stepped
    /// station — the prorated closing segment alone.
    pub fn chord_angles(&self, detail: &CurveDetail) -> (r: Vec<Option<Fixed>>)
        ensures
            r@.len() == detail.interval@.len(),
            forall|i: int|
                0 <= i < r@.len() ==> opt_fixed_is(
                    #[trigger] r@[i],
                    spec_chord_angle(
                        detail.interval@,
                        tdiv(self.dimensions.curve_length_100.decimal_degrees@, 2),
                        i,
                    ),
                ),
    {
        let step = self.dimensions.curve_length_100.decimal_degrees.halved();
        let mut out: Vec<Option<Fixed>> = Vec::new();
        let mut i: usize = 0;
        while i < detail.interval.len()
            invariant
                i <= detail.interval@.len(),
                out@.len() == i as int,
                step@ == tdiv(self.dimensions.curve_length_100.decimal_degrees@, 2),
                forall|j: int|
                    0 <= j < i as int ==> opt_fixed_is(
                        #[trigger] out@[j],
                        spec_chord_angle(detail.interval@, step@, j),
                    ),
            decreases detail.interval@.len() - i,
        {
            let angle: Option<Fixed> = if i == 0 {
                detail.interval[0].deflection
            } else {
                match (detail.interval[i].deflection, detail.interval[i - 1].deflection) {
                    (Some(a), Some(b)) => match a.checked_sub(b) {
                        None => None,
                        Some(gap) => {
                            if i < detail.interval.len() - 1 {
                                Some(gap)
                            } else {
                                gap.checked_sub(step)
                            }
                        },
                    },
                    _ => None,
                }
            };
            out.push(angle);
            i = i + 1;
        }
        out
    }

    /// The same stations with chords filled in: for each station the
    /// caller supplies the sine of its chord angle (see
    /// [`HorizontalCurve::chord_angles`]), and the chord is twice the
    /// radius times that sine.
    pub fn interval_chords(&self, detail: &CurveDetail, sines: &Vec<Fixed>) -> (r: CurveDetail)
        requires
            sines@.len() == detail.interval@.len(),
        ensures
            r.interval@.len() == detail.interval@.len(),
            forall|i: int|
                0 <= i < r.interval@.len() ==> {
                    let st = #[trigger] r.interval@[i];
                    let src = detail.interval@[i];
                    let c = fmul(2 * self.dimensions.radius@, sines@[i]@);
                    &&& st.value == src.value
                    &&& st.elevation == src.elevation
                    &&& st.deflection == src.deflection
                    &&& (if in_range(2 * self.dimensions.radius@) && in_range(c) {
                        st.chord matches Some(f) && f@ == c
                    } else {
                        st.chord is None
                    })
                },
    {
        let mut out: Vec<Station> = Vec::new();
        let mut i: usize = 0;
        while i < detail.interval.len()
            invariant
                i <= detail.interval@.len(),
                sines@.len() == detail.interval@.len(),
                out@.len() == i as int,
                forall|j: int|
                    0 <= j < i as int ==> {
                        let st = #[trigger] out@[j];
                        let src = detail.interval@[j];
                        let c = fmul(2 * self.dimensions.radius@, sines@[j]@);
                        &&& st.value == src.value
                        &&& st.elevation == src.elevation
                        &&& st.deflection == src.deflection
                        &&& (if in_range(2 * self.dimensions.radius@) && in_range(c) {
                            st.chord matches Some(f) && f@ == c
                        } else {
                            st.chord is None
                        })
                    },
            decreases detail.interval@.len() - i,
        {
            let src = detail.interval[i];
            let chord: Option<Fixed> = match self.dimensions.radius.checked_add(
                self.dimensions.radius,
            ) {
                None => None,
                Some(twor) => twor.checked_mul(sines[i]),
            };
            let st = Station {
                value: src.value,
                elevation: src.elevation,
                deflection: src.deflection,
                chord,
            };
            out.push(st);
            i = i + 1;
        }
        CurveDetail { interval: out }
    }
}

} // verus!
