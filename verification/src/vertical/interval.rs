//! The vertical curve's extreme point and its interval stations.

use vstd::prelude::*;

use crate::datatypes::{CurveDetail, Station};
use crate::fixed::{Fixed, LIMIT, fdiv, fmul, iabs, in_range, tdiv, tdiv_exec};
use crate::vertical::calculate::{
    coeff_fits, curve_a, parab_elev, spot_elev, spot_fits, Error, VerticalCurve,
};
use crate::vertical::{station_elev, station_elev_is};

verus! {

/// The extreme point's offset past the PVC: −g₁/(2a).
pub open spec fn extreme_x(c: VerticalCurve) -> int {
    fdiv(-c.dimensions.incoming_grade@, 2 * curve_a(c))
}

/// Whether locating the extreme point stays representable.
pub open spec fn extreme_fits(c: VerticalCurve) -> bool {
    let x = extreme_x(c);
    let e0 = station_elev(c.stations.pvc);
    let g1 = c.dimensions.incoming_grade@;
    let a = curve_a(c);
    &&& in_range(2 * a)
    &&& in_range(x)
    &&& in_range(c.stations.pvc.value@ + x)
    &&& in_range(fmul(g1, x))
    &&& in_range(fmul(x, x))
    &&& in_range(fmul(a, fmul(x, x)))
    &&& in_range(e0 + fmul(g1, x))
    &&& in_range(parab_elev(e0, g1, a, x))
}

/// Whether a station carries the curve's parabola elevation at value
/// `v` (or none, where that elevation is not representable) and
/// nothing else.
pub open spec fn station_parab(c: VerticalCurve, st: Station, v: int) -> bool {
    &&& st.value@ == v
    &&& (if spot_fits(c, v) {
        station_elev_is(st, spot_elev(c, v))
    } else {
        st.elevation is None
    })
    &&& st.deflection is None
    &&& st.chord is None
}

/// The smallest multiple of `i` at or past `v`, for a positive `i`.
pub open spec fn ceil_mult(v: int, i: int) -> int {
    ((v + i - 1) / i) * i
}

/// Where the interval run starts: the first multiple of the interval at
/// or past the PVC; for a degenerate interval, the PVC itself.
pub open spec fn first_station_value(pvc: int, i: int) -> int {
    if i <= 0 {
        pvc
    } else {
        ceil_mult(pvc, i)
    }
}

/// The smallest multiple of `i` at or past `v` overshoots by less than
/// `i`.
pub proof fn lemma_ceil_mult(v: int, i: int)
    requires
        i > 0,
    ensures
        v <= ceil_mult(v, i) < v + i,
{
    let x = v + i - 1;
    let q = x / i;
    vstd::arithmetic::div_mod::lemma_fundamental_div_mod(x, i);
    vstd::arithmetic::div_mod::lemma_mod_division_less_than_divisor(x, i);
    assert(q * i == i * q) by (nonlinear_arith);
}

/// Floor division by a positive divisor.
pub(crate) fn floor_div_exec(x: i128, d: i128) -> (r: i128)
    requires
        d > 0,
        iabs(x as int) <= (LIMIT as int) / 2,
        d <= (LIMIT as int) / 200,
    ensures
        r == (x as int) / (d as int),
{
    let r0 = tdiv_exec(x, d);
    proof {
        crate::numfmt::lemma_tdiv_rem(x as int, d as int);
    }
    let rem = x - r0 * d;
    if rem < 0 {
        proof {
            let qe = (x as int) / (d as int);
            vstd::arithmetic::div_mod::lemma_fundamental_div_mod(x as int, d as int);
            vstd::arithmetic::div_mod::lemma_mod_division_less_than_divisor(x as int, d as int);
            let k = qe - (r0 as int);
            assert((d as int) * k == (rem as int) - ((x as int) % (d as int))) by (nonlinear_arith)
                requires
                    (x as int) == (d as int) * qe + ((x as int) % (d as int)),
                    (x as int) == (r0 as int) * (d as int) + (rem as int),
                    k == qe - (r0 as int),
            ;
            assert(k == -1) by (nonlinear_arith)
                requires
                    ((d as int) * k == (rem as int) - ((x as int) % (d as int))),
                    (-(d as int) < rem as int),
                    ((rem as int) < 0),
                    (0 <= (x as int) % (d as int)),
                    ((x as int) % (d as int) < (d as int)),
                    ((d as int) > 0),
            ;
        }
        r0 - 1
    } else {
        proof {
            let qe = (x as int) / (d as int);
            vstd::arithmetic::div_mod::lemma_fundamental_div_mod(x as int, d as int);
            vstd::arithmetic::div_mod::lemma_mod_division_less_than_divisor(x as int, d as int);
            let k = qe - (r0 as int);
            assert((d as int) * k == (rem as int) - ((x as int) % (d as int))) by (nonlinear_arith)
                requires
                    (x as int) == (d as int) * qe + ((x as int) % (d as int)),
                    (x as int) == (r0 as int) * (d as int) + (rem as int),
                    k == qe - (r0 as int),
            ;
            assert(k == 0) by (nonlinear_arith)
                requires
                    ((d as int) * k == (rem as int) - ((x as int) % (d as int))),
                    (0 <= rem as int),
                    ((rem as int) < (d as int)),
                    (0 <= (x as int) % (d as int)),
                    ((x as int) % (d as int) < (d as int)),
                    ((d as int) > 0),
            ;
        }
        r0
    }
}

impl VerticalCurve {
    /// A station at value `v` carrying the parabola's elevation there,
    /// where it is representable.
    fn parab_station(&self, v: Fixed) -> (st: Station)
        requires
            self.stations.pvc.elevation is Some,
            self.dimensions.curve_length@ != 0,
        ensures
            station_parab(*self, st, v@),
    {
        let a = match self.coefficient() {
            None => {
                return Station { value: v, elevation: None, deflection: None, chord: None };
            },
            Some(a) => a,
        };
        let e0 = match self.stations.pvc.elevation {
            Some(e) => e,
            None => unreached(),
        };
        let elevation: Option<Fixed> = match v.checked_sub(self.stations.pvc.value) {
            None => None,
            Some(x) => match self.dimensions.incoming_grade.checked_mul(x) {
                None => None,
                Some(gx) => match x.checked_mul(x) {
                    None => None,
                    Some(xx) => match a.checked_mul(xx) {
                        None => None,
                        Some(axx) => match e0.checked_add(gx) {
                            None => None,
                            Some(e1) => e1.checked_add(axx),
                        },
                    },
                },
            },
        };
        Station { value: v, elevation, deflection: None, chord: None }
    }

    /// The curve's high or low point: the station where the grade runs
    /// level. Meaningful only when it falls between the PVC and the
    /// PVT; the caller checks the range.
    pub fn get_extreme(&self) -> (r: Result<Station, Error>)
        requires
            self.stations.pvc.elevation is Some,
            self.dimensions.curve_length@ != 0,
        ensures
            !coeff_fits(*self) ==> r == Err::<Station, Error>(Error::NumericOverflow),
            coeff_fits(*self) && curve_a(*self) == 0 ==> r == Err::<Station, Error>(
                Error::FlatGrade,
            ),
            coeff_fits(*self) && curve_a(*self) != 0 && !extreme_fits(*self) ==> r == Err::<
                Station,
                Error,
            >(Error::NumericOverflow),
            coeff_fits(*self) && curve_a(*self) != 0 && extreme_fits(*self) ==> r is Ok,
            r matches Ok(st) ==> st.value@ == self.stations.pvc.value@ + extreme_x(*self)
                && station_elev_is(
                st,
                parab_elev(
                    station_elev(self.stations.pvc),
                    self.dimensions.incoming_grade@,
                    curve_a(*self),
                    extreme_x(*self),
                ),
            ) && st.deflection is None && st.chord is None,
    {
        let a = match self.coefficient() {
            None => {
                return Err(Error::NumericOverflow);
            },
            Some(a) => a,
        };
        if a.is_zero() {
            return Err(Error::FlatGrade);
        }
        let e0 = match self.stations.pvc.elevation {
            Some(e) => e,
            None => unreached(),
        };
        let twoa = match a.checked_add(a) {
            None => {
                return Err(Error::NumericOverflow);
            },
            Some(v) => v,
        };
        let x = match self.dimensions.incoming_grade.neg().checked_div(twoa) {
            None => {
                return Err(Error::NumericOverflow);
            },
            Some(v) => v,
        };
        let value = match self.stations.pvc.value.checked_add(x) {
            None => {
                return Err(Error::NumericOverflow);
            },
            Some(v) => v,
        };
        let gx = match self.dimensions.incoming_grade.checked_mul(x) {
            None => {
                return Err(Error::NumericOverflow);
            },
            Some(v) => v,
        };
        let xx = match x.checked_mul(x) {
            None => {
                return Err(Error::NumericOverflow);
            },
            Some(v) => v,
        };
        let axx = match a.checked_mul(xx) {
            None => {
                return Err(Error::NumericOverflow);
            },
            Some(v) => v,
        };
        let e1 = match e0.checked_add(gx) {
            None => {
                return Err(Error::NumericOverflow);
            },
            Some(v) => v,
        };
        let elevation = match e1.checked_add(axx) {
            None => {
                return Err(Error::NumericOverflow);
            },
            Some(v) => v,
        };
        Ok(Station { value, elevation: Some(elevation), deflection: None, chord: None })
    }

    /// The stations along the curve at whole multiples of the interval,
    /// from the first multiple at or past the PVC, each carrying the
    /// parabola's elevation; the run always ends with the PVT exactly,
    /// and a hard cap of one hundred steps bounds it whatever the
    /// interval.
    pub fn interval_stations(&self, station_interval: Fixed) -> (r: CurveDetail)
        requires
            self.stations.pvc.elevation is Some,
            self.dimensions.curve_length@ != 0,
            iabs(self.stations.pvc.value@) <= (LIMIT as int) / 4,
            iabs(self.stations.pvt.value@) <= (LIMIT as int) / 4,
            iabs(station_interval@) <= (LIMIT as int) / 200,
        ensures
            ({
                let first = first_station_value(self.stations.pvc.value@, station_interval@);
                let iv = station_interval@;
                let pvt = self.stations.pvt.value@;
                let n = r.interval@.len();
                &&& 2 <= n <= 101
                &&& forall|i: int|
                    0 <= i < n - 1 ==> station_parab(*self, #[trigger] r.interval@[i], first + i * iv)
                &&& forall|i: int| 1 <= i < n - 1 ==> first + #[trigger] (i * iv) < pvt
                &&& (n - 1 < 100 ==> first + (n - 1) * iv >= pvt)
                &&& station_parab(*self, r.interval@[n - 1], pvt)
            }),
    {
        let ghost first_g = first_station_value(self.stations.pvc.value@, station_interval@);
        let zero = Fixed::zero();
        let first: Fixed = if station_interval.le(zero) {
            self.stations.pvc.value
        } else {
            let iv = station_interval.as_nano();
            let pv = self.stations.pvc.value.as_nano();
            proof {
                lemma_ceil_mult(pv as int, iv as int);
            }
            let q = floor_div_exec(pv + iv - 1, iv);
            proof {
                assert((q as int) * (iv as int) == ceil_mult(pv as int, iv as int));
            }
            let p = q * iv;
            match Fixed::from_nano(p) {
                Some(v) => v,
                None => unreached(),
            }
        };
        let mut interval: Vec<Station> = Vec::new();
        let st0 = self.parab_station(first);
        interval.push(st0);
        proof {
            assert(first@ == first_g);
            assert(interval@[0] == st0);
            assert(first_g + 0 * station_interval@ == first@);
            assert(station_parab(*self, interval@[0], first_g + 0 * station_interval@));
        }
        let mut k: usize = 1;
        let mut running = match first.checked_add(station_interval) {
            Some(v) => v,
            None => unreached(),
        };
        proof {
            if station_interval@ > 0 {
                lemma_ceil_mult(self.stations.pvc.value@, station_interval@);
            }
        }
        while running.lt(self.stations.pvt.value) && k < 100
            invariant
                self.stations.pvc.elevation is Some,
                self.dimensions.curve_length@ != 0,
                iabs(self.stations.pvc.value@) <= (LIMIT as int) / 4,
                iabs(self.stations.pvt.value@) <= (LIMIT as int) / 4,
                iabs(station_interval@) <= (LIMIT as int) / 200,
                first_g == first_station_value(self.stations.pvc.value@, station_interval@),
                first@ == first_g,
                iabs(first@) <= (LIMIT as int) / 4 + (LIMIT as int) / 200,
                1 <= k <= 100,
                interval@.len() == k as int,
                running@ == first@ + (k as int) * station_interval@,
                forall|i: int|
                    0 <= i < k as int ==> station_parab(
                        *self,
                        #[trigger] interval@[i],
                        first_g + i * station_interval@,
                    ),
                forall|i: int|
                    1 <= i < k as int ==> first_g + #[trigger] (i * station_interval@)
                        < self.stations.pvt.value@,
            decreases 100 - k,
        {
            interval.push(self.parab_station(running));
            proof {
                assert((k as int + 1) * station_interval@ == (k as int) * station_interval@
                    + station_interval@) by (nonlinear_arith);
                assert(iabs((k as int + 1) * station_interval@) <= 101 * ((LIMIT as int) / 200))
                    by (nonlinear_arith)
                    requires
                        1 <= k as int <= 100,
                        iabs(station_interval@) <= (LIMIT as int) / 200,
                ;
            }
            running = match running.checked_add(station_interval) {
                Some(v) => v,
                None => unreached(),
            };
            k = k + 1;
        }
        interval.push(self.parab_station(self.stations.pvt.value));
        CurveDetail { interval }
    }
}

} // verus!
