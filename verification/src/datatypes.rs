//! Shared domain values: stations, angles, sight and standard selectors,
//! and the field-level parse error taxonomy.

use vstd::prelude::*;

use crate::fixed::{Fixed, SCALE, in_range, tdiv};
use crate::parse::{
    bare_decimal_nano, bare_decimal_ok, decimal_nano, decimal_ok, all_digits, digits_value,
    iabs_lt_cap, first_at, lemma_seg_count_nonneg, lemma_segs_unfold, parse_bare_decimal,
    parse_decimal, parse_digits_capped, seg_count, segs_ok, sign_negative, sign_rest, trim_of,
    trim_range, find_char,
};

verus! {

/// A linear position along the centerline, with whatever companions the
/// producing computation defined: an elevation, a deflection angle (in
/// decimal degrees), a chord length.
#[derive(Debug, Clone, Copy, PartialEq)]
pub struct Station {
    pub value: Fixed,
    pub elevation: Option<Fixed>,
    pub deflection: Option<Fixed>,
    pub chord: Option<Fixed>,
}

impl Station {
    /// A station carrying only its position.
    pub fn bare(value: Fixed) -> (r: Station)
        ensures
            r.value == value,
            r.elevation is None,
            r.deflection is None,
            r.chord is None,
    {
        Station { value, elevation: None, deflection: None, chord: None }
    }
}

/// An ordered run of stations along a curve.
#[derive(Debug, Clone, Default)]
pub struct CurveDetail {
    pub interval: Vec<Station>,
}

/// An obstacle: where it stands, and whether the surface must pass
/// under it (`Above`, say an overhead structure) or over it (`Below`,
/// say a buried utility).
pub type ObstacleStation = (Station, crate::vertical::ObstacleType);

/// The obstacles a curve is checked against.
#[derive(Debug, Clone, Default)]
pub struct ObstacleDetail {
    pub interval: Vec<ObstacleStation>,
}

/// Which sight-distance requirement a check is made against.
#[derive(Debug, Clone, Copy, PartialEq, Eq, Structural, Default)]
pub enum SightType {
    #[default]
    Stopping,
    Passing,
    Decision,
}

impl SightType {
    /// The next selector in display order.
    pub fn next(self) -> (r: Self)
        ensures
            r == (match self {
                SightType::Stopping => SightType::Passing,
                SightType::Passing => SightType::Decision,
                SightType::Decision => SightType::Stopping,
            }),
    {
        match self {
            Self::Stopping => Self::Passing,
            Self::Passing => Self::Decision,
            Self::Decision => Self::Stopping,
        }
    }
}

/// Which body's design tables govern a compliance check.
#[derive(Debug, Clone, Copy, PartialEq, Eq, Structural, Default)]
pub enum DesignStandard {
    AASHTO,
    #[default]
    CALTRANS,
}

impl DesignStandard {
    /// The next selector in display order.
    pub fn next(self) -> (r: Self)
        ensures
            r == (match self {
                DesignStandard::AASHTO => DesignStandard::CALTRANS,
                DesignStandard::CALTRANS => DesignStandard::AASHTO,
            }),
    {
        match self {
            Self::AASHTO => Self::CALTRANS,
            Self::CALTRANS => Self::AASHTO,
        }
    }
}

/// Field-level parsing errors.
#[derive(Debug, Clone, Copy, PartialEq, Eq, Structural)]
pub enum Error {
    /// Station is misconfigured (its combined value is out of range).
    ParseStation,
    /// Station is misconfigured with unexpected symbol.
    ParseNonFloat,
    /// Station is required.
    NoValue,
    /// Station requires a plus sign.
    NoPlus,
    /// Station can only have one plus sign.
    ExcessiveValues,
    /// Only one negative sign is required.
    DifferentSign,
    /// Elevation is misconfigured with unexpected symbol.
    ParseElevation,
    /// Elevation is required.
    NoElevValue,
    /// Length is misconfigured with unexpected symbol.
    ParseLength,
    /// Length is required.
    NoLenValue,
    /// Speed is misconfigured with unexpected symbol.
    ParseSpeed,
    /// Grade is required.
    NoGradeValue,
    /// Grade is misconfigured with unexpected symbol.
    ParseGrade,
    /// Angle is misconfigured with unexpected symbol.
    ParseAngle,
    /// Angle is too large.
    OversizedAngle,
}

/// The first of `s`'s two station segments.
pub open spec fn station_first_seg(s: Seq<char>) -> Seq<char> {
    s.subrange(0, first_at(s, '+'))
}

/// The second of `s`'s two station segments (a trailing `+` dropped).
pub open spec fn station_second_seg(s: Seq<char>) -> Seq<char> {
    let rest = s.subrange(first_at(s, '+') + 1, s.len() as int);
    let p2 = first_at(rest, '+');
    if p2 == -1 {
        rest
    } else {
        rest.subrange(0, p2)
    }
}

/// The station notation's combined value in nano-units: the first
/// segment times one hundred, the second added with the first's sign.
pub open spec fn station_combined(s: Seq<char>) -> int {
    let a = station_first_seg(s);
    let b = station_second_seg(s);
    if sign_negative(trim_of(a)) {
        decimal_nano(a) * 100 - decimal_nano(b)
    } else {
        decimal_nano(a) * 100 + decimal_nano(b)
    }
}

/// What parsing `s` as a station yields: segments are split on `+` (a
/// trailing empty one dropped) and each must parse as a decimal; exactly
/// two segments are accepted, the second non-negative.
pub open spec fn spec_station(s: Seq<char>) -> Result<int, Error> {
    if s.len() == 0 {
        Err(Error::NoValue)
    } else if !segs_ok(s) {
        Err(Error::ParseNonFloat)
    } else if seg_count(s) == 1 {
        Err(Error::NoPlus)
    } else if seg_count(s) >= 3 {
        Err(Error::ExcessiveValues)
    } else if sign_negative(trim_of(station_second_seg(s))) {
        Err(Error::DifferentSign)
    } else if in_range(station_combined(s)) {
        Ok(station_combined(s))
    } else {
        Err(Error::ParseStation)
    }
}

/// Whether `s[lo..hi]`, trimmed, starts with a minus sign.
fn leading_minus(s: &str, lo: usize, hi: usize) -> (r: bool)
    requires
        lo <= hi <= s@.len(),
    ensures
        r == sign_negative(trim_of(s@.subrange(lo as int, hi as int))),
{
    let (a, b) = trim_range(s, lo, hi);
    if a < b {
        s.get_char(a) == '-'
    } else {
        false
    }
}

/// Parses the station notation `large+small`, exactly as
/// [`spec_station`] describes.
pub fn coerce_station_value(string: &str) -> (r: Result<Fixed, Error>)
    ensures
        r matches Ok(v) ==> spec_station(string@) == Ok::<int, Error>(v@),
        r matches Err(e) ==> spec_station(string@) == Err::<int, Error>(e),
{
    let ghost full = string@;
    let n = string.unicode_len();
    if n == 0 {
        return Err(Error::NoValue);
    }
    proof {
        assert(full.subrange(0, n as int) =~= full);
    }
    let q1 = match find_char(string, 0, n, '+') {
        None => {
            // a single segment: it must parse, and then the plus is missing
            if parse_decimal(string, 0, n).is_none() {
                return Err(Error::ParseNonFloat);
            }
            return Err(Error::NoPlus);
        },
        Some(q1) => q1,
    };
    proof {
        lemma_segs_unfold(full, 0, q1 as int);
    }
    let first = match parse_decimal(string, 0, q1) {
        None => {
            return Err(Error::ParseNonFloat);
        },
        Some(v) => v,
    };
    let first_neg = leading_minus(string, 0, q1);
    let ghost rest1 = full.subrange(q1 + 1, full.len() as int);
    let (second, b_hi) = match find_char(string, q1 + 1, n, '+') {
        None => {
            if q1 + 1 == n {
                // a trailing plus: the empty final segment is dropped
                return Err(Error::NoPlus);
            }
            let v = match parse_decimal(string, q1 + 1, n) {
                None => {
                    return Err(Error::ParseNonFloat);
                },
                Some(v) => v,
            };
            (v, n)
        },
        Some(q2) => {
            proof {
                lemma_segs_unfold(full, q1 + 1, q2 as int);
                assert(rest1.subrange(0, q2 - q1 - 1) =~= full.subrange(q1 + 1, q2 as int));
            }
            let v = match parse_decimal(string, q1 + 1, q2) {
                None => {
                    return Err(Error::ParseNonFloat);
                },
                Some(v) => v,
            };
            // validate any further segments; only their count matters
            let mut pos: usize = q2 + 1;
            let mut extra: bool = false;
            while pos < n
                invariant
                    n == full.len(),
                    pos <= n,
                    full == string@,
                    segs_ok(full) == segs_ok(full.subrange(pos as int, n as int)),
                    !extra ==> seg_count(full) == 2 + seg_count(
                        full.subrange(pos as int, n as int),
                    ),
                    extra ==> seg_count(full) >= 3 + seg_count(
                        full.subrange(pos as int, n as int),
                    ),
                decreases n - pos,
            {
                match find_char(string, pos, n, '+') {
                    None => {
                        if parse_decimal(string, pos, n).is_none() {
                            return Err(Error::ParseNonFloat);
                        }
                        proof {
                            assert(full.subrange(n as int, n as int) =~= Seq::<char>::empty());
                        }
                        extra = true;
                        pos = n;
                    },
                    Some(q) => {
                        proof {
                            lemma_segs_unfold(full, pos as int, q as int);
                            lemma_seg_count_nonneg(full.subrange(q + 1, n as int));
                        }
                        if parse_decimal(string, pos, q).is_none() {
                            return Err(Error::ParseNonFloat);
                        }
                        extra = true;
                        pos = q + 1;
                    },
                }
            }
            proof {
                assert(full.subrange(n as int, n as int) =~= Seq::<char>::empty());
                lemma_seg_count_nonneg(full.subrange(n as int, n as int));
            }
            if extra {
                return Err(Error::ExcessiveValues);
            }
            (v, q2)
        },
    };
    // exactly two segments, both parsed
    proof {
        assert(station_second_seg(full) =~= full.subrange(q1 + 1, b_hi as int));
    }
    if leading_minus(string, q1 + 1, b_hi) {
        return Err(Error::DifferentSign);
    }
    let f = first.as_nano();
    let s_val = second.as_nano();
    let combined: i128 = if first_neg {
        f * 100 - s_val
    } else {
        f * 100 + s_val
    };
    match Fixed::from_nano(combined) {
        Some(v) => Ok(v),
        None => Err(Error::ParseStation),
    }
}

/// What parsing an elevation field yields: an empty field is its own
/// error; anything else must be a decimal.
pub open spec fn spec_elevation(s: Seq<char>) -> Result<int, Error> {
    if s.len() == 0 {
        Err(Error::NoElevValue)
    } else if decimal_ok(s) {
        Ok(decimal_nano(s))
    } else {
        Err(Error::ParseElevation)
    }
}

/// Parses an elevation field, exactly as [`spec_elevation`] describes.
pub fn coerce_elevation(string: &str) -> (r: Result<Fixed, Error>)
    ensures
        r matches Ok(v) ==> spec_elevation(string@) == Ok::<int, Error>(v@),
        r matches Err(e) ==> spec_elevation(string@) == Err::<int, Error>(e),
        r matches Ok(v) ==> iabs_lt_cap(v@),
{
    let n = string.unicode_len();
    if n == 0 {
        return Err(Error::NoElevValue);
    }
    proof {
        assert(string@.subrange(0, n as int) =~= string@);
    }
    match parse_decimal(string, 0, n) {
        Some(v) => Ok(v),
        None => Err(Error::ParseElevation),
    }
}

/// What parsing a length field yields, as [`spec_elevation`] but with
/// the length error kinds.
pub open spec fn spec_length(s: Seq<char>) -> Result<int, Error> {
    if s.len() == 0 {
        Err(Error::NoLenValue)
    } else if decimal_ok(s) {
        Ok(decimal_nano(s))
    } else {
        Err(Error::ParseLength)
    }
}

/// Parses a length field, exactly as [`spec_length`] describes.
pub fn coerce_length(string: &str) -> (r: Result<Fixed, Error>)
    ensures
        r matches Ok(v) ==> spec_length(string@) == Ok::<int, Error>(v@),
        r matches Err(e) ==> spec_length(string@) == Err::<int, Error>(e),
        r matches Ok(v) ==> iabs_lt_cap(v@),
{
    let n = string.unicode_len();
    if n == 0 {
        return Err(Error::NoLenValue);
    }
    proof {
        assert(string@.subrange(0, n as int) =~= string@);
    }
    match parse_decimal(string, 0, n) {
        Some(v) => Ok(v),
        None => Err(Error::ParseLength),
    }
}

/// `t` with every trailing percent sign removed.
pub open spec fn strip_pct(t: Seq<char>) -> Seq<char>
    decreases t.len(),
{
    if t.len() > 0 && t[t.len() - 1] == '%' {
        strip_pct(t.subrange(0, t.len() - 1))
    } else {
        t
    }
}

/// Whether `t` ends in a percent sign.
pub open spec fn has_pct(t: Seq<char>) -> bool {
    t.len() > 0 && t[t.len() - 1] == '%'
}

/// A scan that found only percent signs after `k` has stripped them.
proof fn lemma_strip_pct_scan(t: Seq<char>, k: int)
    requires
        0 <= k <= t.len(),
        forall|i: int| k <= i < t.len() ==> t[i] == '%',
        k > 0 ==> t[k - 1] != '%',
    ensures
        strip_pct(t) =~= t.subrange(0, k),
    decreases t.len(),
{
    if t.len() > 0 && t[t.len() - 1] == '%' {
        let head = t.subrange(0, t.len() - 1);
        lemma_strip_pct_scan(head, k);
        assert(head.subrange(0, k) =~= t.subrange(0, k));
    } else {
        assert(t.subrange(0, t.len() as int) =~= t);
    }
}

/// What parsing a grade field yields: the field is trimmed, trailing
/// percent signs are stripped, the rest must be a decimal (not trimmed
/// again), and a percent sign divides the value by one hundred,
/// truncating toward zero at the ninth decimal.
pub open spec fn spec_grade(s: Seq<char>) -> Result<int, Error> {
    if s.len() == 0 {
        Err(Error::NoGradeValue)
    } else {
        let t = trim_of(s);
        let u = strip_pct(t);
        if bare_decimal_ok(u) {
            if has_pct(t) {
                Ok(tdiv(bare_decimal_nano(u), 100))
            } else {
                Ok(bare_decimal_nano(u))
            }
        } else {
            Err(Error::ParseGrade)
        }
    }
}

/// Parses a grade field, exactly as [`spec_grade`] describes.
pub fn coerce_grade(string: &str) -> (r: Result<Fixed, Error>)
    ensures
        r matches Ok(v) ==> spec_grade(string@) == Ok::<int, Error>(v@),
        r matches Err(e) ==> spec_grade(string@) == Err::<int, Error>(e),
        r matches Ok(v) ==> iabs_lt_cap(v@),
{
    let n = string.unicode_len();
    if n == 0 {
        return Err(Error::NoGradeValue);
    }
    proof {
        assert(string@.subrange(0, n as int) =~= string@);
    }
    let (a, b) = trim_range(string, 0, n);
    let ghost t = trim_of(string@);
    let percent = b > a && string.get_char(b - 1) == '%';
    let mut c: usize = b;
    while c > a && string.get_char(c - 1) == '%'
        invariant
            a <= c <= b <= string@.len(),
            t == string@.subrange(a as int, b as int),
            forall|i: int| c - a <= i < t.len() ==> t[i] == '%',
        decreases c,
    {
        c = c - 1;
    }
    proof {
        lemma_strip_pct_scan(t, c - a);
        assert(t.subrange(0, c - a) =~= string@.subrange(a as int, c as int));
    }
    match parse_bare_decimal(string, a, c) {
        None => Err(Error::ParseGrade),
        Some(v) => {
            if percent {
                let g = v.as_nano();
                let q = match g.checked_div(100) {
                    Some(q) => q,
                    None => {
                        proof {
                            crate::fixed::lemma_tdiv_magnitude(g as int, 100);
                        }
                        unreached()
                    },
                };
                proof {
                    crate::fixed::lemma_tdiv_magnitude(g as int, 100);
                }
                Ok(Fixed::from_nano(q).unwrap())
            } else {
                Ok(v)
            }
        },
    }
}

/// What parsing a design-speed field yields: an optionally signed digit
/// string within the range of a 32-bit integer.
pub open spec fn spec_speed(s: Seq<char>) -> Result<int, Error> {
    let t = trim_of(s);
    let r = sign_rest(t);
    if r.len() > 0 && all_digits(r) && (if sign_negative(t) {
        digits_value(r) <= 2_147_483_648
    } else {
        digits_value(r) <= 2_147_483_647
    }) {
        if sign_negative(t) {
            Ok(-digits_value(r))
        } else {
            Ok(digits_value(r))
        }
    } else {
        Err(Error::ParseSpeed)
    }
}

/// Parses a design-speed field, exactly as [`spec_speed`] describes.
pub fn coerce_speed(string: &str) -> (r: Result<i32, Error>)
    ensures
        r matches Ok(v) ==> spec_speed(string@) == Ok::<int, Error>(v as int),
        r matches Err(e) ==> spec_speed(string@) == Err::<int, Error>(e),
{
    let n = string.unicode_len();
    proof {
        assert(string@.subrange(0, n as int) =~= string@);
    }
    let (a, b) = trim_range(string, 0, n);
    let ghost t = trim_of(string@);
    let mut neg: bool = false;
    let mut c: usize = a;
    if a < b {
        let ch = string.get_char(a);
        if ch == '-' {
            neg = true;
            c = a + 1;
        } else if ch == '+' {
            c = a + 1;
        }
    }
    proof {
        assert(sign_rest(t) =~= string@.subrange(c as int, b as int));
    }
    if c == b {
        return Err(Error::ParseSpeed);
    }
    match parse_digits_capped(string, c, b, 2_147_483_648) {
        None => Err(Error::ParseSpeed),
        Some(v) => {
            if neg {
                Ok((-v) as i32)
            } else if v <= 2_147_483_647 {
                Ok(v as i32)
            } else {
                Err(Error::ParseSpeed)
            }
        },
    }
}

/// The sight-distance adjustment factor: a fifth more under a sustained
/// downgrade, else unity.
pub fn calc_adjustment(bools: bool) -> (r: Fixed)
    ensures
        r@ == if bools {
            1_200_000_000int
        } else {
            SCALE as int
        },
{
    if bools {
        Fixed::from_nano(1_200_000_000).unwrap()
    } else {
        Fixed::one()
    }
}

} // verus!
