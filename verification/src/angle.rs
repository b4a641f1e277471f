//! Angles in decimal degrees, parsed from DMS (`60d13'42"`) or decimal
//! notation, and formatted back to DMS.

use vstd::prelude::*;

use crate::datatypes::Error;
use crate::fixed::{Fixed, SCALE, iabs, tdiv};
use crate::numfmt::{
    append_signed, append_unsigned, dec_str_of, digit_char, digit_str, lemma_tdiv_rem, round_div,
    signed_dec_str,
};
use crate::parse::{
    bare_decimal_nano, bare_decimal_ok, digit_of, first_at, is_digit, parse_bare_decimal, trim_of,
    trim_range, find_char,
};

verus! {

/// An angle, held as exact decimal degrees. The domain constrains
/// angles to less than half a turn, so values at or above one hundred
/// and eighty degrees are rejected at parse time.
#[derive(Debug, Clone, Copy, PartialEq)]
pub struct Angle {
    pub decimal_degrees: Fixed,
}

/// Whether `c` separates DMS components.
pub open spec fn dms_delim(c: char) -> bool {
    c == 'd' || c == '\'' || c == '"'
}

/// Index of the first DMS delimiter in `s`, or `-1`.
pub open spec fn first_delim(s: Seq<char>) -> int
    decreases s.len(),
{
    if s.len() == 0 {
        -1
    } else if dms_delim(s[0]) {
        0
    } else {
        let t = first_delim(s.subrange(1, s.len() as int));
        if t == -1 {
            -1
        } else {
            t + 1
        }
    }
}

/// A scan that found no delimiter before `k`, and one at `k` unless `k`
/// is the length, has found the first delimiter.
proof fn lemma_first_delim_scan(s: Seq<char>, k: int)
    requires
        0 <= k <= s.len(),
        forall|i: int| 0 <= i < k ==> !dms_delim(s[i]),
        k < s.len() ==> dms_delim(s[k]),
    ensures
        first_delim(s) == if k < s.len() {
            k
        } else {
            -1
        },
    decreases k,
{
    if k == 0 {
        if s.len() > 0 && !dms_delim(s[0]) {
            lemma_first_delim_scan(s.subrange(1, s.len() as int), 0);
        }
    } else {
        let tail = s.subrange(1, s.len() as int);
        assert(tail.subrange(0, k - 1) =~= s.subrange(1, k));
        lemma_first_delim_scan(tail, k - 1);
    }
}

/// Where the DMS component starting at `from` ends: at the next
/// delimiter, or at the end of the text.
pub open spec fn seg_end(t: Seq<char>, from: int) -> int {
    let p = first_delim(t.subrange(from, t.len() as int));
    if p == -1 {
        t.len() as int
    } else {
        from + p
    }
}

/// Where the component after the one starting at `from` starts. A
/// missing component (start past the end) stays missing.
pub open spec fn dms_next(t: Seq<char>, from: int) -> int {
    if from >= t.len() {
        t.len() as int
    } else if seg_end(t, from) + 1 > t.len() {
        t.len() as int
    } else {
        seg_end(t, from) + 1
    }
}

/// Start of the `i`-th DMS component.
pub open spec fn part_start(t: Seq<char>, i: int) -> int
    decreases i,
{
    if i <= 0 {
        0
    } else {
        dms_next(t, part_start(t, i - 1))
    }
}

/// Whether the component starting at `from` parses; a missing component
/// (start past the end) defaults to zero and is fine.
pub open spec fn dms_part_ok(t: Seq<char>, from: int) -> bool {
    from >= t.len() || bare_decimal_ok(t.subrange(from, seg_end(t, from)))
}

/// Value of the component starting at `from`, zero when missing.
pub open spec fn dms_part_val(t: Seq<char>, from: int) -> int {
    if from >= t.len() {
        0
    } else {
        bare_decimal_nano(t.subrange(from, seg_end(t, from)))
    }
}

/// Whether the notation mentions degrees.
pub open spec fn has_deg(t: Seq<char>) -> bool {
    first_at(t, 'd') != -1
}

/// Whether the notation mentions minutes.
pub open spec fn has_min(t: Seq<char>) -> bool {
    first_at(t, '\'') != -1
}

/// Whether the notation mentions seconds.
pub open spec fn has_sec(t: Seq<char>) -> bool {
    first_at(t, '"') != -1
}

/// Index of the component the minutes unit consumes.
pub open spec fn min_index(t: Seq<char>) -> int {
    if has_deg(t) {
        1
    } else {
        0
    }
}

/// Index of the component the seconds unit consumes.
pub open spec fn sec_index(t: Seq<char>) -> int {
    min_index(t) + if has_min(t) {
        1int
    } else {
        0int
    }
}

/// Nano-degrees of a half turn, the first size rejected.
pub const HALF_TURN_NANO: i128 = 180_000_000_000;

/// What parsing trimmed DMS notation yields: each mentioned unit
/// consumes the next `d`/`'`/`"`-separated component (a missing one is
/// zero); minutes are divided by sixty and seconds by thirty-six
/// hundred, truncating at the ninth decimal. A negative total is no
/// angle of this domain and is rejected.
pub open spec fn spec_angle_dms(t: Seq<char>) -> Result<int, Error> {
    if has_deg(t) && !dms_part_ok(t, part_start(t, 0)) {
        Err(Error::ParseAngle)
    } else if has_min(t) && !dms_part_ok(t, part_start(t, min_index(t))) {
        Err(Error::ParseAngle)
    } else if has_sec(t) && !dms_part_ok(t, part_start(t, sec_index(t))) {
        Err(Error::ParseAngle)
    } else {
        let dd = (if has_deg(t) {
            dms_part_val(t, part_start(t, 0))
        } else {
            0
        }) + (if has_min(t) {
            tdiv(dms_part_val(t, part_start(t, min_index(t))), 60)
        } else {
            0
        }) + (if has_sec(t) {
            tdiv(dms_part_val(t, part_start(t, sec_index(t))), 3600)
        } else {
            0
        });
        if dd < 0 {
            Err(Error::ParseAngle)
        } else if dd >= HALF_TURN_NANO as int {
            Err(Error::OversizedAngle)
        } else {
            Ok(dd)
        }
    }
}

/// What parsing an angle field yields: DMS notation when any delimiter
/// appears; decimal degrees when every character is a digit or a dot;
/// an error otherwise. A successful parse always lies in [0, 180)
/// degrees: negative angles and those of a half turn or more are
/// rejected.
pub open spec fn spec_angle(s: Seq<char>) -> Result<int, Error> {
    if s.len() == 0 {
        Err(Error::ParseAngle)
    } else if first_delim(s) != -1 {
        spec_angle_dms(trim_of(s))
    } else if forall|i: int| 0 <= i < s.len() ==> is_digit(s[i]) || s[i] == '.' {
        if bare_decimal_ok(trim_of(s)) {
            if bare_decimal_nano(trim_of(s)) < 0 {
                Err(Error::ParseAngle)
            } else if bare_decimal_nano(trim_of(s)) >= HALF_TURN_NANO as int {
                Err(Error::OversizedAngle)
            } else {
                Ok(bare_decimal_nano(trim_of(s)))
            }
        } else {
            Err(Error::ParseAngle)
        }
    } else {
        Err(Error::ParseAngle)
    }
}

/// Finds the first DMS delimiter in `s[lo..hi]`.
fn find_delim(s: &str, lo: usize, hi: usize) -> (r: Option<usize>)
    requires
        lo <= hi <= s@.len(),
    ensures
        r matches Some(k) ==> lo <= k < hi && first_delim(s@.subrange(lo as int, hi as int)) == k
            - lo,
        r is None ==> first_delim(s@.subrange(lo as int, hi as int)) == -1,
{
    let ghost sub = s@.subrange(lo as int, hi as int);
    let mut i: usize = lo;
    while i < hi
        invariant
            lo <= i <= hi <= s@.len(),
            sub == s@.subrange(lo as int, hi as int),
            forall|j: int| 0 <= j < i - lo ==> !dms_delim(sub[j]),
        decreases hi - i,
    {
        let ch = s.get_char(i);
        if ch == 'd' || ch == '\'' || ch == '"' {
            proof {
                lemma_first_delim_scan(sub, i - lo);
            }
            return Some(i);
        }
        i = i + 1;
    }
    proof {
        lemma_first_delim_scan(sub, (hi - lo) as int);
    }
    None
}

/// Reads the DMS component of `s[a..b]` that starts at `pos`; the
/// component's start relative to the trimmed text is `pos - a`, and a
/// `pos` of `b + 1` stands for a component past the end.
fn read_part(s: &str, a: usize, b: usize, pos: usize) -> (r: Result<(Fixed, usize), Error>)
    requires
        a <= b <= s@.len(),
        a <= pos <= b,
    ensures
        r matches Ok((v, next)) ==> {
            let t = s@.subrange(a as int, b as int);
            &&& dms_part_ok(t, pos - a)
            &&& v@ == dms_part_val(t, pos - a)
            &&& iabs(v@) < 100_000_000_000_000_000
            &&& a <= next <= b
            &&& next - a == dms_next(t, pos - a)
        },
        r matches Err(e) ==> e == Error::ParseAngle && !dms_part_ok(
            s@.subrange(a as int, b as int),
            pos - a,
        ),
{
    let ghost t = s@.subrange(a as int, b as int);
    if pos >= b {
        // the component is missing and defaults to zero
        Ok((Fixed::zero(), b))
    } else {
        let e = match find_delim(s, pos, b) {
            Some(q) => q,
            None => b,
        };
        proof {
            assert(t.subrange(pos - a, t.len() as int) =~= s@.subrange(pos as int, b as int));
            assert(seg_end(t, pos - a) == e - a);
            assert(t.subrange(pos - a, e - a) =~= s@.subrange(pos as int, e as int));
        }
        let next = if e < b {
            e + 1
        } else {
            b
        };
        match parse_bare_decimal(s, pos, e) {
            None => Err(Error::ParseAngle),
            Some(v) => Ok((v, next)),
        }
    }
}

impl Angle {
    /// Parses an angle field, exactly as [`spec_angle`] describes.
    #[verifier::rlimit(60)]
    pub fn from(raw_data: &str) -> (r: Result<Angle, Error>)
        ensures
            r matches Ok(w) ==> spec_angle(raw_data@) == Ok::<int, Error>(w.decimal_degrees@),
            r matches Err(e) ==> spec_angle(raw_data@) == Err::<int, Error>(e),
            r matches Ok(w) ==> 0 <= w.decimal_degrees@ < HALF_TURN_NANO as int,
    {
        let n = raw_data.unicode_len();
        if n == 0 {
            return Err(Error::ParseAngle);
        }
        proof {
            assert(raw_data@.subrange(0, n as int) =~= raw_data@);
        }
        if find_delim(raw_data, 0, n).is_some() {
            let (a, b) = trim_range(raw_data, 0, n);
            let ghost t = trim_of(raw_data@);
            let hd = find_char(raw_data, a, b, 'd').is_some();
            let hm = find_char(raw_data, a, b, '\'').is_some();
            let hs = find_char(raw_data, a, b, '"').is_some();
            let mut pos: usize = a;
            let mut total: i128 = 0;
            proof {
                assert(part_start(t, 0) == 0);
            }
            if hd {
                let (v, next) = match read_part(raw_data, a, b, pos) {
                    Err(e) => {
                        return Err(e);
                    },
                    Ok(p) => p,
                };
                total = v.as_nano();
                pos = next;
            }
            proof {
                if hd {
                    assert(part_start(t, 1) == dms_next(t, part_start(t, 0)));
                }
                assert(pos - a == part_start(t, min_index(t)));
            }
            let ghost total_after_deg = total as int;
            if hm {
                let (v, next) = match read_part(raw_data, a, b, pos) {
                    Err(e) => {
                        return Err(e);
                    },
                    Ok(p) => p,
                };
                let m = v.as_nano();
                let q = match m.checked_div(60) {
                    Some(q) => q,
                    None => {
                        proof {
                            crate::fixed::lemma_tdiv_magnitude(m as int, 60);
                        }
                        unreached()
                    },
                };
                proof {
                    crate::fixed::lemma_tdiv_magnitude(m as int, 60);
                }
                total = total + q;
                pos = next;
            }
            proof {
                if hm {
                    assert(part_start(t, min_index(t) + 1) == dms_next(
                        t,
                        part_start(t, min_index(t)),
                    ));
                }
                assert(pos - a == part_start(t, sec_index(t)));
            }
            if hs {
                let (v, next) = match read_part(raw_data, a, b, pos) {
                    Err(e) => {
                        return Err(e);
                    },
                    Ok(p) => p,
                };
                let m = v.as_nano();
                let q = match m.checked_div(3600) {
                    Some(q) => q,
                    None => {
                        proof {
                            crate::fixed::lemma_tdiv_magnitude(m as int, 3600);
                        }
                        unreached()
                    },
                };
                proof {
                    crate::fixed::lemma_tdiv_magnitude(m as int, 3600);
                }
                total = total + q;
                pos = next;
            }
            if total < 0 {
                Err(Error::ParseAngle)
            } else if total >= HALF_TURN_NANO {
                Err(Error::OversizedAngle)
            } else {
                Ok(Angle { decimal_degrees: Fixed::from_nano(total).unwrap() })
            }
        } else {
            // no delimiter: decimal degrees, digits and dots only
            let mut i: usize = 0;
            while i < n
                invariant
                    i <= n == raw_data@.len(),
                    n > 0,
                    first_delim(raw_data@) == -1,
                    forall|j: int| 0 <= j < i ==> is_digit(raw_data@[j]) || raw_data@[j] == '.',
                decreases n - i,
            {
                let c = raw_data.get_char(i);
                let d = digit_of(c);
                if d < 0 && c != '.' {
                    proof {
                        assert(!(is_digit(raw_data@[i as int]) || raw_data@[i as int] == '.'));
                        assert(!(forall|j: int|
                            0 <= j < raw_data@.len() ==> is_digit(raw_data@[j]) || raw_data@[j]
                                == '.')) by {
                            assert(0 <= i < raw_data@.len() && !(is_digit(raw_data@[i as int])
                                || raw_data@[i as int] == '.'));
                        }
                    }
                    return Err(Error::ParseAngle);
                }
                i = i + 1;
            }
            let (a, b) = trim_range(raw_data, 0, n);
            match parse_bare_decimal(raw_data, a, b) {
                None => Err(Error::ParseAngle),
                Some(v) => {
                    let dd = v.as_nano();
                    if dd < 0 {
                        Err(Error::ParseAngle)
                    } else if dd >= HALF_TURN_NANO {
                        Err(Error::OversizedAngle)
                    } else {
                        Ok(Angle { decimal_degrees: v })
                    }
                },
            }
        }
    }
}

/// The DMS rendering of a nano-degree value: whole degrees and minutes
/// split off by truncation, seconds as the residual rounded to two
/// decimal places (halves away from zero).
pub open spec fn spec_to_dms(dd: int) -> Seq<char> {
    let s = SCALE as int;
    let dt = tdiv(dd, s);
    let rem = dd - dt * s;
    let mn = rem * 60;
    let mt = tdiv(mn, s);
    let rem2 = mn - mt * s;
    let sn = rem2 * 60;
    let centi = round_div(sn, 10_000_000);
    let m = iabs(centi);
    let ci = tdiv(m, 100);
    let cf = m - ci * 100;
    signed_dec_str(dt) + seq!['d'] + signed_dec_str(mt) + seq!['\''] + (if centi < 0 {
        seq!['-']
    } else {
        Seq::<char>::empty()
    }) + dec_str_of(ci) + seq!['.'] + seq![digit_char(tdiv(cf, 10))] + seq![
        digit_char(cf - tdiv(cf, 10) * 10),
    ] + seq!['"']
}

impl Angle {
    /// Formats the angle as `{deg}d{min}'{sec:.2}"`, exactly as
    /// [`spec_to_dms`] describes. Reparsing the result recovers the
    /// angle to within the two-decimal seconds resolution.
    pub fn to_dms(&self) -> (r: String)
        ensures
            r@ == spec_to_dms(self.decimal_degrees@),
    {
        let dd = self.decimal_degrees.as_nano();
        let dt = crate::fixed::tdiv_exec(dd, SCALE);
        proof {
            lemma_tdiv_rem(dd as int, SCALE as int);
        }
        let rem = dd - dt * SCALE;
        let mn = rem * 60;
        let mt = crate::fixed::tdiv_exec(mn, SCALE);
        proof {
            lemma_tdiv_rem(mn as int, SCALE as int);
        }
        let rem2 = mn - mt * SCALE;
        let sn = rem2 * 60;
        let q = crate::fixed::tdiv_exec(sn, 10_000_000);
        proof {
            lemma_tdiv_rem(sn as int, 10_000_000);
        }
        let rr = sn - q * 10_000_000;
        let centi: i128 = if sn >= 0 {
            if 2 * rr >= 10_000_000 {
                q + 1
            } else {
                q
            }
        } else {
            if 2 * (-rr) >= 10_000_000 {
                q - 1
            } else {
                q
            }
        };
        let m: i128 = if centi < 0 {
            -centi
        } else {
            centi
        };
        let ci = crate::fixed::tdiv_exec(m, 100);
        proof {
            lemma_tdiv_rem(m as int, 100);
        }
        let cf = m - ci * 100;
        let d1 = crate::fixed::tdiv_exec(cf, 10);
        proof {
            lemma_tdiv_rem(cf as int, 10);
        }
        let d2 = cf - d1 * 10;
        proof {
            reveal_strlit("d");
            reveal_strlit("'");
            reveal_strlit("-");
            reveal_strlit(".");
            reveal_strlit("\"");
        }
        let mut out = String::new();
        append_signed(&mut out, dt);
        out.append("d");
        append_signed(&mut out, mt);
        out.append("'");
        if centi < 0 {
            out.append("-");
        }
        append_unsigned(&mut out, ci);
        out.append(".");
        out.append(digit_str(d1));
        out.append(digit_str(d2));
        out.append("\"");
        proof {
            assert(out@ =~= spec_to_dms(self.decimal_degrees@));
        }
        out
    }
}

} // verus!
