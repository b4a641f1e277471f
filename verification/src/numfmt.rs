//! Decimal rendering of integers, for the text forms the library emits.

use vstd::prelude::*;

use crate::fixed::{iabs, tdiv};

verus! {

/// The character for one decimal digit; other values render as `0`.
pub open spec fn digit_char(d: int) -> char {
    if d == 1 {
        '1'
    } else if d == 2 {
        '2'
    } else if d == 3 {
        '3'
    } else if d == 4 {
        '4'
    } else if d == 5 {
        '5'
    } else if d == 6 {
        '6'
    } else if d == 7 {
        '7'
    } else if d == 8 {
        '8'
    } else if d == 9 {
        '9'
    } else {
        '0'
    }
}

/// The decimal rendering of a non-negative integer.
pub open spec fn dec_str_of(v: int) -> Seq<char>
    decreases v,
{
    if v < 10 {
        seq![digit_char(v)]
    } else {
        dec_str_of(v / 10).push(digit_char(v % 10))
    }
}

/// The decimal rendering of an integer, with its sign.
pub open spec fn signed_dec_str(v: int) -> Seq<char> {
    if v < 0 {
        seq!['-'] + dec_str_of(-v)
    } else {
        dec_str_of(v)
    }
}

/// `x / d` rounded to the nearest integer, halves away from zero.
pub open spec fn round_div(x: int, d: int) -> int {
    let q = tdiv(x, d);
    let r = x - q * d;
    if x >= 0 {
        if 2 * r >= d {
            q + 1
        } else {
            q
        }
    } else {
        if 2 * (-r) >= d {
            q - 1
        } else {
            q
        }
    }
}

/// The remainder truncating division leaves is smaller than the divisor
/// and carries the dividend's sign.
pub proof fn lemma_tdiv_rem(x: int, d: int)
    requires
        d > 0,
    ensures
        iabs(x - tdiv(x, d) * d) < d,
        x >= 0 ==> x - tdiv(x, d) * d >= 0,
        x <= 0 ==> x - tdiv(x, d) * d <= 0,
{
    if x >= 0 {
        if x > 0 {
            vstd::arithmetic::div_mod::lemma_remainder_upper(x, d);
            vstd::arithmetic::div_mod::lemma_remainder_lower(x, d);
        }
    } else {
        let y = x * -1;
        let q = y / d;
        vstd::arithmetic::div_mod::lemma_remainder_upper(y, d);
        vstd::arithmetic::div_mod::lemma_remainder_lower(y, d);
        assert(tdiv(x, d) == q * -1);
        assert((q * -1) * d == -(q * d)) by (nonlinear_arith);
    }
}

/// The string for one digit.
pub fn digit_str(d: i128) -> (r: &'static str)
    requires
        0 <= d <= 9,
    ensures
        r@ =~= seq![digit_char(d as int)],
{
    proof {
        reveal_strlit("0");
        reveal_strlit("1");
        reveal_strlit("2");
        reveal_strlit("3");
        reveal_strlit("4");
        reveal_strlit("5");
        reveal_strlit("6");
        reveal_strlit("7");
        reveal_strlit("8");
        reveal_strlit("9");
    }
    if d == 0 {
        "0"
    } else if d == 1 {
        "1"
    } else if d == 2 {
        "2"
    } else if d == 3 {
        "3"
    } else if d == 4 {
        "4"
    } else if d == 5 {
        "5"
    } else if d == 6 {
        "6"
    } else if d == 7 {
        "7"
    } else if d == 8 {
        "8"
    } else {
        "9"
    }
}

/// Appends the decimal rendering of a non-negative integer.
pub fn append_unsigned(out: &mut String, v: i128)
    requires
        v >= 0,
    ensures
        final(out)@ == old(out)@ + dec_str_of(v as int),
    decreases v,
{
    if v < 10 {
        out.append(digit_str(v));
    } else {
        let q = match v.checked_div(10) {
            Some(q) => q,
            None => {
                proof {
                    vstd::arithmetic::div_mod::lemma_div_nonincreasing(v as int, 10);
                    vstd::arithmetic::div_mod::lemma_div_pos_is_pos(v as int, 10);
                }
                unreached()
            },
        };
        proof {
            vstd::arithmetic::div_mod::lemma_div_nonincreasing(v as int, 10);
            vstd::arithmetic::div_mod::lemma_div_pos_is_pos(v as int, 10);
            vstd::arithmetic::div_mod::lemma_fundamental_div_mod(v as int, 10);
            vstd::arithmetic::div_mod::lemma_remainder_upper(v as int, 10);
            vstd::arithmetic::div_mod::lemma_remainder_lower(v as int, 10);
        }
        let d = v - q * 10;
        append_unsigned(out, q);
        out.append(digit_str(d));
        proof {
            assert(old(out)@ + dec_str_of(q as int) + seq![digit_char(d as int)] =~= old(out)@
                + dec_str_of(v as int));
        }
    }
}

/// Appends the decimal rendering of an integer, with its sign.
pub fn append_signed(out: &mut String, v: i128)
    requires
        v > i128::MIN,
    ensures
        final(out)@ == old(out)@ + signed_dec_str(v as int),
{
    if v < 0 {
        proof {
            reveal_strlit("-");
        }
        out.append("-");
        append_unsigned(out, -v);
        proof {
            assert(old(out)@ + "-"@ + dec_str_of(-(v as int)) =~= old(out)@ + signed_dec_str(
                v as int,
            ));
        }
    } else {
        append_unsigned(out, v);
    }
}

} // verus!
