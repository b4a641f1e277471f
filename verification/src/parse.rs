//! Exact decimal-notation parsing.
//!
//! The domain's raw inputs (stations, elevations, lengths, grades, angles)
//! arrive as decimal text. This module gives that notation an exact
//! grammar over character sequences and parses it into fixed-point
//! nano-unit values: an optional sign, an integer part and up to nine
//! fractional digits are honoured exactly; fractional digits past the
//! ninth are truncated toward zero.

use vstd::prelude::*;

use crate::fixed::{Fixed, SCALE};

verus! {

/// The ASCII whitespace characters stripped from either end of a field.
pub open spec fn is_space(c: char) -> bool {
    c == ' ' || c == '\t' || c == '\n' || c == '\r'
}

/// Whether `c` is a decimal digit.
pub open spec fn is_digit(c: char) -> bool {
    digit_val(c) != -1
}

/// The value of a decimal digit, or `-1` for any other character.
pub open spec fn digit_val(c: char) -> int {
    if c == '0' {
        0
    } else if c == '1' {
        1
    } else if c == '2' {
        2
    } else if c == '3' {
        3
    } else if c == '4' {
        4
    } else if c == '5' {
        5
    } else if c == '6' {
        6
    } else if c == '7' {
        7
    } else if c == '8' {
        8
    } else if c == '9' {
        9
    } else {
        -1
    }
}

/// Whether every character of `s` is a decimal digit.
pub open spec fn all_digits(s: Seq<char>) -> bool {
    forall|i: int| 0 <= i < s.len() ==> is_digit(s[i])
}

/// The number a digit string denotes, most significant digit first.
/// Characters that are not digits count as zero.
pub open spec fn digits_value(s: Seq<char>) -> int
    decreases s.len(),
{
    if s.len() == 0 {
        0
    } else {
        digits_value(s.subrange(0, s.len() - 1)) * 10 + (
        if is_digit(s[s.len() - 1]) {
            digit_val(s[s.len() - 1])
        } else {
            0
        })
    }
}

/// Ten to the `n`.
pub open spec fn pow10(n: nat) -> int
    decreases n,
{
    if n == 0 {
        1
    } else {
        10 * pow10((n - 1) as nat)
    }
}

/// Index of the first occurrence of `c` in `s`, or `-1`.
pub open spec fn first_at(s: Seq<char>, c: char) -> int
    decreases s.len(),
{
    if s.len() == 0 {
        -1
    } else if s[0] == c {
        0
    } else {
        let t = first_at(s.subrange(1, s.len() as int), c);
        if t == -1 {
            -1
        } else {
            t + 1
        }
    }
}

/// `s` without its leading whitespace.
pub open spec fn trim_front(s: Seq<char>) -> Seq<char>
    decreases s.len(),
{
    if s.len() > 0 && is_space(s[0]) {
        trim_front(s.subrange(1, s.len() as int))
    } else {
        s
    }
}

/// `s` without its trailing whitespace.
pub open spec fn trim_back(s: Seq<char>) -> Seq<char>
    decreases s.len(),
{
    if s.len() > 0 && is_space(s[s.len() - 1]) {
        trim_back(s.subrange(0, s.len() - 1))
    } else {
        s
    }
}

/// `s` without leading or trailing whitespace.
pub open spec fn trim_of(s: Seq<char>) -> Seq<char> {
    trim_back(trim_front(s))
}

/// Largest integer part accepted by the parser, in whole units.
pub const INT_PART_CAP: i128 = 99_999_999;

/// An unsigned decimal: digits, optionally with one dot, at least one
/// digit overall.
pub open spec fn valid_unsigned(r: Seq<char>) -> bool {
    if first_at(r, '.') == -1 {
        r.len() > 0 && all_digits(r)
    } else {
        let k = first_at(r, '.');
        r.len() > 1 && all_digits(r.subrange(0, k)) && all_digits(
            r.subrange(k + 1, r.len() as int),
        )
    }
}

/// Nano-unit value of the fractional digit string `f`: the first nine
/// digits, padded with zeros to nine places.
pub open spec fn frac_nano(f: Seq<char>) -> int {
    if f.len() <= 9 {
        digits_value(f) * pow10((9 - f.len()) as nat)
    } else {
        digits_value(f.subrange(0, 9))
    }
}

/// Nano-unit value of an unsigned decimal (integer part and fraction).
pub open spec fn unsigned_nano(r: Seq<char>) -> int {
    if first_at(r, '.') == -1 {
        digits_value(r) * (SCALE as int)
    } else {
        let k = first_at(r, '.');
        digits_value(r.subrange(0, k)) * (SCALE as int) + frac_nano(
            r.subrange(k + 1, r.len() as int),
        )
    }
}

/// Integer part of an unsigned decimal, in whole units.
pub open spec fn unsigned_int_part(r: Seq<char>) -> int {
    if first_at(r, '.') == -1 {
        digits_value(r)
    } else {
        digits_value(r.subrange(0, first_at(r, '.')))
    }
}

/// The unsigned remainder of a signed decimal: what follows a leading
/// `+` or `-`, or the whole string.
pub open spec fn sign_rest(t: Seq<char>) -> Seq<char> {
    if t.len() > 0 && (t[0] == '+' || t[0] == '-') {
        t.subrange(1, t.len() as int)
    } else {
        t
    }
}

/// Whether a signed decimal denotes a negative quantity (a leading `-`,
/// even before a zero).
pub open spec fn sign_negative(t: Seq<char>) -> bool {
    t.len() > 0 && t[0] == '-'
}

/// Whether `s`, once trimmed, is a well-formed signed decimal whose
/// integer part the parser accepts.
pub open spec fn decimal_ok(s: Seq<char>) -> bool {
    bare_decimal_ok(trim_of(s))
}

/// Nano-unit value of `s`, once trimmed, as a signed decimal.
pub open spec fn decimal_nano(s: Seq<char>) -> int {
    bare_decimal_nano(trim_of(s))
}

/// A scan that found no `c` before `k`, and `c` at `k` unless `k` is the
/// length, has found the first occurrence.
pub proof fn lemma_first_at_scan(s: Seq<char>, c: char, k: int)
    requires
        0 <= k <= s.len(),
        forall|i: int| 0 <= i < k ==> s[i] != c,
        k < s.len() ==> s[k] == c,
    ensures
        first_at(s, c) == if k < s.len() {
            k
        } else {
            -1
        },
    decreases k,
{
    if k == 0 {
        if s.len() > 0 && s[0] != c {
            lemma_first_at_scan(s.subrange(1, s.len() as int), c, 0);
        }
    } else {
        let tail = s.subrange(1, s.len() as int);
        assert(tail.subrange(0, k - 1) =~= s.subrange(1, k));
        lemma_first_at_scan(tail, c, k - 1);
    }
}

/// A scan that found only whitespace before `k` has trimmed the front.
pub proof fn lemma_trim_front_scan(s: Seq<char>, k: int)
    requires
        0 <= k <= s.len(),
        forall|i: int| 0 <= i < k ==> is_space(s[i]),
        k < s.len() ==> !is_space(s[k]),
    ensures
        trim_front(s) =~= s.subrange(k, s.len() as int),
    decreases k,
{
    if k == 0 {
        assert(s.subrange(0, s.len() as int) =~= s);
    } else {
        let tail = s.subrange(1, s.len() as int);
        lemma_trim_front_scan(tail, k - 1);
        assert(tail.subrange(k - 1, tail.len() as int) =~= s.subrange(k, s.len() as int));
    }
}

/// A scan that found only whitespace after `k` has trimmed the back.
pub proof fn lemma_trim_back_scan(s: Seq<char>, k: int)
    requires
        0 <= k <= s.len(),
        forall|i: int| k <= i < s.len() ==> is_space(s[i]),
        k > 0 ==> !is_space(s[k - 1]),
    ensures
        trim_back(s) =~= s.subrange(0, k),
    decreases s.len(),
{
    if s.len() > 0 && is_space(s[s.len() - 1]) {
        let head = s.subrange(0, s.len() - 1);
        lemma_trim_back_scan(head, k);
        assert(head.subrange(0, k) =~= s.subrange(0, k));
    } else {
        assert(s.subrange(0, s.len() as int) =~= s);
    }
}

/// Digit strings denote non-negative numbers.
pub proof fn lemma_digits_value_nonneg(s: Seq<char>)
    ensures
        digits_value(s) >= 0,
    decreases s.len(),
{
    if s.len() > 0 {
        lemma_digits_value_nonneg(s.subrange(0, s.len() - 1));
    }
}

/// Splitting a digit string splits its value at a power of ten.
pub proof fn lemma_digits_value_split(s: Seq<char>, k: int)
    requires
        0 <= k <= s.len(),
    ensures
        digits_value(s) == digits_value(s.subrange(0, k)) * pow10((s.len() - k) as nat)
            + digits_value(s.subrange(k, s.len() as int)),
    decreases s.len() - k,
{
    if k == s.len() {
        assert(s.subrange(0, k) =~= s);
        assert(s.subrange(k, s.len() as int) =~= Seq::<char>::empty());
    } else {
        let head = s.subrange(0, s.len() - 1);
        assert(head.subrange(0, k) =~= s.subrange(0, k));
        lemma_digits_value_split(head, k);
        assert(head.subrange(k, head.len() as int) =~= s.subrange(k, s.len() - 1));
        assert(s.subrange(k, s.len() as int).subrange(0, (s.len() - k) as int - 1) =~= s.subrange(
            k,
            s.len() - 1,
        ));
        assert(s.subrange(k, s.len() as int).len() == s.len() - k);
        let d = if is_digit(s[s.len() - 1]) {
            digit_val(s[s.len() - 1])
        } else {
            0
        };
        let a = digits_value(s.subrange(0, k));
        let b = digits_value(s.subrange(k, s.len() - 1));
        let p = pow10((s.len() - 1 - k) as nat);
        assert(digits_value(s.subrange(k, s.len() as int)) == b * 10 + d);
        assert(digits_value(s) == (a * p + b) * 10 + d);
        assert(pow10((s.len() - k) as nat) == 10 * p);
        assert((a * p + b) * 10 + d == a * (10 * p) + (b * 10 + d)) by (nonlinear_arith);
    }
}

/// Powers of ten are at least one.
pub proof fn lemma_pow10_pos(n: nat)
    ensures
        pow10(n) >= 1,
    decreases n,
{
    if n > 0 {
        lemma_pow10_pos((n - 1) as nat);
    }
}

/// A digit string's value dominates the value of any of its prefixes.
pub proof fn lemma_digits_value_prefix(s: Seq<char>, k: int)
    requires
        0 <= k <= s.len(),
    ensures
        digits_value(s) >= digits_value(s.subrange(0, k)),
{
    lemma_digits_value_split(s, k);
    lemma_digits_value_nonneg(s.subrange(0, k));
    lemma_digits_value_nonneg(s.subrange(k, s.len() as int));
    lemma_pow10_pos((s.len() - k) as nat);
    let a = digits_value(s.subrange(0, k));
    let p = pow10((s.len() - k) as nat);
    assert(a * p >= a) by (nonlinear_arith)
        requires
            a >= 0,
            p >= 1,
    ;
}

/// Powers of ten multiply by adding exponents.
pub proof fn lemma_pow10_add(a: nat, b: nat)
    ensures
        pow10(a + b) == pow10(a) * pow10(b),
    decreases a,
{
    if a == 0 {
        assert(pow10(b) == 1 * pow10(b));
    } else {
        lemma_pow10_add((a - 1) as nat, b);
        assert(pow10((a - 1) as nat + b) == pow10((a + b - 1) as nat));
        assert(10 * (pow10((a - 1) as nat) * pow10(b)) == (10 * pow10((a - 1) as nat)) * pow10(b))
            by (nonlinear_arith);
    }
}

/// Concrete bounds for powers of ten up to the ninth.
pub proof fn lemma_pow10_nine(n: nat)
    requires
        n <= 9,
    ensures
        pow10(9) == 1_000_000_000,
        pow10(n) <= 1_000_000_000,
{
    reveal_with_fuel(pow10, 10);
    assert(pow10(9) == 1_000_000_000);
    lemma_pow10_add(n, (9 - n) as nat);
    lemma_pow10_pos(n);
    lemma_pow10_pos((9 - n) as nat);
    assert(pow10(n) * pow10((9 - n) as nat) >= pow10(n)) by (nonlinear_arith)
        requires
            pow10(n) >= 0,
            pow10((9 - n) as nat) >= 1,
    ;
}

/// A digit string of at most `n` digits denotes less than ten to the `n`.
pub proof fn lemma_digits_value_bound(s: Seq<char>)
    ensures
        digits_value(s) < pow10(s.len()),
    decreases s.len(),
{
    if s.len() == 0 {
    } else {
        let head = s.subrange(0, s.len() - 1);
        lemma_digits_value_bound(head);
        let d = if is_digit(s[s.len() - 1]) {
            digit_val(s[s.len() - 1])
        } else {
            0
        };
        assert(d <= 9);
        let b = digits_value(head);
        let p = pow10((s.len() - 1) as nat);
        assert(b * 10 + d < p * 10) by (nonlinear_arith)
            requires
                b < p,
                d <= 9,
        ;
        assert(pow10(s.len()) == 10 * p);
    }
}

/// The digit a character denotes, or `-1`.
pub fn digit_of(c: char) -> (d: i128)
    ensures
        d == digit_val(c),
{
    match c {
        '0' => 0,
        '1' => 1,
        '2' => 2,
        '3' => 3,
        '4' => 4,
        '5' => 5,
        '6' => 6,
        '7' => 7,
        '8' => 8,
        '9' => 9,
        _ => -1,
    }
}

/// Whether a character is stripped by trimming.
fn space_of(c: char) -> (b: bool)
    ensures
        b == is_space(c),
{
    match c {
        ' ' => true,
        '\t' => true,
        '\n' => true,
        '\r' => true,
        _ => false,
    }
}

/// Finds the first occurrence of `c` in `s[lo..hi]`.
pub fn find_char(s: &str, lo: usize, hi: usize, c: char) -> (r: Option<usize>)
    requires
        lo <= hi <= s@.len(),
    ensures
        r matches Some(k) ==> lo <= k < hi && first_at(s@.subrange(lo as int, hi as int), c) == k
            - lo,
        r is None ==> first_at(s@.subrange(lo as int, hi as int), c) == -1,
{
    let ghost sub = s@.subrange(lo as int, hi as int);
    let mut i: usize = lo;
    while i < hi
        invariant
            lo <= i <= hi <= s@.len(),
            sub == s@.subrange(lo as int, hi as int),
            forall|j: int| 0 <= j < i - lo ==> sub[j] != c,
        decreases hi - i,
    {
        let ch = s.get_char(i);
        if ch == c {
            proof {
                lemma_first_at_scan(sub, c, i - lo);
            }
            return Some(i);
        }
        i = i + 1;
    }
    proof {
        lemma_first_at_scan(sub, c, (hi - lo) as int);
    }
    None
}

/// Bounds of `s[lo..hi]` with surrounding whitespace stripped.
pub fn trim_range(s: &str, lo: usize, hi: usize) -> (r: (usize, usize))
    requires
        lo <= hi <= s@.len(),
    ensures
        lo <= r.0 <= r.1 <= hi,
        trim_of(s@.subrange(lo as int, hi as int)) == s@.subrange(r.0 as int, r.1 as int),
{
    let ghost sub = s@.subrange(lo as int, hi as int);
    let mut a: usize = lo;
    while a < hi && space_of(s.get_char(a))
        invariant
            lo <= a <= hi <= s@.len(),
            sub == s@.subrange(lo as int, hi as int),
            forall|j: int| 0 <= j < a - lo ==> is_space(sub[j]),
        decreases hi - a,
    {
        a = a + 1;
    }
    proof {
        lemma_trim_front_scan(sub, a - lo);
        assert(sub.subrange(a - lo, sub.len() as int) =~= s@.subrange(a as int, hi as int));
    }
    let ghost fronted = s@.subrange(a as int, hi as int);
    let mut b: usize = hi;
    while b > a && space_of(s.get_char(b - 1))
        invariant
            lo <= a <= b <= hi <= s@.len(),
            fronted == s@.subrange(a as int, hi as int),
            forall|j: int| b - a <= j < fronted.len() ==> is_space(fronted[j]),
        decreases b,
    {
        b = b - 1;
    }
    proof {
        lemma_trim_back_scan(fronted, b - a);
        assert(fronted.subrange(0, b - a) =~= s@.subrange(a as int, b as int));
    }
    (a, b)
}

/// Parses `s[lo..hi]` as an all-digit string worth at most `cap`.
pub fn parse_digits_capped(s: &str, lo: usize, hi: usize, cap: i128) -> (r: Option<i128>)
    requires
        lo <= hi <= s@.len(),
        0 <= cap <= 100_000_000_000_000_000_000_000_000_000_000_000,
    ensures
        r is Some <==> all_digits(s@.subrange(lo as int, hi as int)) && digits_value(
            s@.subrange(lo as int, hi as int),
        ) <= cap as int,
        r matches Some(v) ==> v == digits_value(s@.subrange(lo as int, hi as int)) && 0 <= v
            <= cap as int,
{
    let ghost sub = s@.subrange(lo as int, hi as int);
    let mut acc: i128 = 0;
    let mut i: usize = lo;
    while i < hi
        invariant
            lo <= i <= hi <= s@.len(),
            sub == s@.subrange(lo as int, hi as int),
            acc == digits_value(sub.subrange(0, i - lo)),
            0 <= acc <= cap as int,
            0 <= cap <= 100_000_000_000_000_000_000_000_000_000_000_000,
            forall|j: int| 0 <= j < i - lo ==> is_digit(sub[j]),
        decreases hi - i,
    {
        let d = digit_of(s.get_char(i));
        if d < 0 {
            assert(!is_digit(sub[i - lo]));
            return None;
        }
        proof {
            assert(sub.subrange(0, i + 1 - lo).subrange(0, i - lo) =~= sub.subrange(0, i - lo));
            assert(sub.subrange(0, i + 1 - lo)[i - lo] == s@[i as int]);
        }
        acc = acc * 10 + d;
        i = i + 1;
        if acc > cap {
            proof {
                lemma_digits_value_prefix(sub, i - lo);
            }
            return None;
        }
    }
    proof {
        assert(sub.subrange(0, (hi - lo) as int) =~= sub);
    }
    Some(acc)
}

/// Parses `s[lo..hi]` as a fractional digit string, exact to nine places.
fn parse_frac(s: &str, lo: usize, hi: usize) -> (r: Option<i128>)
    requires
        lo <= hi <= s@.len(),
    ensures
        r is Some <==> all_digits(s@.subrange(lo as int, hi as int)),
        r matches Some(v) ==> v == frac_nano(s@.subrange(lo as int, hi as int)) && 0 <= v
            < SCALE as int,
{
    let ghost sub = s@.subrange(lo as int, hi as int);
    let mut acc: i128 = 0;
    let mut i: usize = lo;
    while i < hi
        invariant
            lo <= i <= hi <= s@.len(),
            sub == s@.subrange(lo as int, hi as int),
            i - lo <= 9 ==> acc == digits_value(sub.subrange(0, i - lo)) && acc < pow10(
                (i - lo) as nat,
            ),
            i - lo > 9 ==> acc == digits_value(sub.subrange(0, 9)),
            0 <= acc <= 999_999_999,
            forall|j: int| 0 <= j < i - lo ==> is_digit(sub[j]),
        decreases hi - i,
    {
        let d = digit_of(s.get_char(i));
        if d < 0 {
            assert(!is_digit(sub[i - lo]));
            return None;
        }
        if i - lo < 9 {
            proof {
                assert(sub.subrange(0, i + 1 - lo).subrange(0, i - lo) =~= sub.subrange(
                    0,
                    i - lo,
                ));
                assert(sub.subrange(0, i + 1 - lo)[i - lo] == s@[i as int]);
                lemma_digits_value_bound(sub.subrange(0, i + 1 - lo));
                lemma_pow10_nine((i + 1 - lo) as nat);
            }
            acc = acc * 10 + d;
        }
        i = i + 1;
    }
    let digit_count: usize = hi - lo;
    if digit_count >= 9 {
        proof {
            if digit_count == 9 {
                assert(sub.subrange(0, 9) =~= sub);
            }
        }
        Some(acc)
    } else {
        let mut mult: i128 = 1;
        let mut k: usize = digit_count;
        while k < 9
            invariant
                digit_count <= k <= 9,
                mult == pow10((k - digit_count) as nat),
                1 <= mult <= 1_000_000_000,
            decreases 9 - k,
        {
            proof {
                lemma_pow10_nine((k + 1 - digit_count) as nat);
            }
            mult = mult * 10;
            k = k + 1;
        }
        proof {
            assert(sub.subrange(0, sub.len() as int) =~= sub);
            lemma_pow10_add(digit_count as nat, (9 - digit_count) as nat);
            lemma_pow10_nine(9nat);
            assert(acc * mult < pow10(9nat) && 0 <= acc * mult) by (nonlinear_arith)
                requires
                    0 <= acc < pow10(digit_count as nat),
                    mult == pow10((9 - digit_count) as nat),
                    1 <= mult,
                    pow10(digit_count as nat) * pow10((9 - digit_count) as nat) == pow10(9nat),
            ;
        }
        Some(acc * mult)
    }
}

/// Parses `s[lo..hi]` as an unsigned decimal (no trimming, no sign).
fn parse_unsigned(s: &str, lo: usize, hi: usize) -> (r: Option<i128>)
    requires
        lo <= hi <= s@.len(),
    ensures
        r is Some <==> valid_unsigned(s@.subrange(lo as int, hi as int)) && unsigned_int_part(
            s@.subrange(lo as int, hi as int),
        ) <= INT_PART_CAP as int,
        r matches Some(v) ==> v == unsigned_nano(s@.subrange(lo as int, hi as int)) && 0 <= v
            < 100_000_000_000_000_000,
{
    let ghost sub = s@.subrange(lo as int, hi as int);
    match find_char(s, lo, hi, '.') {
        None => {
            if lo == hi {
                return None;
            }
            match parse_digits_capped(s, lo, hi, INT_PART_CAP) {
                None => None,
                Some(ip) => Some(ip * SCALE),
            }
        },
        Some(dot) => {
            if hi - lo <= 1 {
                // the range is just the dot itself
                return None;
            }
            proof {
                assert(sub.subrange(0, dot - lo) =~= s@.subrange(lo as int, dot as int));
                assert(sub.subrange(dot - lo + 1, sub.len() as int) =~= s@.subrange(
                    dot + 1,
                    hi as int,
                ));
            }
            let ip = match parse_digits_capped(s, lo, dot, INT_PART_CAP) {
                None => {
                    return None;
                },
                Some(ip) => ip,
            };
            let f = match parse_frac(s, dot + 1, hi) {
                None => {
                    return None;
                },
                Some(f) => f,
            };
            Some(ip * SCALE + f)
        },
    }
}

/// Whether `t` (already trimmed) is a well-formed signed decimal whose
/// integer part the parser accepts.
pub open spec fn bare_decimal_ok(t: Seq<char>) -> bool {
    valid_unsigned(sign_rest(t)) && unsigned_int_part(sign_rest(t)) <= INT_PART_CAP as int
}

/// Nano-unit value of `t` (already trimmed) as a signed decimal.
pub open spec fn bare_decimal_nano(t: Seq<char>) -> int {
    if sign_negative(t) {
        -unsigned_nano(sign_rest(t))
    } else {
        unsigned_nano(sign_rest(t))
    }
}

/// Parses `s[lo..hi]` as a signed decimal, with no trimming: exactly
/// [`bare_decimal_ok`] and [`bare_decimal_nano`].
pub fn parse_bare_decimal(s: &str, lo: usize, hi: usize) -> (r: Option<Fixed>)
    requires
        lo <= hi <= s@.len(),
    ensures
        r is Some <==> bare_decimal_ok(s@.subrange(lo as int, hi as int)),
        r matches Some(v) ==> v@ == bare_decimal_nano(s@.subrange(lo as int, hi as int))
            && iabs_lt_cap(v@),
{
    let ghost t = s@.subrange(lo as int, hi as int);
    let mut neg: bool = false;
    let mut c: usize = lo;
    if lo < hi {
        let ch = s.get_char(lo);
        if ch == '-' {
            neg = true;
            c = lo + 1;
        } else if ch == '+' {
            c = lo + 1;
        }
    }
    proof {
        assert(sign_rest(t) =~= s@.subrange(c as int, hi as int));
    }
    match parse_unsigned(s, c, hi) {
        None => None,
        Some(v) => {
            let signed: i128 = if neg {
                -v
            } else {
                v
            };
            Some(Fixed::from_nano(signed).unwrap())
        },
    }
}

/// Parses `s[lo..hi]` as a signed decimal with surrounding whitespace
/// allowed, exactly as [`decimal_ok`] and [`decimal_nano`] describe.
pub fn parse_decimal(s: &str, lo: usize, hi: usize) -> (r: Option<Fixed>)
    requires
        lo <= hi <= s@.len(),
    ensures
        r is Some <==> decimal_ok(s@.subrange(lo as int, hi as int)),
        r matches Some(v) ==> v@ == decimal_nano(s@.subrange(lo as int, hi as int)) && iabs_lt_cap(
            v@,
        ),
{
    let (a, b) = trim_range(s, lo, hi);
    parse_bare_decimal(s, a, b)
}

/// Whether a nano-unit value is within what a parsed decimal can reach.
pub open spec fn iabs_lt_cap(x: int) -> bool {
    -100_000_000_000_000_000 < x < 100_000_000_000_000_000
}

/// Whether every `+`-separated segment of `s` parses as a decimal.
/// An empty final segment (after a trailing `+`) is dropped.
pub open spec fn segs_ok(s: Seq<char>) -> bool
    decreases s.len(),
{
    let p = first_at(s, '+');
    if !(0 <= p < s.len()) {
        s.len() == 0 || decimal_ok(s)
    } else {
        decimal_ok(s.subrange(0, p)) && segs_ok(s.subrange(p + 1, s.len() as int))
    }
}

/// How many `+`-separated segments `s` has, an empty final segment
/// (after a trailing `+`) dropped.
pub open spec fn seg_count(s: Seq<char>) -> int
    decreases s.len(),
{
    let p = first_at(s, '+');
    if !(0 <= p < s.len()) {
        if s.len() == 0 {
            0
        } else {
            1
        }
    } else {
        1 + seg_count(s.subrange(p + 1, s.len() as int))
    }
}

/// A string never has a negative number of segments.
pub proof fn lemma_seg_count_nonneg(s: Seq<char>)
    ensures
        seg_count(s) >= 0,
    decreases s.len(),
{
    let p = first_at(s, '+');
    if 0 <= p < s.len() {
        lemma_seg_count_nonneg(s.subrange(p + 1, s.len() as int));
    }
}

/// Unfolds the segment predicates of a suffix of `s` at its first `+`.
pub proof fn lemma_segs_unfold(s: Seq<char>, pos: int, q: int)
    requires
        0 <= pos <= q < s.len(),
        first_at(s.subrange(pos, s.len() as int), '+') == q - pos,
    ensures
        segs_ok(s.subrange(pos, s.len() as int)) == (decimal_ok(s.subrange(pos, q)) && segs_ok(
            s.subrange(q + 1, s.len() as int),
        )),
        seg_count(s.subrange(pos, s.len() as int)) == 1 + seg_count(
            s.subrange(q + 1, s.len() as int),
        ),
{
    let suffix = s.subrange(pos, s.len() as int);
    assert(suffix.subrange(0, q - pos) =~= s.subrange(pos, q));
    assert(suffix.subrange(q - pos + 1, suffix.len() as int) =~= s.subrange(
        q + 1,
        s.len() as int,
    ));
}

} // verus!
