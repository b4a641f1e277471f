//! Exact fixed-point scalars.
//!
//! Every linear quantity in the library (stations, elevations, lengths,
//! grades, angles in decimal degrees) is a [`Fixed`]: a signed count of
//! nano-units (one billionth of a unit) held in an `i128`. Arithmetic is
//! exact integer arithmetic; multiplication and division rescale with
//! truncating (round-toward-zero) integer division, and operations whose
//! mathematical result would leave the representable range report that
//! instead of wrapping.

use vstd::prelude::*;

verus! {

/// Nano-units per unit: the fixed-point scale.
pub const SCALE: i128 = 1_000_000_000;

/// Largest magnitude, in nano-units, that a `Fixed` may hold.
///
/// The bound keeps every product of two in-range raw values inside `i128`.
pub const LIMIT: i128 = 10_000_000_000_000_000_000;

/// Whether a mathematical value, in nano-units, fits in a `Fixed`.
pub open spec fn in_range(x: int) -> bool {
    -(LIMIT as int) <= x <= LIMIT as int
}

/// Magnitude of an integer.
pub open spec fn iabs(x: int) -> int {
    if x < 0 {
        -x
    } else {
        x
    }
}

/// Truncating (round-toward-zero) integer division, as `/` behaves on
/// machine integers. Unspecified for `d == 0`.
pub open spec fn tdiv(x: int, d: int) -> int {
    if x == 0 {
        0
    } else if x > 0 && d > 0 {
        x / d
    } else if x < 0 && d < 0 {
        (x * -1) / (d * -1)
    } else if x < 0 {
        ((x * -1) / d) * -1
    } else {
        (x / (d * -1)) * -1
    }
}

/// Product of two fixed-point values, in nano-units.
pub open spec fn fmul(a: int, b: int) -> int {
    tdiv(a * b, SCALE as int)
}

/// Quotient of two fixed-point values, in nano-units. Unspecified for `b == 0`.
pub open spec fn fdiv(a: int, b: int) -> int {
    tdiv(a * (SCALE as int), b)
}

/// A signed fixed-point number: `n` nano-units stand for the value
/// `n / 1_000_000_000`.
#[derive(Clone, Copy, Debug, PartialEq, Eq, Structural)]
pub struct Fixed {
    n: i128,
}

impl View for Fixed {
    type V = int;

    closed spec fn view(&self) -> int {
        self.n as int
    }
}

impl Fixed {
    #[verifier::type_invariant]
    spec fn type_inv(self) -> bool {
        in_range(self.n as int)
    }

    /// The zero scalar.
    pub fn zero() -> (r: Fixed)
        ensures
            r@ == 0,
    {
        Fixed { n: 0 }
    }

    /// The scalar one (one whole unit).
    pub fn one() -> (r: Fixed)
        ensures
            r@ == SCALE as int,
    {
        Fixed { n: SCALE }
    }

    /// Builds a scalar from a raw count of nano-units.
    pub fn from_nano(n: i128) -> (r: Option<Fixed>)
        ensures
            r is Some <==> in_range(n as int),
            r matches Some(v) ==> v@ == n as int,
    {
        if -LIMIT <= n && n <= LIMIT {
            Some(Fixed { n })
        } else {
            None
        }
    }

    /// The raw count of nano-units.
    pub fn as_nano(self) -> (n: i128)
        ensures
            n as int == self@,
            in_range(n as int),
    {
        proof {
            use_type_invariant(self);
        }
        self.n
    }

    /// Exact sum; reports `None` when the sum leaves the representable range.
    pub fn checked_add(self, other: Fixed) -> (r: Option<Fixed>)
        ensures
            r is Some <==> in_range(self@ + other@),
            r matches Some(v) ==> v@ == self@ + other@,
    {
        proof {
            use_type_invariant(self);
            use_type_invariant(other);
        }
        let s = self.n + other.n;
        if -LIMIT <= s && s <= LIMIT {
            Some(Fixed { n: s })
        } else {
            None
        }
    }

    /// Exact difference; `None` when it leaves the representable range.
    pub fn checked_sub(self, other: Fixed) -> (r: Option<Fixed>)
        ensures
            r is Some <==> in_range(self@ - other@),
            r matches Some(v) ==> v@ == self@ - other@,
    {
        proof {
            use_type_invariant(self);
            use_type_invariant(other);
        }
        let s = self.n - other.n;
        if -LIMIT <= s && s <= LIMIT {
            Some(Fixed { n: s })
        } else {
            None
        }
    }

    /// Fixed-point product; `None` when it leaves the representable range.
    pub fn checked_mul(self, other: Fixed) -> (r: Option<Fixed>)
        ensures
            r is Some <==> in_range(fmul(self@, other@)),
            r matches Some(v) ==> v@ == fmul(self@, other@),
    {
        proof {
            use_type_invariant(self);
            use_type_invariant(other);
            assert(
                -((LIMIT as int) * (LIMIT as int)) <= (self.n as int) * (other.n as int)
                    <= (LIMIT as int) * (LIMIT as int)) by (nonlinear_arith)
                requires
                    -(LIMIT as int) <= self.n as int <= LIMIT as int,
                    -(LIMIT as int) <= other.n as int <= LIMIT as int,
            ;
        }
        let p = self.n * other.n;
        let q = match p.checked_div(SCALE) {
            Some(q) => q,
            None => {
                proof {
                    lemma_tdiv_magnitude(p as int, SCALE as int);
                }
                unreached()
            },
        };
        proof {
            lemma_tdiv_magnitude(p as int, SCALE as int);
        }
        if -LIMIT <= q && q <= LIMIT {
            Some(Fixed { n: q })
        } else {
            None
        }
    }

    /// Fixed-point quotient; `None` when it leaves the representable range.
    pub fn checked_div(self, other: Fixed) -> (r: Option<Fixed>)
        requires
            other@ != 0,
        ensures
            r is Some <==> in_range(fdiv(self@, other@)),
            r matches Some(v) ==> v@ == fdiv(self@, other@),
    {
        proof {
            use_type_invariant(self);
            use_type_invariant(other);
        }
        let p = self.n * SCALE;
        let q = match p.checked_div(other.n) {
            Some(q) => q,
            None => {
                proof {
                    lemma_tdiv_magnitude(p as int, other.n as int);
                }
                unreached()
            },
        };
        proof {
            lemma_tdiv_magnitude(p as int, other.n as int);
        }
        if -LIMIT <= q && q <= LIMIT {
            Some(Fixed { n: q })
        } else {
            None
        }
    }

    /// Exact negation.
    pub fn neg(self) -> (r: Fixed)
        ensures
            r@ == -self@,
    {
        proof {
            use_type_invariant(self);
        }
        Fixed { n: -self.n }
    }

    /// Exact magnitude.
    pub fn abs(self) -> (r: Fixed)
        ensures
            r@ == iabs(self@),
    {
        proof {
            use_type_invariant(self);
        }
        if self.n < 0 {
            Fixed { n: -self.n }
        } else {
            Fixed { n: self.n }
        }
    }

    /// Half the value, truncated toward zero.
    pub fn halved(self) -> (r: Fixed)
        ensures
            r@ == tdiv(self@, 2),
    {
        proof {
            use_type_invariant(self);
        }
        let q = match self.n.checked_div(2) {
            Some(q) => q,
            None => {
                proof {
                    lemma_tdiv_magnitude(self.n as int, 2);
                }
                unreached()
            },
        };
        proof {
            lemma_tdiv_magnitude(self.n as int, 2);
        }
        Fixed { n: q }
    }

    /// Strict order on the values.
    pub fn lt(self, other: Fixed) -> (b: bool)
        ensures
            b == (self@ < other@),
    {
        self.n < other.n
    }

    /// Non-strict order on the values.
    pub fn le(self, other: Fixed) -> (b: bool)
        ensures
            b == (self@ <= other@),
    {
        self.n <= other.n
    }

    /// Whether the value is negative.
    pub fn is_neg(self) -> (b: bool)
        ensures
            b == (self@ < 0),
    {
        self.n < 0
    }

    /// Whether the value is zero.
    pub fn is_zero(self) -> (b: bool)
        ensures
            b == (self@ == 0),
    {
        self.n == 0
    }
}

/// Truncating division on raw nano-unit counts.
pub fn tdiv_exec(x: i128, d: i128) -> (r: i128)
    requires
        d != 0,
        x > i128::MIN,
    ensures
        r == tdiv(x as int, d as int),
        iabs(r as int) <= iabs(x as int),
{
    match x.checked_div(d) {
        Some(q) => {
            proof {
                lemma_tdiv_magnitude(x as int, d as int);
            }
            q
        },
        None => {
            proof {
                lemma_tdiv_magnitude(x as int, d as int);
            }
            unreached()
        },
    }
}

/// Truncating division never grows the magnitude when the divisor's
/// magnitude is at least one.
pub proof fn lemma_tdiv_magnitude(x: int, d: int)
    requires
        d != 0,
    ensures
        iabs(tdiv(x, d)) <= iabs(x),
        x >= 0 && d > 0 ==> tdiv(x, d) >= 0,
{
    if x != 0 {
        let px = iabs(x);
        let pd = iabs(d);
        vstd::arithmetic::div_mod::lemma_div_nonincreasing(px, pd);
        vstd::arithmetic::div_mod::lemma_div_pos_is_pos(px, pd);
    }
}

} // verus!
