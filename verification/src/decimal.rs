//! Fixed-point decimal numbers with six fractional digits and an explicit
//! "not a number" value that absorbs every result that cannot be represented.

use vstd::prelude::*;
use vstd::arithmetic::div_mod::lemma_fundamental_div_mod_converse;

verus! {

/// How many stored units make up the value one.
pub const SCALE: i64 = 1_000_000;

/// A decimal number held as a count of millionths, or `NaN` where no such
/// count exists: an input that was no number, or a result out of range.
#[derive(Clone, Copy, Debug, PartialEq, Eq, Structural)]
pub enum Decimal {
    NaN,
    Finite(i64),
}

/// The quotient `n / d` rounded to the nearest integer, halves away from zero.
pub open spec fn round_div(n: int, d: int) -> int
    recommends
        d > 0,
{
    if n >= 0 {
        (2 * n + d) / (2 * d)
    } else {
        -((2 * (-n) + d) / (2 * d))
    }
}

/// A rounded quotient has the sign of what was divided, or is zero.
pub proof fn lemma_round_div_sign(n: int, d: int)
    requires
        d > 0,
    ensures
        n >= 0 ==> round_div(n, d) >= 0,
        n <= 0 ==> round_div(n, d) <= 0,
        n == 0 ==> round_div(n, d) == 0,
{
    if n >= 0 {
        assert((2 * n + d) / (2 * d) >= 0) by (nonlinear_arith)
            requires
                n >= 0,
                d > 0,
        ;
        if n == 0 {
            assert((2 * n + d) / (2 * d) == 0) by (nonlinear_arith)
                requires
                    n == 0,
                    d > 0,
            ;
        }
    } else {
        assert((2 * (-n) + d) / (2 * d) >= 0) by (nonlinear_arith)
            requires
                n < 0,
                d > 0,
        ;
    }
}

/// The decimal that holds `micros` millionths, `NaN` where that is out of range.
pub open spec fn decimal_of(micros: int) -> Decimal {
    if i64::MIN <= micros <= i64::MAX {
        Decimal::Finite(micros as i64)
    } else {
        Decimal::NaN
    }
}

/// `round_div` on machine integers.
pub(crate) fn rounded_quotient(n: i128, d: u128) -> (q: i128)
    requires
        d > 0,
        n > i128::MIN,
    ensures
        q == round_div(n as int, d as int),
        -n <= q <= n || n <= q <= -n,
{
    let negative: bool = n < 0;
    let m: u128 = if negative { (-n) as u128 } else { n as u128 };
    let q0: u128 = m / d;
    let r: u128 = m % d;
    let up: u128 = if r >= d - r { 1 } else { 0 };
    proof {
        assert(m == d * q0 + r) by (nonlinear_arith)
            requires q0 == m / d, r == m % d, d > 0;
        assert(q0 <= m) by (nonlinear_arith)
            requires m == d * q0 + r, d > 0, r >= 0, q0 >= 0;
        if up == 1 {
            assert(q0 < m) by (nonlinear_arith)
                requires m == d * q0 + r, d > 0, 2 * r >= d, q0 >= 0, r >= 0;
        }
        let x: int = 2 * (m as int) + d;
        let k: int = q0 + up;
        let rem: int = x - (2 * d) * k;
        assert(rem == 2 * r + d - 2 * d * up) by (nonlinear_arith)
            requires rem == x - (2 * d) * k, x == 2 * (m as int) + d, k == q0 + up,
                m == d * q0 + r;
        assert(0 <= rem < 2 * d);
        assert(x == k * (2 * d) + rem) by (nonlinear_arith)
            requires rem == x - (2 * d) * k;
        lemma_fundamental_div_mod_converse(x, 2 * d, k, rem);
    }
    let q: u128 = q0 + up;
    if negative {
        -(q as i128)
    } else {
        q as i128
    }
}

impl Decimal {
    /// Whether this is the "not a number" value.
    pub open spec fn spec_is_nan(self) -> bool {
        self is NaN
    }

    /// The count of millionths held; zero for `NaN`.
    pub open spec fn micros(self) -> int {
        match self {
            Decimal::Finite(m) => m as int,
            Decimal::NaN => 0,
        }
    }

    /// The sum, `NaN` where an operand is `NaN` or the sum is out of range.
    pub open spec fn spec_plus(self, other: Decimal) -> Decimal {
        match (self, other) {
            (Decimal::Finite(a), Decimal::Finite(b)) => decimal_of(a + b),
            _ => Decimal::NaN,
        }
    }

    /// The difference, `NaN` where an operand is `NaN` or the difference is out of range.
    pub open spec fn spec_minus(self, other: Decimal) -> Decimal {
        match (self, other) {
            (Decimal::Finite(a), Decimal::Finite(b)) => decimal_of(a - b),
            _ => Decimal::NaN,
        }
    }

    /// The product rounded to the nearest millionth, halves away from zero;
    /// `NaN` where an operand is `NaN` or the rounded product is out of range.
    pub open spec fn spec_times(self, other: Decimal) -> Decimal {
        match (self, other) {
            (Decimal::Finite(a), Decimal::Finite(b)) => decimal_of(round_div(a * b, SCALE as int)),
            _ => Decimal::NaN,
        }
    }

    /// The hundredth part rounded to the nearest millionth, halves away from
    /// zero: the fraction that a percentage stands for. `NaN` stays `NaN`.
    pub open spec fn spec_hundredth(self) -> Decimal {
        match self {
            Decimal::Finite(m) => decimal_of(round_div(m as int, 100)),
            Decimal::NaN => Decimal::NaN,
        }
    }

    /// Strictly smaller, as numbers; `false` where an operand is `NaN`.
    pub open spec fn spec_less_than(self, other: Decimal) -> bool {
        match (self, other) {
            (Decimal::Finite(a), Decimal::Finite(b)) => a < b,
            _ => false,
        }
    }

    /// A number that is below zero.
    pub open spec fn spec_is_negative(self) -> bool {
        self.spec_less_than(Decimal::Finite(0))
    }

    /// The decimal that holds `micros` millionths.
    pub fn from_micros(micros: i64) -> (d: Decimal)
        ensures
            d == Decimal::Finite(micros),
    {
        Decimal::Finite(micros)
    }

    /// The decimal for a whole number of units, `NaN` where it is out of range.
    pub fn from_units(units: usize) -> (d: Decimal)
        ensures
            d == decimal_of(units as int * SCALE as int),
    {
        let wide: u128 = units as u128 * 1_000_000u128;
        if wide <= i64::MAX as u128 {
            Decimal::Finite(wide as i64)
        } else {
            Decimal::NaN
        }
    }

    pub fn is_nan(&self) -> (b: bool)
        ensures
            b == self.spec_is_nan(),
    {
        match self {
            Decimal::NaN => true,
            Decimal::Finite(_) => false,
        }
    }

    pub fn is_negative(&self) -> (b: bool)
        ensures
            b == self.spec_is_negative(),
    {
        match self {
            Decimal::NaN => false,
            Decimal::Finite(m) => *m < 0,
        }
    }

    pub fn less_than(&self, other: &Decimal) -> (b: bool)
        ensures
            b == self.spec_less_than(*other),
    {
        match (self, other) {
            (Decimal::Finite(a), Decimal::Finite(b)) => *a < *b,
            _ => false,
        }
    }

    pub fn plus(self, other: Decimal) -> (sum: Decimal)
        ensures
            sum == self.spec_plus(other),
    {
        match (self, other) {
            (Decimal::Finite(a), Decimal::Finite(b)) => narrowed(a as i128 + b as i128),
            _ => Decimal::NaN,
        }
    }

    pub fn minus(self, other: Decimal) -> (difference: Decimal)
        ensures
            difference == self.spec_minus(other),
    {
        match (self, other) {
            (Decimal::Finite(a), Decimal::Finite(b)) => narrowed(a as i128 - b as i128),
            _ => Decimal::NaN,
        }
    }

    pub fn hundredth(self) -> (part: Decimal)
        ensures
            part == self.spec_hundredth(),
    {
        match self {
            Decimal::Finite(m) => narrowed(rounded_quotient(m as i128, 100u128)),
            Decimal::NaN => Decimal::NaN,
        }
    }

    pub fn times(self, other: Decimal) -> (product: Decimal)
        ensures
            product == self.spec_times(other),
    {
        match (self, other) {
            (Decimal::Finite(a), Decimal::Finite(b)) => {
                assert(-0x4000_0000_0000_0000_0000_0000_0000_0000 <= a * b
                    <= 0x4000_0000_0000_0000_0000_0000_0000_0000) by (nonlinear_arith)
                    requires
                        -0x8000_0000_0000_0000 <= a <= 0x7fff_ffff_ffff_ffff,
                        -0x8000_0000_0000_0000 <= b <= 0x7fff_ffff_ffff_ffff,
                ;
                let wide: i128 = a as i128 * b as i128;
                narrowed(rounded_quotient(wide, 1_000_000u128))
            },
            _ => Decimal::NaN,
        }
    }
}

/// The sum of the millionths that the values hold.
pub open spec fn total_micros(values: Seq<Decimal>) -> int
    decreases values.len(),
{
    if values.len() == 0 {
        0
    } else {
        total_micros(values.drop_last()) + values.last().micros()
    }
}

/// The arithmetic mean rounded to the nearest millionth, halves away from zero;
/// `NaN` for no values at all and where one of them is `NaN`.
pub open spec fn mean(values: Seq<Decimal>) -> Decimal {
    if values.len() == 0 || exists|i: int| 0 <= i < values.len() && values[i] is NaN {
        Decimal::NaN
    } else {
        decimal_of(round_div(total_micros(values), values.len() as int))
    }
}

/// `decimal_of` on machine integers.
pub(crate) fn narrowed(micros: i128) -> (d: Decimal)
    ensures
        d == decimal_of(micros as int),
{
    if i64::MIN as i128 <= micros && micros <= i64::MAX as i128 {
        Decimal::Finite(micros as i64)
    } else {
        Decimal::NaN
    }
}

} // verus!
