//! Exact decimal money amounts.
//!
//! An [`Amount`] is a signed integer mantissa together with a decimal scale:
//! it stands for `mantissa / 10^scale`. Sums and differences are computed
//! exactly or not at all, so balances never drift through rounding.

use vstd::prelude::*;
use crate::text::{hex_digits, natural_text};

verus! {

/// The largest number of fractional digits an amount can carry.
pub const MAX_SCALE: u32 = 28;

/// Mantissas lie strictly between `-MANTISSA_LIMIT` and `MANTISSA_LIMIT`
/// (the limit is 2^96).
pub const MANTISSA_LIMIT: i128 = 79_228_162_514_264_337_593_543_950_336;

/// The hundredths in the magnitude of `mantissa / 10^scale`, what lies
/// beyond the second fractional digit cut off.
pub open spec fn whole_hundredths(mantissa: int, scale: nat) -> nat {
    if scale >= 2 {
        (magnitude(mantissa) / pow10((scale - 2) as nat)) as nat
    } else {
        (magnitude(mantissa) * pow10((2 - scale) as nat)) as nat
    }
}

/// A decimal number written with exactly two fractional digits: a minus
/// sign where the mantissa is negative, the whole part without leading
/// zeros, a point, and the first two fractional digits. Further digits are
/// cut off, not rounded.
pub open spec fn decimal_two_places(mantissa: int, scale: nat) -> Seq<char> {
    let hundredths = whole_hundredths(mantissa, scale);
    let sign = if mantissa < 0 {
        seq!['-']
    } else {
        Seq::<char>::empty()
    };
    sign + natural_text(hundredths / 100) + seq![
        '.',
        hex_digits()[(hundredths / 10 % 10) as int],
        hex_digits()[(hundredths % 10) as int],
    ]
}

/// What `rust_decimal` reads from a text: the mantissa and the scale of the
/// number, or nothing where the text is no decimal number.
pub uninterp spec fn decimal_parse(s: Seq<char>) -> Option<(i128, u32)>;

/// Ten to the power `n`.
pub open spec fn pow10(n: nat) -> int
    decreases n,
{
    if n == 0 {
        1
    } else {
        10 * pow10((n - 1) as nat)
    }
}

/// The absolute value of an integer.
pub open spec fn magnitude(x: int) -> int {
    if x < 0 {
        -x
    } else {
        x
    }
}

/// A signed decimal number: `mantissa / 10^scale`.
#[derive(Clone, Copy, Debug, PartialEq, Eq, Structural)]
pub struct Amount {
    pub mantissa: i128,
    pub scale: u32,
}

pub proof fn lemma_pow10_positive(n: nat)
    ensures
        pow10(n) >= 1,
    decreases n,
{
    if n > 0 {
        lemma_pow10_positive((n - 1) as nat);
    }
}

pub proof fn lemma_pow10_monotonic(i: nat, j: nat)
    requires
        i <= j,
    ensures
        pow10(i) <= pow10(j),
    decreases j,
{
    lemma_pow10_positive(i);
    if i < j {
        lemma_pow10_monotonic(i, (j - 1) as nat);
    }
}

pub proof fn lemma_pow10_sum(a: nat, b: nat)
    ensures
        pow10(a + b) == pow10(a) * pow10(b),
    decreases a,
{
    if a > 0 {
        lemma_pow10_sum((a - 1) as nat, b);
        assert(pow10(a + b) == 10 * pow10((a - 1 + b) as nat));
        assert(10 * (pow10((a - 1) as nat) * pow10(b)) == (10 * pow10((a - 1) as nat)) * pow10(b))
            by (nonlinear_arith);
    } else {
        assert(pow10(a) == 1);
        assert(1 * pow10(b) == pow10(b));
    }
}

pub proof fn lemma_pow10_28()
    ensures
        pow10(28) == 10_000_000_000_000_000_000_000_000_000int,
{
    reveal_with_fuel(pow10, 29);
}

/// Ten to the power `n`, for the scales an amount can have.
fn power_of_ten(n: u32) -> (r: i128)
    requires
        n <= MAX_SCALE,
    ensures
        r == pow10(n as nat),
        1 <= r <= 10_000_000_000_000_000_000_000_000_000,
{
    let mut r: i128 = 1;
    let mut i: u32 = 0;
    proof {
        lemma_pow10_28();
    }
    while i < n
        invariant
            i <= n <= MAX_SCALE,
            r == pow10(i as nat),
            1 <= r,
            pow10(28) == 10_000_000_000_000_000_000_000_000_000int,
        decreases n - i,
    {
        proof {
            lemma_pow10_monotonic((i + 1) as nat, 28);
            lemma_pow10_positive(i as nat);
        }
        r = r * 10;
        i = i + 1;
    }
    proof {
        lemma_pow10_monotonic(n as nat, 28);
    }
    r
}

impl Amount {
    /// Well-formedness: the scale and the mantissa are within their limits.
    pub open spec fn wf(self) -> bool {
        &&& self.scale <= MAX_SCALE
        &&& -MANTISSA_LIMIT < self.mantissa < MANTISSA_LIMIT
    }

    /// The amount in units of 10^-28: an integer that orders and adds as the
    /// amounts themselves do.
    pub open spec fn units(self) -> int {
        self.mantissa * pow10((MAX_SCALE - self.scale) as nat)
    }

    /// The mantissa this amount has when written with `scale` fractional
    /// digits, for a `scale` that is at least its own.
    pub open spec fn aligned(self, scale: nat) -> int {
        self.mantissa * pow10((scale - self.scale) as nat)
    }

    /// The larger of two amounts' scales.
    pub open spec fn common_scale(self, other: Amount) -> u32 {
        if self.scale >= other.scale {
            self.scale
        } else {
            other.scale
        }
    }

    /// The sum of two amounts at their common scale, where the mantissa of
    /// that sum is within the limit.
    pub open spec fn spec_add(self, other: Amount) -> Option<Amount> {
        let s = self.common_scale(other);
        let m = self.aligned(s as nat) + other.aligned(s as nat);
        if -MANTISSA_LIMIT < m < MANTISSA_LIMIT {
            Some(Amount { mantissa: m as i128, scale: s })
        } else {
            None
        }
    }

    /// The amount with the opposite sign.
    pub open spec fn spec_neg(self) -> Amount {
        Amount { mantissa: (-self.mantissa) as i128, scale: self.scale }
    }

    /// The difference of two amounts: the sum with the opposite of `other`.
    pub open spec fn spec_sub(self, other: Amount) -> Option<Amount> {
        self.spec_add(other.spec_neg())
    }

    /// Two amounts are close when they differ by less than one hundredth.
    pub open spec fn close_to(self, other: Amount) -> bool {
        100 * magnitude(self.units() - other.units()) < pow10(MAX_SCALE as nat)
    }

    /// `|self| > |other|`.
    pub open spec fn outweighs(self, other: Amount) -> bool {
        magnitude(self.units()) > magnitude(other.units())
    }

    /// The amount `mantissa / 10^scale`, if both numbers are within limits.
    pub fn new(mantissa: i128, scale: u32) -> (r: Option<Amount>)
        ensures
            r == if (Amount { mantissa, scale }).wf() {
                Some(Amount { mantissa, scale })
            } else {
                None
            },
    {
        if scale <= MAX_SCALE && -MANTISSA_LIMIT < mantissa && mantissa < MANTISSA_LIMIT {
            Some(Amount { mantissa, scale })
        } else {
            None
        }
    }

    /// Zero, with no fractional digits.
    pub fn zero() -> (r: Amount)
        ensures
            r == (Amount { mantissa: 0, scale: 0 }),
            r.wf(),
            r.units() == 0,
    {
        Amount { mantissa: 0, scale: 0 }
    }

    /// A whole number of hundredths, such as cents.
    pub fn from_hundredths(hundredths: i64) -> (r: Amount)
        ensures
            r == (Amount { mantissa: hundredths as i128, scale: 2 }),
            r.wf(),
    {
        Amount { mantissa: hundredths as i128, scale: 2 }
    }

    pub fn is_zero(self) -> (r: bool)
        ensures
            r == (self.mantissa == 0),
    {
        self.mantissa == 0
    }

    pub fn is_positive(self) -> (r: bool)
        ensures
            r == (self.mantissa > 0),
    {
        self.mantissa > 0
    }

    pub fn is_negative(self) -> (r: bool)
        ensures
            r == (self.mantissa < 0),
    {
        self.mantissa < 0
    }

    /// The amount with the opposite sign.
    pub fn neg(self) -> (r: Amount)
        requires
            self.wf(),
        ensures
            r == self.spec_neg(),
            r.wf(),
    {
        Amount { mantissa: -self.mantissa, scale: self.scale }
    }

    /// The exact sum, or `None` where its mantissa at the common scale would
    /// reach the limit.
    pub fn checked_add(self, other: Amount) -> (r: Option<Amount>)
        requires
            self.wf(),
            other.wf(),
        ensures
            r == self.spec_add(other),
            r matches Some(v) ==> v.wf(),
    {
        let s: u32 = if self.scale >= other.scale {
            self.scale
        } else {
            other.scale
        };
        let pa: i128 = power_of_ten(s - self.scale);
        let pb: i128 = power_of_ten(s - other.scale);
        assert(pa == 1 || pb == 1) by {
            reveal_with_fuel(pow10, 1);
        }
        assert(self.aligned(s as nat) == self.mantissa * pa);
        assert(other.aligned(s as nat) == other.mantissa * pb);
        assert(pa == 1 ==> self.mantissa * pa == self.mantissa) by (nonlinear_arith);
        assert(pb == 1 ==> other.mantissa * pb == other.mantissa) by (nonlinear_arith);
        let xa: i128 = match self.mantissa.checked_mul(pa) {
            Some(x) => x,
            None => {
                assert(pb == 1);
                return None;
            },
        };
        let xb: i128 = match other.mantissa.checked_mul(pb) {
            Some(x) => x,
            None => {
                assert(pa == 1);
                return None;
            },
        };
        match xa.checked_add(xb) {
            Some(m) => {
                if -MANTISSA_LIMIT < m && m < MANTISSA_LIMIT {
                    Some(Amount { mantissa: m, scale: s })
                } else {
                    None
                }
            },
            None => None,
        }
    }

    /// The exact difference, or `None` where its mantissa at the common
    /// scale would reach the limit.
    pub fn checked_sub(self, other: Amount) -> (r: Option<Amount>)
        requires
            self.wf(),
            other.wf(),
        ensures
            r == self.spec_sub(other),
            r matches Some(v) ==> v.wf(),
    {
        self.checked_add(other.neg())
    }

    /// Whether the two amounts differ by less than one hundredth.
    pub fn within_tolerance(self, other: Amount) -> (r: bool)
        requires
            self.wf(),
            other.wf(),
        ensures
            r == self.close_to(other),
    {
        proof {
            lemma_difference_units(self, other);
            lemma_pow10_28();
        }
        let ghost s = self.common_scale(other) as nat;
        let ghost d = self.aligned(s) - other.aligned(s);
        let ghost rest = pow10((MAX_SCALE - s) as nat);
        proof {
            lemma_pow10_positive((MAX_SCALE - s) as nat);
            lemma_pow10_sum(s, (MAX_SCALE - s) as nat);
            lemma_magnitude_product(d, rest);
        }
        match self.checked_sub(other) {
            None => {
                proof {
                    lemma_pow10_monotonic(s, 28);
                    assert(magnitude(d) >= MANTISSA_LIMIT);
                    assert(magnitude(d) * rest >= MANTISSA_LIMIT) by (nonlinear_arith)
                        requires
                            magnitude(d) >= MANTISSA_LIMIT,
                            rest >= 1,
                    ;
                }
                false
            },
            Some(diff) => {
                let p: i128 = power_of_ten(diff.scale);
                let m: i128 = if diff.mantissa < 0 {
                    -diff.mantissa
                } else {
                    diff.mantissa
                };
                proof {
                    assert(diff.mantissa == d);
                    assert(m == magnitude(d));
                    let lhs = 100 * m;
                    let p_int = p as int;
                    assert((lhs < p_int) == (lhs * rest < p_int * rest)) by (nonlinear_arith)
                        requires
                            rest >= 1,
                    ;
                    assert(100 * (m * rest) == (100 * m) * rest) by (nonlinear_arith);
                }
                100 * m < p
            },
        }
    }

    /// Whether `|self| > |other|`.
    pub fn exceeds_in_magnitude(self, other: Amount) -> (r: bool)
        requires
            self.wf(),
            other.wf(),
        ensures
            r == self.outweighs(other),
    {
        let s: u32 = if self.scale >= other.scale {
            self.scale
        } else {
            other.scale
        };
        let a: i128 = if self.mantissa < 0 {
            -self.mantissa
        } else {
            self.mantissa
        };
        let b: i128 = if other.mantissa < 0 {
            -other.mantissa
        } else {
            other.mantissa
        };
        let pa: i128 = power_of_ten(s - self.scale);
        let pb: i128 = power_of_ten(s - other.scale);
        let ghost rest = pow10((MAX_SCALE - s) as nat);
        proof {
            reveal_with_fuel(pow10, 1);
            lemma_pow10_positive((MAX_SCALE - s) as nat);
            lemma_pow10_sum((s - self.scale) as nat, (MAX_SCALE - s) as nat);
            lemma_pow10_sum((s - other.scale) as nat, (MAX_SCALE - s) as nat);
            lemma_pow10_positive((MAX_SCALE - self.scale) as nat);
            lemma_pow10_positive((MAX_SCALE - other.scale) as nat);
            lemma_magnitude_product(
                self.mantissa as int,
                pow10((MAX_SCALE - self.scale) as nat),
            );
            lemma_magnitude_product(
                other.mantissa as int,
                pow10((MAX_SCALE - other.scale) as nat),
            );
            let pai = pa as int;
            let pbi = pb as int;
            let ai = a as int;
            let bi = b as int;
            assert(ai * (pai * rest) == (ai * pai) * rest) by (nonlinear_arith);
            assert(bi * (pbi * rest) == (bi * pbi) * rest) by (nonlinear_arith);
            assert((ai * pai > bi * pbi) == ((ai * pai) * rest > (bi * pbi) * rest))
                by (nonlinear_arith)
                requires
                    rest >= 1,
            ;
        }
        match a.checked_mul(pa) {
            None => {
                assert(pow10(0) == 1);
                assert(s != self.scale);
                assert(pb == 1);
                true
            },
            Some(xa) => match b.checked_mul(pb) {
                None => {
                    assert(pow10(0) == 1);
                    assert(s != other.scale);
                    assert(pa == 1);
                    false
                },
                Some(xb) => xa > xb,
            },
        }
    }

    /// The amount written with exactly two fractional digits; further digits
    /// are cut off, not rounded.
    pub fn to_fixed2(self) -> (r: String)
        requires
            self.wf(),
        ensures
            r@ == decimal_two_places(self.mantissa as int, self.scale as nat),
    {
        format_two_places(self.mantissa, self.scale)
    }

    /// Reads a decimal number such as `-12.34`.
    pub fn parse(s: &str) -> (r: Option<Amount>)
        ensures
            r == match decimal_parse(s@) {
                Some((m, sc)) => if (Amount { mantissa: m, scale: sc }).wf() {
                    Some(Amount { mantissa: m, scale: sc })
                } else {
                    None
                },
                None => None,
            },
            r matches Some(v) ==> v.wf(),
    {
        match parse_decimal(s) {
            Some((m, sc)) => Amount::new(m, sc),
            None => None,
        }
    }
}

/// `|x * p| == |x| * p` for a positive `p`.
pub proof fn lemma_magnitude_product(x: int, p: int)
    requires
        p >= 1,
    ensures
        magnitude(x * p) == magnitude(x) * p,
{
    assert(magnitude(x * p) == magnitude(x) * p) by (nonlinear_arith)
        requires
            p >= 1,
            magnitude(x) == if x < 0 {
                -x
            } else {
                x
            },
            magnitude(x * p) == if x * p < 0 {
                -(x * p)
            } else {
                x * p
            },
    ;
}

/// The mantissa of a sum at the common scale, brought to units, is the sum
/// of the units.
pub proof fn lemma_sum_units(a: Amount, b: Amount)
    requires
        a.wf(),
        b.wf(),
    ensures
        (a.aligned(a.common_scale(b) as nat) + b.aligned(a.common_scale(b) as nat)) * pow10(
            (MAX_SCALE - a.common_scale(b)) as nat,
        ) == a.units() + b.units(),
{
    let s = a.common_scale(b) as nat;
    let rest = pow10((MAX_SCALE - s) as nat);
    let pa = pow10((s - a.scale) as nat);
    let pb = pow10((s - b.scale) as nat);
    lemma_pow10_sum((s - a.scale) as nat, (MAX_SCALE - s) as nat);
    lemma_pow10_sum((s - b.scale) as nat, (MAX_SCALE - s) as nat);
    let ma = a.mantissa as int;
    let mb = b.mantissa as int;
    assert((ma * pa + mb * pb) * rest == ma * (pa * rest) + mb * (pb * rest))
        by (nonlinear_arith);
}

/// As [`lemma_sum_units`], for a difference.
pub proof fn lemma_difference_units(a: Amount, b: Amount)
    requires
        a.wf(),
        b.wf(),
    ensures
        (a.aligned(a.common_scale(b) as nat) - b.aligned(a.common_scale(b) as nat)) * pow10(
            (MAX_SCALE - a.common_scale(b)) as nat,
        ) == a.units() - b.units(),
        a.spec_sub(b) == (if -MANTISSA_LIMIT < a.aligned(a.common_scale(b) as nat) - b.aligned(
            a.common_scale(b) as nat,
        ) < MANTISSA_LIMIT {
            Some(
                Amount {
                    mantissa: (a.aligned(a.common_scale(b) as nat) - b.aligned(
                        a.common_scale(b) as nat,
                    )) as i128,
                    scale: a.common_scale(b),
                },
            )
        } else {
            None
        }),
{
    let n = b.spec_neg();
    let s = a.common_scale(b) as nat;
    lemma_sum_units(a, n);
    assert(n.aligned(s) == -b.aligned(s)) by (nonlinear_arith)
        requires
            n.aligned(s) == n.mantissa * pow10((s - b.scale) as nat),
            b.aligned(s) == b.mantissa * pow10((s - b.scale) as nat),
            n.mantissa == -b.mantissa,
    ;
    assert(n.units() == -b.units()) by (nonlinear_arith)
        requires
            n.units() == n.mantissa * pow10((MAX_SCALE - b.scale) as nat),
            b.units() == b.mantissa * pow10((MAX_SCALE - b.scale) as nat),
            n.mantissa == -b.mantissa,
    ;
}

/// An exact sum adds the units: where [`Amount::spec_add`] yields a value,
/// that value stands for the sum of the two numbers.
pub proof fn lemma_add_exact(a: Amount, b: Amount)
    requires
        a.wf(),
        b.wf(),
    ensures
        a.spec_add(b) matches Some(v) ==> v.wf() && v.units() == a.units() + b.units(),
{
    lemma_sum_units(a, b);
}

/// An exact difference subtracts the units.
pub proof fn lemma_sub_exact(a: Amount, b: Amount)
    requires
        a.wf(),
        b.wf(),
    ensures
        a.spec_sub(b) matches Some(v) ==> v.wf() && v.units() == a.units() - b.units(),
{
    lemma_difference_units(a, b);
}

/// Every amount is close to itself, and closeness is symmetric.
pub proof fn lemma_close_reflexive_symmetric(a: Amount, b: Amount)
    ensures
        a.close_to(a),
        a.close_to(b) == b.close_to(a),
{
    lemma_pow10_positive(MAX_SCALE as nat);
}

/// Formats a decimal number with two fractional digits: builds the
/// `rust_decimal::Decimal` with the given mantissa and scale and writes it
/// with the precision `.2`. `rust_decimal` writes a minus sign for a
/// negative number, the digits of the whole part (a single `0` where there
/// is none), a point, and the next two digits, with `0` where the number
/// has no such digit; it drops the digits that follow. That is what
/// [`decimal_two_places`] states.
#[verifier::external_body]
fn format_two_places(mantissa: i128, scale: u32) -> (r: String)
    requires
        scale <= MAX_SCALE,
        -MANTISSA_LIMIT < mantissa < MANTISSA_LIMIT,
    ensures
        r@ == decimal_two_places(mantissa as int, scale as nat),
{
    format!("{:.2}", rust_decimal::Decimal::from_i128_with_scale(mantissa, scale))
}

/// Reads a decimal number with `rust_decimal`'s `FromStr` and hands out its
/// mantissa and scale. The result is named by [`decimal_parse`].
#[verifier::external_body]
fn parse_decimal(s: &str) -> (r: Option<(i128, u32)>)
    ensures
        r == decimal_parse(s@),
{
    match s.parse::<rust_decimal::Decimal>() {
        Ok(d) => Some((d.mantissa(), d.scale())),
        Err(_) => None,
    }
}

} // verus!
