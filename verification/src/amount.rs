//! Exact decimal amounts.
//!
//! An amount is an integer mantissa together with a count of decimal places;
//! it stands for `mantissa / 10^scale`. Sums and differences are exact or
//! not given at all; the one operation that rounds is
//! [`DecimalAmount::checked_mul_round`], which says how.

use std::fmt::Write;
use vstd::arithmetic::power::{lemma_pow_adds, lemma_pow_positive, pow};
use vstd::prelude::*;

verus! {

/// The quotient `num / denom` as `rust_decimal` computes it with
/// `Decimal::checked_div` on the two whole numbers: mantissa and scale of the
/// result; `None` where it reports none.
pub uninterp spec fn decimal_quotient(num: i64, denom: i64) -> Option<(i128, u32)>;

/// Mantissa and scale of the number that `rust_decimal`'s
/// `Decimal::from_scientific` reads from `text`; `None` where it reports an error.
pub uninterp spec fn scientific_decimal(text: Seq<char>) -> Option<(i128, u32)>;

/// The text that `rust_decimal` displays for the decimal with the given
/// mantissa and scale; `None` where it cannot hold such a decimal.
pub uninterp spec fn decimal_text(mantissa: i128, scale: u32) -> Option<Seq<char>>;

/// Divides with `rust_decimal::Decimal::checked_div` and hands back mantissa
/// and scale of the quotient. Trusted: that the quotient depends on the two
/// numbers alone, and that there is none for a zero divisor.
#[verifier::external_body]
fn decimal_checked_div(num: i64, denom: i64) -> (r: Option<DecimalAmount>)
    ensures
        match r {
            Some(q) => decimal_quotient(num, denom) == Some((q.mantissa, q.scale)),
            None => decimal_quotient(num, denom) is None,
        },
        denom == 0 ==> r is None,
{
    match rust_decimal::Decimal::from(num).checked_div(rust_decimal::Decimal::from(denom)) {
        Some(q) => Some(DecimalAmount { mantissa: q.mantissa(), scale: q.scale() }),
        None => None,
    }
}

/// Reads a number in scientific notation with
/// `rust_decimal::Decimal::from_scientific`. Trusted: that what is read
/// depends on the text alone.
#[verifier::external_body]
fn decimal_from_scientific(text: &str) -> (r: Option<DecimalAmount>)
    ensures
        match r {
            Some(d) => scientific_decimal(text@) == Some((d.mantissa, d.scale)),
            None => scientific_decimal(text@) is None,
        },
{
    match rust_decimal::Decimal::from_scientific(text) {
        Ok(d) => Some(DecimalAmount { mantissa: d.mantissa(), scale: d.scale() }),
        Err(_) => None,
    }
}

/// Writes a decimal as `rust_decimal` displays it, after
/// `Decimal::try_from_i128_with_scale` has taken mantissa and scale. Trusted:
/// that the text depends on the two numbers alone.
#[verifier::external_body]
fn decimal_to_text(amount: &DecimalAmount) -> (r: Option<String>)
    ensures
        match r {
            Some(s) => decimal_text(amount.mantissa, amount.scale) == Some(s@),
            None => decimal_text(amount.mantissa, amount.scale) is None,
        },
{
    let d = rust_decimal::Decimal::try_from_i128_with_scale(amount.mantissa, amount.scale).ok()?;
    let mut out = String::new();
    match write!(out, "{}", d) {
        Ok(()) => Some(out),
        Err(_) => None,
    }
}

/// Ten to the power `e`.
pub open spec fn pow10(e: nat) -> int {
    pow(10, e)
}

/// `pow10` is positive and grows by a factor of ten per step.
pub proof fn lemma_pow10_step(e: nat)
    ensures
        pow10(0) == 1,
        pow10(e) > 0,
        pow10(e + 1) == 10 * pow10(e),
{
    reveal(pow);
    lemma_pow_positive(10, e);
}

/// `pow10` turns sums of exponents into products.
pub proof fn lemma_pow10_adds(a: nat, b: nat)
    ensures
        pow10(a + b) == pow10(a) * pow10(b),
        pow10(a) > 0,
        pow10(b) > 0,
{
    lemma_pow_adds(10, a, b);
    lemma_pow_positive(10, a);
    lemma_pow_positive(10, b);
}

/// A signed decimal number: `mantissa / 10^scale`.
///
/// The derived `==` compares the two fields; two amounts of the same value
/// with different scales are told apart by it. Use [`DecimalAmount::is_equal`]
/// to compare values.
#[derive(Clone, Copy, Debug, PartialEq, Eq, Structural)]
pub struct DecimalAmount {
    pub mantissa: i128,
    pub scale: u32,
}

impl DecimalAmount {
    /// The amount in units of `10^-places`; meaningful for `places >= scale`.
    pub open spec fn scaled(self, places: nat) -> int
        recommends
            places >= self.scale,
    {
        self.mantissa * pow10((places - self.scale) as nat)
    }

    /// Whether the two amounts stand for the same number.
    pub open spec fn same_value(self, other: DecimalAmount) -> bool {
        self.mantissa * pow10(other.scale as nat) == other.mantissa * pow10(self.scale as nat)
    }

    /// Whether the amount, brought to `places` decimal places, still fits the mantissa.
    pub open spec fn fits_at(self, places: nat) -> bool {
        places >= self.scale && i128::MIN <= self.scaled(places) <= i128::MAX
    }

    pub open spec fn spec_from_ratio(num: i64, denom: i64) -> Option<DecimalAmount> {
        match decimal_quotient(num, denom) {
            Some((mantissa, scale)) => Some(DecimalAmount { mantissa, scale }),
            None => None,
        }
    }

    pub open spec fn spec_from_scientific(text: Seq<char>) -> Option<DecimalAmount> {
        match scientific_decimal(text) {
            Some((mantissa, scale)) => Some(DecimalAmount { mantissa, scale }),
            None => None,
        }
    }

    /// The decimal for the fraction `num / denom` of two whole numbers.
    /// There is none for a zero denominator.
    pub fn from_ratio(num: i64, denom: i64) -> (r: Option<DecimalAmount>)
        ensures
            r == DecimalAmount::spec_from_ratio(num, denom),
            denom == 0 ==> r is None,
    {
        decimal_checked_div(num, denom)
    }

    /// The decimal written in `text` in scientific notation, such as `4.25e1`.
    pub fn from_scientific(text: &str) -> (r: Option<DecimalAmount>)
        ensures
            r == DecimalAmount::spec_from_scientific(text@),
    {
        decimal_from_scientific(text)
    }

    /// The amount as text; `None` for an amount that `rust_decimal` cannot hold.
    pub fn to_text(&self) -> (r: Option<String>)
        ensures
            match r {
                Some(s) => decimal_text(self.mantissa, self.scale) == Some(s@),
                None => decimal_text(self.mantissa, self.scale) is None,
            },
    {
        decimal_to_text(self)
    }

    /// The whole number `n`.
    pub fn from_i64(n: i64) -> (r: DecimalAmount)
        ensures
            r.mantissa == n,
            r.scale == 0,
    {
        DecimalAmount { mantissa: n as i128, scale: 0 }
    }

    pub fn is_zero(&self) -> (r: bool)
        ensures
            r == (self.mantissa == 0),
    {
        self.mantissa == 0
    }

    pub fn is_sign_negative(&self) -> (r: bool)
        ensures
            r == (self.mantissa < 0),
    {
        self.mantissa < 0
    }

    pub fn is_sign_positive(&self) -> (r: bool)
        ensures
            r == (self.mantissa >= 0),
    {
        self.mantissa >= 0
    }

    /// The mantissa at `places` decimal places, where there is one: `places`
    /// is no less than the scale and the widened mantissa fits.
    pub fn rescaled(&self, places: u32) -> (r: Option<i128>)
        ensures
            r is Some <==> self.fits_at(places as nat),
            r matches Some(m) ==> m == self.scaled(places as nat),
    {
        if places < self.scale {
            return None;
        }
        let steps: u32 = places - self.scale;
        if self.mantissa == 0 {
            assert(self.scaled(places as nat) == 0) by (nonlinear_arith)
                requires
                    self.mantissa == 0,
                    self.scaled(places as nat) == self.mantissa * pow10(
                        (places - self.scale) as nat,
                    ),
            ;
            return Some(0);
        }
        let mut m: i128 = self.mantissa;
        let mut done: u32 = 0;
        proof {
            lemma_pow10_step(0);
        }
        while done < steps
            invariant
                done <= steps,
                steps == places - self.scale,
                self.mantissa != 0,
                m == self.mantissa * pow10(done as nat),
            decreases steps - done,
        {
            proof {
                lemma_pow10_step(done as nat);
                assert(self.mantissa * (10 * pow10(done as nat)) == 10 * (self.mantissa * pow10(
                    done as nat,
                ))) by (nonlinear_arith);
            }
            match m.checked_mul(10) {
                Some(next) => {
                    m = next;
                    done = done + 1;
                },
                None => {
                    proof {
                        lemma_grows_out_of_range(
                            self.mantissa as int,
                            (done + 1) as nat,
                            (steps - done - 1) as nat,
                        );
                    }
                    return None;
                },
            }
        }
        Some(m)
    }


    /// The amount with the opposite sign.
    pub open spec fn negated(self) -> DecimalAmount {
        DecimalAmount { mantissa: (-self.mantissa) as i128, scale: self.scale }
    }

    /// The amount with the opposite sign; `None` where the mantissa has no opposite.
    pub fn checked_neg(&self) -> (r: Option<DecimalAmount>)
        ensures
            r is Some <==> self.mantissa != i128::MIN,
            r matches Some(n) ==> n == self.negated() && n.mantissa == -self.mantissa,
    {
        if self.mantissa == i128::MIN {
            None
        } else {
            Some(DecimalAmount { mantissa: -self.mantissa, scale: self.scale })
        }
    }

    /// The larger of the two scales.
    pub open spec fn common_scale(self, other: DecimalAmount) -> u32 {
        if self.scale >= other.scale {
            self.scale
        } else {
            other.scale
        }
    }

    /// Whether `self - other` can be held at the larger of the two scales.
    pub open spec fn difference_fits(self, other: DecimalAmount) -> bool {
        let places = self.common_scale(other) as nat;
        &&& self.fits_at(places)
        &&& other.fits_at(places)
        &&& i128::MIN <= self.scaled(places) - other.scaled(places) <= i128::MAX
    }

    /// `self - other`, exactly, at the larger of the two scales.
    pub open spec fn difference(self, other: DecimalAmount) -> DecimalAmount {
        let places = self.common_scale(other);
        DecimalAmount {
            mantissa: (self.scaled(places as nat) - other.scaled(places as nat)) as i128,
            scale: places,
        }
    }

    /// Whether `self + other` can be held at the larger of the two scales.
    pub open spec fn sum_fits(self, other: DecimalAmount) -> bool {
        let places = self.common_scale(other) as nat;
        &&& self.fits_at(places)
        &&& other.fits_at(places)
        &&& i128::MIN <= self.scaled(places) + other.scaled(places) <= i128::MAX
    }

    /// `self + other`, exactly, at the larger of the two scales.
    pub open spec fn sum(self, other: DecimalAmount) -> DecimalAmount {
        let places = self.common_scale(other);
        DecimalAmount {
            mantissa: (self.scaled(places as nat) + other.scaled(places as nat)) as i128,
            scale: places,
        }
    }

    /// The exact sum of the two amounts, at the larger of their scales;
    /// `None` where it does not fit.
    pub fn checked_add(&self, other: &DecimalAmount) -> (r: Option<DecimalAmount>)
        ensures
            r is Some <==> self.sum_fits(*other),
            r matches Some(d) ==> d == self.sum(*other),
    {
        let places = if self.scale >= other.scale {
            self.scale
        } else {
            other.scale
        };
        let left = match self.rescaled(places) {
            Some(m) => m,
            None => {
                return None;
            },
        };
        let right = match other.rescaled(places) {
            Some(m) => m,
            None => {
                return None;
            },
        };
        match left.checked_add(right) {
            Some(m) => Some(DecimalAmount { mantissa: m, scale: places }),
            None => None,
        }
    }

    /// The exact difference of the two amounts, at the larger of their
    /// scales; `None` where it does not fit.
    pub fn checked_sub(&self, other: &DecimalAmount) -> (r: Option<DecimalAmount>)
        ensures
            r is Some <==> self.difference_fits(*other),
            r matches Some(d) ==> d == self.difference(*other),
    {
        let places = if self.scale >= other.scale {
            self.scale
        } else {
            other.scale
        };
        let left = match self.rescaled(places) {
            Some(m) => m,
            None => {
                return None;
            },
        };
        let right = match other.rescaled(places) {
            Some(m) => m,
            None => {
                return None;
            },
        };
        match left.checked_sub(right) {
            Some(m) => Some(DecimalAmount { mantissa: m, scale: places }),
            None => None,
        }
    }

    /// `self * factor`, rounded to the nearest whole number, a half to the
    /// even neighbour.
    pub open spec fn times_rounded(self, factor: int) -> int {
        round_half_even(self.mantissa * factor, pow10(self.scale as nat))
    }

    /// `self * factor` as a whole number, rounded to the nearest and a half
    /// to the even neighbour; `None` where the product of mantissa and
    /// factor leaves `i128` or the rounded number leaves `i64`.
    pub fn checked_mul_round(&self, factor: i32) -> (r: Option<i64>)
        ensures
            r is Some <==> (i128::MIN <= self.mantissa * factor <= i128::MAX && i64::MIN
                <= self.times_rounded(factor as int) <= i64::MAX),
            r matches Some(v) ==> v == self.times_rounded(factor as int),
    {
        let product: i128 = match self.mantissa.checked_mul(factor as i128) {
            Some(p) => p,
            None => {
                return None;
            },
        };
        if self.scale > 38 {
            proof {
                lemma_pow10_38();
                lemma_pow10_increases(39, self.scale as nat);
                lemma_round_small(product as int, pow10(self.scale as nat));
            }
            return Some(0);
        }
        let mut divisor: i128 = 1;
        let mut i: u32 = 0;
        proof {
            lemma_pow10_step(0);
        }
        while i < self.scale
            invariant
                i <= self.scale <= 38,
                divisor == pow10(i as nat),
            decreases self.scale - i,
        {
            proof {
                lemma_pow10_step(i as nat);
                lemma_pow10_increases((i + 1) as nat, 38);
                lemma_pow10_38();
            }
            divisor = divisor * 10;
            i = i + 1;
        }
        proof {
            lemma_pow10_increases(self.scale as nat, 38);
            lemma_pow10_38();
            lemma_quotient_within(product as int, divisor as int);
        }
        let quotient: i128 = match product.checked_div_euclid(divisor) {
            Some(q) => q,
            None => {
                return None;
            },
        };
        let rest: i128 = match product.checked_rem_euclid(divisor) {
            Some(m) => m,
            None => {
                return None;
            },
        };
        let odd = match quotient.checked_rem_euclid(2) {
            Some(m) => m != 0,
            None => {
                return None;
            },
        };
        let up = rest > divisor - rest || (rest == divisor - rest && odd);
        let rounded: i128 = if up {
            quotient + 1
        } else {
            quotient
        };
        assert(rounded == self.times_rounded(factor as int));
        if rounded < i64::MIN as i128 || rounded > i64::MAX as i128 {
            None
        } else {
            Some(rounded as i64)
        }
    }

    /// Exact comparison of two amounts by value: `10.00` equals `10`, and
    /// `10.001` does not.
    pub fn is_equal(&self, other: &DecimalAmount) -> (r: bool)
        ensures
            r == self.same_value(*other),
    {
        if self.scale <= other.scale {
            let widened = self.rescaled(other.scale);
            proof {
                lemma_same_value_by_rescaling(*self, *other);
            }
            match widened {
                Some(m) => m == other.mantissa,
                None => false,
            }
        } else {
            let widened = other.rescaled(self.scale);
            proof {
                lemma_same_value_by_rescaling(*other, *self);
            }
            match widened {
                Some(m) => m == self.mantissa,
                None => false,
            }
        }
    }
}

/// `numerator / divisor` rounded to the nearest whole number, a half to the
/// even neighbour. The divisor is positive.
pub open spec fn round_half_even(numerator: int, divisor: int) -> int
    recommends
        divisor > 0,
{
    let quotient = numerator / divisor;
    let rest = numerator % divisor;
    if 2 * rest < divisor {
        quotient
    } else if 2 * rest > divisor {
        quotient + 1
    } else if quotient % 2 == 0 {
        quotient
    } else {
        quotient + 1
    }
}

/// The powers of ten grow with the exponent.
pub proof fn lemma_pow10_increases(a: nat, b: nat)
    requires
        a <= b,
    ensures
        0 < pow10(a) <= pow10(b),
{
    lemma_pow10_adds(a, (b - a) as nat);
    let x = pow10(a);
    let y = pow10((b - a) as nat);
    assert(x * y >= x) by (nonlinear_arith)
        requires
            x > 0,
            y >= 1,
    ;
}

/// Ten to the power 38, the largest power of ten within `i128`.
pub proof fn lemma_pow10_38()
    ensures
        pow10(38) == 100000000000000000000000000000000000000,
        pow10(39) == 1000000000000000000000000000000000000000,
{
    lemma_pow10_step(0);
    assert(pow10(1) == 10) by {
        lemma_pow10_step(0);
    }
    assert(pow10(2) == 100) by {
        lemma_pow10_step(1);
    }
    assert(pow10(3) == 1000) by {
        lemma_pow10_step(2);
    }
    assert(pow10(4) == 10000) by {
        lemma_pow10_step(3);
    }
    assert(pow10(5) == 100000) by {
        lemma_pow10_step(4);
    }
    assert(pow10(6) == 1000000) by {
        lemma_pow10_step(5);
    }
    assert(pow10(7) == 10000000) by {
        lemma_pow10_step(6);
    }
    assert(pow10(8) == 100000000) by {
        lemma_pow10_step(7);
    }
    assert(pow10(9) == 1000000000) by {
        lemma_pow10_step(8);
    }
    assert(pow10(10) == 10000000000) by {
        lemma_pow10_step(9);
    }
    assert(pow10(11) == 100000000000) by {
        lemma_pow10_step(10);
    }
    assert(pow10(12) == 1000000000000) by {
        lemma_pow10_step(11);
    }
    assert(pow10(13) == 10000000000000) by {
        lemma_pow10_step(12);
    }
    assert(pow10(14) == 100000000000000) by {
        lemma_pow10_step(13);
    }
    assert(pow10(15) == 1000000000000000) by {
        lemma_pow10_step(14);
    }
    assert(pow10(16) == 10000000000000000) by {
        lemma_pow10_step(15);
    }
    assert(pow10(17) == 100000000000000000) by {
        lemma_pow10_step(16);
    }
    assert(pow10(18) == 1000000000000000000) by {
        lemma_pow10_step(17);
    }
    assert(pow10(19) == 10000000000000000000) by {
        lemma_pow10_step(18);
    }
    assert(pow10(20) == 100000000000000000000) by {
        lemma_pow10_step(19);
    }
    assert(pow10(21) == 1000000000000000000000) by {
        lemma_pow10_step(20);
    }
    assert(pow10(22) == 10000000000000000000000) by {
        lemma_pow10_step(21);
    }
    assert(pow10(23) == 100000000000000000000000) by {
        lemma_pow10_step(22);
    }
    assert(pow10(24) == 1000000000000000000000000) by {
        lemma_pow10_step(23);
    }
    assert(pow10(25) == 10000000000000000000000000) by {
        lemma_pow10_step(24);
    }
    assert(pow10(26) == 100000000000000000000000000) by {
        lemma_pow10_step(25);
    }
    assert(pow10(27) == 1000000000000000000000000000) by {
        lemma_pow10_step(26);
    }
    assert(pow10(28) == 10000000000000000000000000000) by {
        lemma_pow10_step(27);
    }
    assert(pow10(29) == 100000000000000000000000000000) by {
        lemma_pow10_step(28);
    }
    assert(pow10(30) == 1000000000000000000000000000000) by {
        lemma_pow10_step(29);
    }
    assert(pow10(31) == 10000000000000000000000000000000) by {
        lemma_pow10_step(30);
    }
    assert(pow10(32) == 100000000000000000000000000000000) by {
        lemma_pow10_step(31);
    }
    assert(pow10(33) == 1000000000000000000000000000000000) by {
        lemma_pow10_step(32);
    }
    assert(pow10(34) == 10000000000000000000000000000000000) by {
        lemma_pow10_step(33);
    }
    assert(pow10(35) == 100000000000000000000000000000000000) by {
        lemma_pow10_step(34);
    }
    assert(pow10(36) == 1000000000000000000000000000000000000) by {
        lemma_pow10_step(35);
    }
    assert(pow10(37) == 10000000000000000000000000000000000000) by {
        lemma_pow10_step(36);
    }
    assert(pow10(38) == 100000000000000000000000000000000000000) by {
        lemma_pow10_step(37);
    }
    lemma_pow10_step(38);
}

/// A multiple of the divisor is not rounded.
pub proof fn lemma_round_exact(quotient: int, divisor: int)
    requires
        divisor > 0,
    ensures
        round_half_even(quotient * divisor, divisor) == quotient,
{
    vstd::arithmetic::div_mod::lemma_fundamental_div_mod_converse(
        quotient * divisor,
        divisor,
        quotient,
        0,
    );
}

/// Rounding does not depend on the sign: the opposite number is rounded
/// to the opposite.
pub proof fn lemma_round_negated(numerator: int, divisor: int)
    requires
        divisor > 0,
    ensures
        round_half_even(-numerator, divisor) == -round_half_even(numerator, divisor),
{
    vstd::arithmetic::div_mod::lemma_fundamental_div_mod(numerator, divisor);
    vstd::arithmetic::div_mod::lemma_mod_bound(numerator, divisor);
    let q = numerator / divisor;
    let r = numerator % divisor;
    assert(numerator == divisor * q + r);
    if r == 0 {
        assert(-numerator == (-q) * divisor) by (nonlinear_arith)
            requires
                numerator == divisor * q,
        ;
        vstd::arithmetic::div_mod::lemma_fundamental_div_mod_converse(
            -numerator,
            divisor,
            -q,
            0,
        );
    } else {
        assert(-numerator == (-q - 1) * divisor + (divisor - r)) by (nonlinear_arith)
            requires
                numerator == divisor * q + r,
        ;
        vstd::arithmetic::div_mod::lemma_fundamental_div_mod_converse(
            -numerator,
            divisor,
            -q - 1,
            divisor - r,
        );
        assert((-q - 1) % 2 == 0 <==> q % 2 != 0);
    }
}

/// Rounding depends on the fraction alone: numerator and divisor may both
/// be multiplied by a positive number.
pub proof fn lemma_round_scaled(numerator: int, divisor: int, factor: int)
    requires
        divisor > 0,
        factor > 0,
    ensures
        divisor * factor > 0,
        round_half_even(numerator * factor, divisor * factor) == round_half_even(
            numerator,
            divisor,
        ),
{
    vstd::arithmetic::div_mod::lemma_fundamental_div_mod(numerator, divisor);
    vstd::arithmetic::div_mod::lemma_mod_bound(numerator, divisor);
    let q = numerator / divisor;
    let r = numerator % divisor;
    assert(divisor * factor > 0) by (nonlinear_arith)
        requires
            divisor > 0,
            factor > 0,
    ;
    assert(numerator * factor == q * (divisor * factor) + r * factor) by (nonlinear_arith)
        requires
            numerator == divisor * q + r,
    ;
    assert(0 <= r * factor < divisor * factor) by (nonlinear_arith)
        requires
            0 <= r < divisor,
            factor > 0,
    ;
    vstd::arithmetic::div_mod::lemma_fundamental_div_mod_converse(
        numerator * factor,
        divisor * factor,
        q,
        r * factor,
    );
    assert((2 * (r * factor) < divisor * factor) == (2 * r < divisor)) by (nonlinear_arith)
        requires
            factor > 0,
    ;
    assert((2 * (r * factor) > divisor * factor) == (2 * r > divisor)) by (nonlinear_arith)
        requires
            factor > 0,
    ;
}

/// A number of less than half the divisor in size is rounded to zero.
proof fn lemma_round_small(numerator: int, divisor: int)
    requires
        -0x8000_0000_0000_0000_0000_0000_0000_0000 <= numerator
            <= 0x7fff_ffff_ffff_ffff_ffff_ffff_ffff_ffff,
        divisor >= 1000000000000000000000000000000000000000,
    ensures
        round_half_even(numerator, divisor) == 0,
{
    if numerator >= 0 {
        vstd::arithmetic::div_mod::lemma_fundamental_div_mod_converse(
            numerator,
            divisor,
            0,
            numerator,
        );
    } else {
        vstd::arithmetic::div_mod::lemma_fundamental_div_mod_converse(
            numerator,
            divisor,
            -1,
            divisor + numerator,
        );
    }
}

/// The quotient by a positive divisor is no larger in size than the
/// numerator, the rest is less than the divisor, and rounding up stays in range.
proof fn lemma_quotient_within(numerator: int, divisor: int)
    requires
        divisor >= 1,
        i128::MIN <= numerator <= i128::MAX,
    ensures
        i128::MIN <= numerator / divisor <= i128::MAX,
        0 <= numerator % divisor < divisor,
        numerator == divisor * (numerator / divisor) + numerator % divisor,
        numerator % divisor > 0 ==> numerator / divisor + 1 <= i128::MAX,
        0 <= (numerator / divisor) % 2 < 2,
{
    vstd::arithmetic::div_mod::lemma_fundamental_div_mod(numerator, divisor);
    vstd::arithmetic::div_mod::lemma_mod_bound(numerator, divisor);
    let q = numerator / divisor;
    let r = numerator % divisor;
    assert(numerator == divisor * q + r);
    if q > numerator && numerator >= 0 {
        assert(divisor * q >= q) by (nonlinear_arith)
            requires
                divisor >= 1,
                q >= 0,
        ;
    }
    if q < numerator && numerator < 0 {
        assert(divisor * q <= divisor * (numerator - 1)) by (nonlinear_arith)
            requires
                divisor >= 1,
                q <= numerator - 1,
        ;
        assert(divisor * numerator <= numerator) by (nonlinear_arith)
            requires
                divisor >= 1,
                numerator < 0,
        ;
        assert(divisor * (numerator - 1) == divisor * numerator - divisor) by (nonlinear_arith);
        assert(false);
    }
    if q < numerator && numerator >= 0 {
        if q < 0 {
            assert(divisor * q <= -divisor) by (nonlinear_arith)
                requires
                    divisor >= 1,
                    q <= -1,
            ;
        }
    }
    if q > numerator && numerator < 0 {
        if q > 0 {
            assert(divisor * q >= divisor) by (nonlinear_arith)
                requires
                    divisor >= 1,
                    q >= 1,
            ;
        }
    }
    if r > 0 && q >= i128::MAX {
        assert(divisor >= 2);
        assert(divisor * q >= 2 * q) by (nonlinear_arith)
            requires
                divisor >= 2,
                q >= 0,
        ;
    }
    vstd::arithmetic::div_mod::lemma_mod_bound(q, 2);
}

/// Once `m * 10^e` has left the range of `i128`, so has `m * 10^(e + more)`.
proof fn lemma_grows_out_of_range(m: int, e: nat, more: nat)
    requires
        m * pow10(e) > i128::MAX || m * pow10(e) < i128::MIN,
    ensures
        m * pow10(e + more) > i128::MAX || m * pow10(e + more) < i128::MIN,
{
    lemma_pow10_adds(e, more);
    let p = pow10(e);
    let q = pow10(more);
    assert(m * (p * q) == (m * p) * q) by (nonlinear_arith);
    if m * p > i128::MAX {
        assert((m * p) * q >= m * p) by (nonlinear_arith)
            requires
                m * p > 0,
                q >= 1,
        ;
    } else {
        assert((m * p) * q <= m * p) by (nonlinear_arith)
            requires
                m * p < 0,
                q >= 1,
        ;
    }
}

/// Two amounts have the same value exactly when the one with fewer decimal
/// places, brought to the other's places, has the other's mantissa.
pub proof fn lemma_same_value_by_rescaling(low: DecimalAmount, high: DecimalAmount)
    requires
        low.scale <= high.scale,
    ensures
        low.same_value(high) == (low.scaled(high.scale as nat) == high.mantissa),
        high.same_value(low) == (low.scaled(high.scale as nat) == high.mantissa),
{
    let d = (high.scale - low.scale) as nat;
    lemma_pow10_adds(low.scale as nat, d);
    let pl = pow10(low.scale as nat);
    let pd = pow10(d);
    assert(pow10(high.scale as nat) == pl * pd);
    assert(low.mantissa * (pl * pd) == (low.mantissa * pd) * pl) by (nonlinear_arith);
    if low.mantissa * pd == high.mantissa {
    } else {
        assert((low.mantissa * pd) * pl != high.mantissa * pl) by (nonlinear_arith)
            requires
                low.mantissa * pd != high.mantissa,
                pl > 0,
        ;
    }
}

} // verus!
