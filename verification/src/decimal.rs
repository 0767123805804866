//! Exact decimal numbers.
//!
//! A [`Decimal`] is a 96-bit mantissa and the number of its digits that stand
//! behind the decimal point. The arithmetic is that of the `rust_decimal`
//! crate; no floating-point number appears anywhere.
use vstd::prelude::*;
use vstd::std_specs::cmp::PartialEqSpecImpl;

use crate::text::{dec, digit, Text};

verus! {

/// The largest mantissa, `2^96 - 1`.
pub const MAX_MANTISSA: i128 = 79_228_162_514_264_337_593_543_950_335;

/// The largest number of digits behind the decimal point.
pub const MAX_SCALE: u32 = 28;

/// A decimal number: `mantissa / 10^scale`.
#[derive(Debug, Clone, Copy, Eq)]
pub struct Decimal {
    mantissa: i128,
    scale: u32,
}

/// A mantissa and a scale within the limits.
pub open spec fn representable(parts: (i128, u32)) -> bool {
    -MAX_MANTISSA <= parts.0 <= MAX_MANTISSA && parts.1 <= MAX_SCALE
}

impl View for Decimal {
    type V = (i128, u32);

    closed spec fn view(&self) -> (i128, u32) {
        (self.mantissa, self.scale)
    }
}

/// `10^n`.
pub open spec fn pow10(n: nat) -> nat
    decreases n,
{
    if n == 0 {
        1
    } else {
        10 * pow10((n - 1) as nat)
    }
}

/// Two decimals stand for the same number, however many zeros they end in.
pub open spec fn same_number(a: (i128, u32), b: (i128, u32)) -> bool {
    a.0 * pow10(b.1 as nat) == b.0 * pow10(a.1 as nat)
}

/// A decimal stands for `n / 10^scale`, with at most that many digits behind the
/// point.
pub open spec fn is_exactly(d: (i128, u32), n: int, scale: nat) -> bool {
    d.1 <= scale && d.0 * pow10((scale - d.1) as nat) == n
}

/// The larger of two scales.
pub open spec fn larger_scale(a: (i128, u32), b: (i128, u32)) -> u32 {
    if a.1 >= b.1 {
        a.1
    } else {
        b.1
    }
}

/// The sum of two mantissas, both brought to the larger scale.
pub open spec fn aligned_sum(a: (i128, u32), b: (i128, u32)) -> int {
    let s = larger_scale(a, b);
    a.0 * pow10((s - a.1) as nat) + b.0 * pow10((s - b.1) as nat)
}

/// What `rust_decimal` gives for a product, as a mantissa and a scale; `None`
/// where it does not fit.
pub uninterp spec fn decimal_product(a: (i128, u32), b: (i128, u32)) -> Option<(i128, u32)>;

/// What `rust_decimal` gives for a quotient, as a mantissa and a scale; `None`
/// where the divisor is zero or the quotient does not fit.
pub uninterp spec fn decimal_quotient(a: (i128, u32), b: (i128, u32)) -> Option<(i128, u32)>;

/// What `rust_decimal` gives for a sum, as a mantissa and a scale; `None` where
/// it does not fit.
pub uninterp spec fn decimal_sum(a: (i128, u32), b: (i128, u32)) -> Option<(i128, u32)>;

/// What `rust_decimal` reads from a text, as a mantissa and a scale; `None`
/// where the text is no number or one that does not fit.
pub uninterp spec fn decimal_read(text: Text) -> Option<(i128, u32)>;

/// The parts of an optional decimal.
pub open spec fn opt_parts(d: Option<Decimal>) -> Option<(i128, u32)> {
    match d {
        Some(d) => Some(d@),
        None => None,
    }
}

/// `n` in decimal, padded with zeros on the left to `width` digits.
pub open spec fn padded(n: nat, width: nat) -> Text
    decreases width,
{
    if width == 0 {
        Seq::empty()
    } else {
        padded(n / 10, (width - 1) as nat).push(digit(n % 10))
    }
}

/// A decimal number written out: every digit behind the point is kept.
pub open spec fn decimal_text(parts: (i128, u32)) -> Text {
    let magnitude: nat = if parts.0 < 0 {
        (-parts.0) as nat
    } else {
        parts.0 as nat
    };
    let sign: Text = if parts.0 < 0 {
        "-"@
    } else {
        Seq::empty()
    };
    let unit = pow10(parts.1 as nat);
    if parts.1 == 0 {
        sign + dec(magnitude)
    } else {
        sign + dec(magnitude / unit) + "."@ + padded(magnitude % unit, parts.1 as nat)
    }
}

/// `m / 10^s` rounded to the nearest whole number, a half going to the even
/// one.
pub open spec fn rounded(m: int, s: nat) -> int {
    let unit = pow10(s) as int;
    let below = m / unit;
    let over = m % unit;
    if 2 * over < unit || (2 * over == unit && below % 2 == 0) {
        below
    } else {
        below + 1
    }
}

/// A whole number as an `i64`, where it fits.
pub open spec fn fits_i64(n: int) -> Option<i64> {
    if i64::MIN <= n <= i64::MAX {
        Some(n as i64)
    } else {
        None
    }
}

impl Decimal {
    #[verifier::type_invariant]
    spec fn wf(&self) -> bool {
        representable(self@)
    }

    /// `num / 10^scale`.
    pub fn new(num: i64, scale: u32) -> (d: Decimal)
        requires
            scale <= MAX_SCALE,
        ensures
            d@ == (num as i128, scale),
    {
        Decimal { mantissa: num as i128, scale }
    }

    /// `num / 10^scale`, where the mantissa may take all of its 96 bits.
    pub fn from_i128_with_scale(num: i128, scale: u32) -> (d: Decimal)
        requires
            representable((num, scale)),
        ensures
            d@ == (num, scale),
    {
        Decimal { mantissa: num, scale }
    }

    /// Zero.
    pub fn zero() -> (d: Decimal)
        ensures
            d@ == (0i128, 0u32),
    {
        Decimal { mantissa: 0, scale: 0 }
    }

    /// A whole number.
    pub fn from_u64(n: u64) -> (d: Decimal)
        ensures
            d@ == (n as i128, 0u32),
    {
        Decimal { mantissa: n as i128, scale: 0 }
    }

    pub fn mantissa(&self) -> (m: i128)
        ensures
            m == self@.0,
            representable(self@),
    {
        proof {
            use_type_invariant(self);
        }
        self.mantissa
    }

    pub fn scale(&self) -> (s: u32)
        ensures
            s == self@.1,
            representable(self@),
    {
        proof {
            use_type_invariant(self);
        }
        self.scale
    }

    /// `rust_decimal::Decimal::checked_mul`. The result is named; where the
    /// product of the mantissas and the sum of the scales stay within the
    /// limits, they are the product's parts, and a product of zero is a plain
    /// zero.
    #[verifier::external_body]
    pub(crate) fn checked_mul(self, other: Decimal) -> (r: Option<Decimal>)
        ensures
            opt_parts(r) == decimal_product(self@, other@),
            -MAX_MANTISSA <= self@.0 * other@.0 <= MAX_MANTISSA && self@.1 + other@.1 <= MAX_SCALE
                ==> opt_parts(r) == Some(
                if self@.0 * other@.0 == 0 {
                    (0i128, 0u32)
                } else {
                    ((self@.0 * other@.0) as i128, (self@.1 + other@.1) as u32)
                },
            ),
    {
        let a = rust_decimal::Decimal::from_i128_with_scale(self.mantissa, self.scale);
        let b = rust_decimal::Decimal::from_i128_with_scale(other.mantissa, other.scale);
        a.checked_mul(b).map(|d| Decimal { mantissa: d.mantissa(), scale: d.scale() })
    }

    /// `rust_decimal::Decimal::checked_div`. The result is named; a number is
    /// divided by a million exactly, and with at most six more digits behind the
    /// point, where that many are allowed.
    #[verifier::external_body]
    pub(crate) fn checked_div(self, other: Decimal) -> (r: Option<Decimal>)
        ensures
            opt_parts(r) == decimal_quotient(self@, other@),
            other@ == (1_000_000i128, 0u32) && self@.1 + 6 <= MAX_SCALE ==> r.is_some()
                && is_exactly(r.unwrap()@, self@.0 as int, (self@.1 + 6) as nat),
    {
        let a = rust_decimal::Decimal::from_i128_with_scale(self.mantissa, self.scale);
        let b = rust_decimal::Decimal::from_i128_with_scale(other.mantissa, other.scale);
        a.checked_div(b).map(|d| Decimal { mantissa: d.mantissa(), scale: d.scale() })
    }

    /// `rust_decimal::Decimal::checked_add`. The result is named; two numbers
    /// of the same scale whose mantissas add up within the limits keep that
    /// scale and are added exactly, so are two positive numbers at the larger of
    /// their scales, and adding zero gives the other number.
    #[verifier::external_body]
    pub(crate) fn checked_add(self, other: Decimal) -> (r: Option<Decimal>)
        ensures
            opt_parts(r) == decimal_sum(self@, other@),
            self@.1 == other@.1 && -MAX_MANTISSA <= self@.0 + other@.0 <= MAX_MANTISSA
                ==> opt_parts(r) == Some(((self@.0 + other@.0) as i128, self@.1)),
            self@.0 > 0 && other@.0 > 0 && aligned_sum(self@, other@) <= MAX_MANTISSA
                ==> opt_parts(r) == Some(
                (aligned_sum(self@, other@) as i128, larger_scale(self@, other@)),
            ),
            self@.0 == 0 ==> opt_parts(r) == Some(other@),
            self@.0 != 0 && other@.0 == 0 ==> opt_parts(r) == Some(self@),
    {
        let a = rust_decimal::Decimal::from_i128_with_scale(self.mantissa, self.scale);
        let b = rust_decimal::Decimal::from_i128_with_scale(other.mantissa, other.scale);
        a.checked_add(b).map(|d| Decimal { mantissa: d.mantissa(), scale: d.scale() })
    }

    /// `rust_decimal::Decimal::normalize`: the same number without trailing
    /// zeros behind the decimal point.
    #[verifier::external_body]
    pub(crate) fn normalize(&self) -> (r: Decimal)
        ensures
            same_number(r@, self@),
            r@.1 <= self@.1,
            r@.0 == 0 ==> r@.1 == 0,
            r@.1 > 0 ==> r@.0 % 10 != 0,
    {
        let d = rust_decimal::Decimal::from_i128_with_scale(self.mantissa, self.scale).normalize();
        Decimal { mantissa: d.mantissa(), scale: d.scale() }
    }

    /// `rust_decimal::Decimal::round`: the nearest whole number, a half going
    /// to the even one.
    #[verifier::external_body]
    pub(crate) fn round(&self) -> (r: Decimal)
        ensures
            r@.0 == rounded(self@.0 as int, self@.1 as nat),
            r@.1 == 0,
    {
        let d = rust_decimal::Decimal::from_i128_with_scale(self.mantissa, self.scale).round();
        Decimal { mantissa: d.mantissa(), scale: d.scale() }
    }

    /// `rust_decimal::Decimal`'s text: the digits with a point before the last
    /// `scale` of them.
    #[verifier::external_body]
    fn render(&self) -> (s: String)
        ensures
            s@ == decimal_text(self@),
    {
        rust_decimal::Decimal::from_i128_with_scale(self.mantissa, self.scale).to_string()
    }

    /// `rust_decimal::Decimal`'s `from_str`. The result is named; a number that
    /// was written out is read back with the same mantissa and scale.
    #[verifier::external_body]
    fn read(text: &str) -> (r: Option<Decimal>)
        ensures
            opt_parts(r) == decimal_read(text@),
            forall|p: (i128, u32)|
                representable(p) && #[trigger] decimal_text(p) == text@ ==> opt_parts(r) == Some(p),
    {
        let d: rust_decimal::Decimal = text.parse().ok()?;
        Some(Decimal { mantissa: d.mantissa(), scale: d.scale() })
    }

    /// The number that a text stands for, where it is one. What [`Decimal::text`]
    /// writes is read back with the same mantissa and scale.
    pub fn from_text(text: &str) -> (r: Option<Decimal>)
        ensures
            opt_parts(r) == decimal_read(text@),
            forall|p: (i128, u32)|
                representable(p) && #[trigger] decimal_text(p) == text@ ==> opt_parts(r) == Some(p),
    {
        Decimal::read(text)
    }

    /// The number written out.
    pub fn text(&self) -> (s: String)
        ensures
            s@ == decimal_text(self@),
    {
        self.render()
    }

    /// A whole number as an `i64`, where it is one and fits.
    pub(crate) fn to_i64(&self) -> (r: Option<i64>)
        requires
            self@.1 == 0,
        ensures
            r == fits_i64(self@.0 as int),
    {
        if i64::MIN as i128 <= self.mantissa && self.mantissa <= i64::MAX as i128 {
            Some(self.mantissa as i64)
        } else {
            None
        }
    }

    /// `rust_decimal::Decimal`'s `==`: two decimals are equal when they stand
    /// for the same number.
    #[verifier::external_body]
    fn same(&self, other: &Decimal) -> (r: bool)
        ensures
            r == same_number(self@, other@),
    {
        rust_decimal::Decimal::from_i128_with_scale(self.mantissa, self.scale)
            == rust_decimal::Decimal::from_i128_with_scale(other.mantissa, other.scale)
    }
}

impl PartialEq for Decimal {
    fn eq(&self, other: &Decimal) -> (r: bool) {
        self.same(other)
    }
}

impl PartialEqSpecImpl for Decimal {
    open spec fn obeys_eq_spec() -> bool {
        true
    }

    open spec fn eq_spec(&self, other: &Decimal) -> bool {
        same_number(self@, other@)
    }
}

/// `10^(a + b)` is `10^a * 10^b`.
pub proof fn pow10_adds(a: nat, b: nat)
    ensures
        pow10(a + b) == pow10(a) * pow10(b),
    decreases a,
{
    if a > 0 {
        pow10_adds((a - 1) as nat, b);
        assert(pow10((a - 1 + b) as nat) * 10 == pow10((a - 1) as nat) * pow10(b) * 10);
        assert(10 * (pow10((a - 1) as nat) * pow10(b)) == (10 * pow10((a - 1) as nat)) * pow10(b))
            by (nonlinear_arith);
        assert((a - 1 + b) as nat == (a + b - 1) as nat);
    } else {
        assert(pow10(0) * pow10(b) == pow10(b)) by (nonlinear_arith)
            requires
                pow10(0) == 1,
        ;
    }
}

/// A power of ten is positive.
pub proof fn pow10_positive(n: nat)
    ensures
        pow10(n) >= 1,
    decreases n,
{
    if n > 0 {
        pow10_positive((n - 1) as nat);
    }
}

/// A decimal that stands for a number at one scale stands for it at any larger
/// one.
pub proof fn exactly_at_larger_scale(d: (i128, u32), n: int, scale: nat, more: nat)
    requires
        is_exactly(d, n, scale),
    ensures
        is_exactly(d, n * pow10(more), scale + more),
{
    pow10_adds((scale - d.1) as nat, more);
    assert((scale + more - d.1) as nat == (scale - d.1) as nat + more);
    assert(d.0 * (pow10((scale - d.1) as nat) * pow10(more)) == (d.0 * pow10(
        (scale - d.1) as nat,
    )) * pow10(more)) by (nonlinear_arith);
}

/// Two amounts that add up within the limits at a scale add up at the larger of
/// their own scales.
pub proof fn sum_fits_at_own_scale(
    a: (i128, u32),
    b: (i128, u32),
    x: int,
    y: int,
    scale: nat,
)
    requires
        is_exactly(a, x, scale),
        is_exactly(b, y, scale),
        a.0 >= 0,
        b.0 >= 0,
        x + y <= MAX_MANTISSA,
    ensures
        0 <= aligned_sum(a, b) <= MAX_MANTISSA,
        is_exactly((aligned_sum(a, b) as i128, larger_scale(a, b)), x + y, scale),
{
    let s = larger_scale(a, b);
    let up = (scale - s) as nat;
    let pa = pow10((s - a.1) as nat) as int;
    let pb = pow10((s - b.1) as nat) as int;
    let pu = pow10(up) as int;
    pow10_adds((s - a.1) as nat, up);
    pow10_adds((s - b.1) as nat, up);
    assert((scale - a.1) as nat == (s - a.1) as nat + up);
    assert((scale - b.1) as nat == (s - b.1) as nat + up);
    pow10_positive((s - a.1) as nat);
    pow10_positive((s - b.1) as nat);
    pow10_positive(up);
    assert(a.0 * (pa * pu) == (a.0 * pa) * pu) by (nonlinear_arith);
    assert(b.0 * (pb * pu) == (b.0 * pb) * pu) by (nonlinear_arith);
    let sum = aligned_sum(a, b);
    assert(sum == a.0 * pa + b.0 * pb);
    assert(sum * pu == (a.0 * pa) * pu + (b.0 * pb) * pu) by (nonlinear_arith)
        requires
            sum == a.0 * pa + b.0 * pb,
    ;
    assert(0 <= sum) by (nonlinear_arith)
        requires
            sum == a.0 * pa + b.0 * pb,
            a.0 >= 0,
            b.0 >= 0,
            pa >= 1,
            pb >= 1,
    ;
    assert(sum <= sum * pu) by (nonlinear_arith)
        requires
            0 <= sum,
            pu >= 1,
    ;
}

impl Decimal {
    /// Add two amounts that are not negative. Where they add up within the
    /// limits at some scale, the sum is exact.
    pub(crate) fn add_amounts(self, other: Decimal) -> (r: Option<Decimal>)
        ensures
            opt_parts(r) == decimal_sum(self@, other@),
            forall|x: int, y: int, scale: nat|
                self@.0 >= 0 && other@.0 >= 0 && #[trigger] is_exactly(self@, x, scale)
                    && #[trigger] is_exactly(other@, y, scale) && x + y <= MAX_MANTISSA
                    ==> r.is_some() && r.unwrap()@.0 >= 0 && is_exactly(
                    r.unwrap()@,
                    x + y,
                    scale,
                ),
    {
        let r = self.checked_add(other);
        proof {
            let a = self@;
            let b = other@;
            assert forall|x: int, y: int, scale: nat|
                a.0 >= 0 && b.0 >= 0 && #[trigger] is_exactly(a, x, scale) && #[trigger] is_exactly(
                    b,
                    y,
                    scale,
                ) && x + y <= MAX_MANTISSA implies r.is_some() && r.unwrap()@.0 >= 0 && is_exactly(
                r.unwrap()@,
                x + y,
                scale,
            ) by {
                if a.0 == 0 {
                    assert(x == 0) by (nonlinear_arith)
                        requires
                            x == a.0 * pow10((scale - a.1) as nat),
                            a.0 == 0,
                    ;
                } else if b.0 == 0 {
                    assert(y == 0) by (nonlinear_arith)
                        requires
                            y == b.0 * pow10((scale - b.1) as nat),
                            b.0 == 0,
                    ;
                } else {
                    sum_fits_at_own_scale(a, b, x, y, scale);
                }
            }
        }
        r
    }
}

/// Powers of ten.
pub proof fn law_powers_of_ten(n: nat)
    ensures
        pow10(0) == 1,
        pow10(1) == 10,
        pow10(n + 1) == 10 * pow10(n),
{
    reveal_with_fuel(pow10, 2);
}

/// A decimal stands for its mantissa at its own scale, for ten times as many
/// units at the next, and for no other number of them.
pub proof fn law_a_decimal_is_one_number(d: (i128, u32), n: int, scale: nat)
    ensures
        is_exactly(d, n, d.1 as nat) <==> n == d.0,
        scale >= d.1 && is_exactly(d, n, scale) ==> is_exactly(d, 10 * n, scale + 1),
        scale < d.1 ==> !is_exactly(d, n, scale),
{
    law_powers_of_ten(0);
    assert((d.1 as nat - d.1) as nat == 0);
    assert(d.0 * pow10(0) == d.0) by (nonlinear_arith)
        requires
            pow10(0) == 1,
    ;
    if scale >= d.1 {
        let k = (scale - d.1) as nat;
        law_powers_of_ten(k);
        assert((scale + 1 - d.1) as nat == k + 1);
        assert(d.0 * (10 * pow10(k)) == 10 * (d.0 * pow10(k))) by (nonlinear_arith);
    }
}

/// A rounded number is the nearest whole one: it is off by half a unit at most,
/// and by exactly half only where it is even.
pub proof fn law_rounding_goes_to_the_nearest(m: int, s: nat)
    ensures
        2 * (rounded(m, s) * pow10(s) - m) <= pow10(s),
        2 * (m - rounded(m, s) * pow10(s)) <= pow10(s),
        2 * (rounded(m, s) * pow10(s) - m) == pow10(s) || 2 * (m - rounded(m, s) * pow10(s))
            == pow10(s) ==> rounded(m, s) % 2 == 0,
{
    pow10_positive(s);
    let unit = pow10(s) as int;
    let below = m / unit;
    let over = m % unit;
    vstd::arithmetic::div_mod::lemma_fundamental_div_mod(m, unit);
    assert(unit * below == below * unit) by (nonlinear_arith);
    assert((below + 1) * unit == below * unit + unit) by (nonlinear_arith);
}

/// A whole number is an `i64` exactly where it fits, and then it is itself.
pub proof fn law_what_fits_is_itself(n: int)
    ensures
        fits_i64(n).is_some() <==> -9_223_372_036_854_775_808 <= n <= 9_223_372_036_854_775_807,
        fits_i64(n).is_some() ==> fits_i64(n).unwrap() == n,
{
}

} // verus!
