//! Decimal values held as plain parts, and the decimal arithmetic the solver needs.
//!
//! A `Dec` stands for `(-1)^negative * digits * 10^(-scale)`. Its sign is read directly
//! from the parts; arithmetic is carried out by `decimal_rs`, whose results are named
//! below rather than restated (they are rounded to 38 significant digits).
use vstd::prelude::*;
use vstd::arithmetic::power::{lemma_pow_positive, pow};
use decimal_rs::Decimal;

verus! {

/// Number of decimal places of the fixed-point logarithmic quantities (pH, pK).
pub const P_SCALE: i16 = 9;

/// One unit of a logarithmic quantity, in fixed-point steps.
pub const P_UNIT: i64 = 1_000_000_000;

/// Largest digit count `Decimal::from_parts` accepts: 38 nines.
pub const MAX_DIGITS: u128 = 99_999_999_999_999_999_999_999_999_999_999_999_999;

/// A decimal number: `(-1)^negative * digits * 10^(-scale)`.
#[derive(Clone, Copy, Debug, PartialEq, Eq)]
pub struct Dec {
    pub digits: u128,
    pub scale: i16,
    pub negative: bool,
}

impl Dec {
    pub open spec fn is_zero_spec(self) -> bool {
        self.digits == 0
    }

    pub open spec fn is_positive_spec(self) -> bool {
        self.digits != 0 && !self.negative
    }

    pub open spec fn is_negative_spec(self) -> bool {
        self.digits != 0 && self.negative
    }

    /// The signs of `a` and `b` multiply to a value that is not negative.
    pub open spec fn same_sign_spec(a: Dec, b: Dec) -> bool {
        a.is_zero_spec() || b.is_zero_spec() || a.negative == b.negative
    }

    /// The parts lie in the range a `decimal_rs` value can take.
    pub open spec fn fits(self) -> bool {
        self.digits <= MAX_DIGITS && -126 <= self.scale < 168
    }

    /// Numerator of `|self|` over `den()`.
    pub open spec fn magnitude(self) -> int {
        if self.scale < 0 {
            self.digits * pow(10, (-self.scale) as nat)
        } else {
            self.digits as int
        }
    }

    /// Denominator of the value: `10^scale` for a non-negative scale.
    pub open spec fn den(self) -> int {
        if self.scale >= 0 {
            pow(10, self.scale as nat)
        } else {
            1
        }
    }

    /// `self.num() / self.den()` is the value.
    pub open spec fn num(self) -> int {
        if self.negative {
            -self.magnitude()
        } else {
            self.magnitude()
        }
    }

    pub open spec fn abs_spec(self) -> Dec {
        Dec { negative: false, ..self }
    }

    pub fn abs(&self) -> (r: Dec)
        ensures
            r == self.abs_spec(),
    {
        Dec { digits: self.digits, scale: self.scale, negative: false }
    }

    pub open spec fn zero_spec() -> Dec {
        Dec { digits: 0, scale: 0, negative: false }
    }

    pub open spec fn int_spec(n: u64) -> Dec {
        Dec { digits: n as u128, scale: 0, negative: false }
    }

    pub fn zero() -> (r: Dec)
        ensures
            r == Dec::zero_spec(),
    {
        Dec { digits: 0, scale: 0, negative: false }
    }

    pub fn from_u64(n: u64) -> (r: Dec)
        ensures
            r == Dec::int_spec(n),
    {
        Dec { digits: n as u128, scale: 0, negative: false }
    }

    pub fn is_zero(&self) -> (r: bool)
        ensures
            r == self.is_zero_spec(),
    {
        self.digits == 0
    }

    pub fn is_positive(&self) -> (r: bool)
        ensures
            r == self.is_positive_spec(),
    {
        self.digits != 0 && !self.negative
    }

    pub fn is_negative(&self) -> (r: bool)
        ensures
            r == self.is_negative_spec(),
    {
        self.digits != 0 && self.negative
    }

    /// Whether the product of `a` and `b` would be zero or positive, decided from the signs alone.
    pub fn same_sign(a: &Dec, b: &Dec) -> (r: bool)
        ensures
            r == Dec::same_sign_spec(*a, *b),
    {
        a.digits == 0 || b.digits == 0 || a.negative == b.negative
    }
}

/// `a < b` as numbers.
pub open spec fn less_than(a: Dec, b: Dec) -> bool {
    a.num() * b.den() < b.num() * a.den()
}

/// `|a| < |b|` as numbers.
pub open spec fn closer_to_zero(a: Dec, b: Dec) -> bool {
    less_than(a.abs_spec(), b.abs_spec())
}

pub proof fn lemma_den_positive(a: Dec)
    ensures
        a.den() > 0,
{
    if a.scale >= 0 {
        lemma_pow_positive(10, a.scale as nat);
    }
}

/// `<` on decimal values is transitive.
pub proof fn lemma_less_than_transitive(a: Dec, b: Dec, c: Dec)
    requires
        less_than(a, b),
        less_than(b, c),
    ensures
        less_than(a, c),
{
    lemma_den_positive(a);
    lemma_den_positive(b);
    lemma_den_positive(c);
    let (an, ad, bn, bd, cn, cd) = (a.num(), a.den(), b.num(), b.den(), c.num(), c.den());
    assert(an * cd < cn * ad) by (nonlinear_arith)
        requires
            an * bd < bn * ad,
            bn * cd < cn * bd,
            ad > 0,
            bd > 0,
            cd > 0,
    {
        assert(an * bd * cd < bn * ad * cd);
        assert(bn * cd * ad < cn * bd * ad);
    }
}

/// Not-less-than on decimal values is transitive.
pub proof fn lemma_not_less_than_transitive(a: Dec, b: Dec, c: Dec)
    requires
        !less_than(a, b),
        !less_than(b, c),
    ensures
        !less_than(a, c),
{
    lemma_den_positive(a);
    lemma_den_positive(b);
    lemma_den_positive(c);
    let (an, ad, bn, bd, cn, cd) = (a.num(), a.den(), b.num(), b.den(), c.num(), c.den());
    assert(an * cd >= cn * ad) by (nonlinear_arith)
        requires
            an * bd >= bn * ad,
            bn * cd >= cn * bd,
            ad > 0,
            bd > 0,
            cd > 0,
    {
        assert(an * bd * cd >= bn * ad * cd);
        assert(bn * cd * ad >= cn * bd * ad);
    }
}

/// The exact decimal of a fixed-point logarithmic quantity `x` (in units of `10^-P_SCALE`).
pub open spec fn fixed_spec(x: int) -> Dec {
    Dec {
        digits: (if x < 0 { -x } else { x }) as u128,
        scale: P_SCALE,
        negative: x < 0,
    }
}

/// Builds `fixed_spec(x)` for a product `x` that fits an `i128`.
pub fn fixed(x: i128) -> (r: Dec)
    requires
        x > i128::MIN,
    ensures
        r == fixed_spec(x as int),
{
    let mag: i128 = if x < 0 { -x } else { x };
    Dec { digits: mag as u128, scale: P_SCALE, negative: x < 0 }
}

/// Decimal sum as computed by `decimal_rs`.
pub uninterp spec fn sum_of(a: Dec, b: Dec) -> Option<Dec>;

/// Decimal difference as computed by `decimal_rs`.
pub uninterp spec fn difference_of(a: Dec, b: Dec) -> Option<Dec>;

/// Decimal product as computed by `decimal_rs`.
pub uninterp spec fn product_of(a: Dec, b: Dec) -> Option<Dec>;

/// Decimal quotient as computed by `decimal_rs`.
pub uninterp spec fn quotient_of(a: Dec, b: Dec) -> Option<Dec>;

/// Decimal power as computed by `decimal_rs`.
pub uninterp spec fn power_of(base: Dec, exponent: Dec) -> Option<Dec>;

/// Relies on `decimal_rs::Decimal::checked_add`: the sum, or `None` on overflow
/// (also `None` when a part is outside what `Decimal::from_parts` accepts).
#[verifier::external_body]
pub(crate) fn checked_add(a: Dec, b: Dec) -> (r: Option<Dec>)
    ensures
        r == sum_of(a, b),
{
    match (Decimal::from_parts(a.digits, a.scale, a.negative), Decimal::from_parts(b.digits, b.scale, b.negative)) {
        (Ok(x), Ok(y)) => match x.checked_add(y) {
            Some(v) => {
                let (digits, scale, negative) = v.into_parts();
                Some(Dec { digits, scale, negative })
            },
            None => None,
        },
        _ => None,
    }
}

/// Relies on `decimal_rs::Decimal::checked_sub`: the difference `a - b`, or `None` on overflow
/// (also `None` when a part is outside what `Decimal::from_parts` accepts).
#[verifier::external_body]
pub(crate) fn checked_sub(a: Dec, b: Dec) -> (r: Option<Dec>)
    ensures
        r == difference_of(a, b),
{
    match (Decimal::from_parts(a.digits, a.scale, a.negative), Decimal::from_parts(b.digits, b.scale, b.negative)) {
        (Ok(x), Ok(y)) => match x.checked_sub(y) {
            Some(v) => {
                let (digits, scale, negative) = v.into_parts();
                Some(Dec { digits, scale, negative })
            },
            None => None,
        },
        _ => None,
    }
}

/// Relies on `decimal_rs::Decimal::checked_mul`: the product, or `None` on overflow
/// (also `None` when a part is outside what `Decimal::from_parts` accepts).
#[verifier::external_body]
pub(crate) fn checked_mul(a: Dec, b: Dec) -> (r: Option<Dec>)
    ensures
        r == product_of(a, b),
{
    match (Decimal::from_parts(a.digits, a.scale, a.negative), Decimal::from_parts(b.digits, b.scale, b.negative)) {
        (Ok(x), Ok(y)) => match x.checked_mul(y) {
            Some(v) => {
                let (digits, scale, negative) = v.into_parts();
                Some(Dec { digits, scale, negative })
            },
            None => None,
        },
        _ => None,
    }
}

/// Relies on `decimal_rs::Decimal::checked_div`: the quotient `a / b`, or `None` when `b` is
/// zero or on overflow (also `None` when a part is outside what `Decimal::from_parts` accepts).
#[verifier::external_body]
pub(crate) fn checked_div(a: Dec, b: Dec) -> (r: Option<Dec>)
    ensures
        r == quotient_of(a, b),
        b.digits == 0 ==> r.is_none(),
{
    match (Decimal::from_parts(a.digits, a.scale, a.negative), Decimal::from_parts(b.digits, b.scale, b.negative)) {
        (Ok(x), Ok(y)) => match x.checked_div(y) {
            Some(v) => {
                let (digits, scale, negative) = v.into_parts();
                Some(Dec { digits, scale, negative })
            },
            None => None,
        },
        _ => None,
    }
}

/// Relies on `decimal_rs::Decimal::checked_pow`: `base` raised to the decimal `exponent`, or
/// `None` when the result overflows or is undefined (also `None` when a part is outside what
/// `Decimal::from_parts` accepts).
#[verifier::external_body]
pub(crate) fn checked_pow(base: Dec, exponent: Dec) -> (r: Option<Dec>)
    ensures
        r == power_of(base, exponent),
{
    match (Decimal::from_parts(base.digits, base.scale, base.negative), Decimal::from_parts(exponent.digits, exponent.scale, exponent.negative)) {
        (Ok(x), Ok(y)) => match x.checked_pow(&y) {
            Some(v) => {
                let (digits, scale, negative) = v.into_parts();
                Some(Dec { digits, scale, negative })
            },
            None => None,
        },
        _ => None,
    }
}

/// Relies on `Ord for decimal_rs::Decimal`, which compares numeric values: whether `a < b`,
/// or `None` when a part is outside what `Decimal::from_parts` accepts.
#[verifier::external_body]
pub(crate) fn checked_lt(a: Dec, b: Dec) -> (r: Option<bool>)
    ensures
        r == (if a.fits() && b.fits() { Some(less_than(a, b)) } else { None::<bool> }),
{
    match (Decimal::from_parts(a.digits, a.scale, a.negative), Decimal::from_parts(b.digits, b.scale, b.negative)) {
        (Ok(x), Ok(y)) => Some(x < y),
        _ => None,
    }
}

} // verus!
