//! Decimal amounts.
//!
//! An [`Amount`] is the plain-value form of a `rust_decimal::Decimal`: a signed
//! mantissa of at most 96 bits and a scale between 0 and 28, standing for
//! `mantissa / 10^scale`. All arithmetic and every comparison is carried out
//! by `rust_decimal`; this module states what the rest of the library may rely
//! on.
//!
//! Sums, differences, products and quotients are rounded by `rust_decimal`
//! where the exact result does not fit, so they are not written out here:
//! each has a name ([`decimal_sum`] and its siblings) and the contracts of the
//! library speak of those names. Comparison is exact and is written out in
//! [`Amount::spec_ge`].

use vstd::prelude::*;

verus! {

/// The largest magnitude of a mantissa, `2^96 - 1`.
pub const MAX_MANTISSA: i128 = 0xFFFF_FFFF_FFFF_FFFF_FFFF_FFFF;

/// The largest scale.
pub const MAX_SCALE: u32 = 28;

/// Ten to the power `n`.
pub open spec fn pow10(n: nat) -> int
    decreases n,
{
    if n == 0 {
        1
    } else {
        10 * pow10((n - 1) as nat)
    }
}

/// Whether `mantissa / 10^scale` can be held by an [`Amount`].
pub open spec fn representable(mantissa: int, scale: int) -> bool {
    &&& -MAX_MANTISSA <= mantissa <= MAX_MANTISSA
    &&& 0 <= scale <= MAX_SCALE
}

/// A decimal number `mantissa / 10^scale`.
#[derive(Clone, Copy, Debug)]
pub struct Amount {
    mantissa: i128,
    scale: u32,
}

/// What `rust_decimal` returns for `a + b`; `None` where it reports overflow.
pub uninterp spec fn decimal_sum(a: Amount, b: Amount) -> Option<Amount>;

/// What `rust_decimal` returns for `a - b`; `None` where it reports overflow.
pub uninterp spec fn decimal_difference(a: Amount, b: Amount) -> Option<Amount>;

/// What `rust_decimal` returns for `a * b`; `None` where it reports overflow.
pub uninterp spec fn decimal_product(a: Amount, b: Amount) -> Option<Amount>;

/// What `rust_decimal` returns for `a / b`; `None` where it reports overflow
/// or a zero divisor.
pub uninterp spec fn decimal_quotient(a: Amount, b: Amount) -> Option<Amount>;

impl Amount {
    #[verifier::type_invariant]
    spec fn valid(self) -> bool {
        representable(self.mantissa as int, self.scale as int)
    }

    /// The mantissa.
    pub closed spec fn spec_mantissa(self) -> int {
        self.mantissa as int
    }

    /// The scale: the number of decimal digits after the point.
    pub closed spec fn spec_scale(self) -> nat {
        self.scale as nat
    }

    /// Whether the number is zero or positive.
    pub open spec fn is_nonnegative(self) -> bool {
        self.spec_mantissa() >= 0
    }

    /// Whether the number is above zero.
    pub open spec fn is_positive(self) -> bool {
        self.spec_mantissa() > 0
    }

    /// Whether `self >= other` as numbers, whatever their scales.
    pub open spec fn spec_ge(self, other: Amount) -> bool {
        self.spec_mantissa() * pow10(other.spec_scale()) >= other.spec_mantissa() * pow10(
            self.spec_scale(),
        )
    }

    /// Whether the two stand for the same number, whatever their scales.
    pub open spec fn same_value(self, other: Amount) -> bool {
        self.spec_mantissa() * pow10(other.spec_scale()) == other.spec_mantissa() * pow10(
            self.spec_scale(),
        )
    }

    /// The amount with the given mantissa and scale.
    pub closed spec fn from_parts(mantissa: int, scale: nat) -> Amount {
        Amount { mantissa: mantissa as i128, scale: scale as u32 }
    }

    /// The whole number `value`.
    pub open spec fn whole(value: int) -> Amount {
        Amount::from_parts(value, 0)
    }

    /// An amount is its mantissa and its scale, and
    /// [`from_parts`](Amount::from_parts) builds the one that has them.
    pub proof fn lemma_parts(mantissa: int, scale: nat)
        requires
            representable(mantissa, scale as int),
        ensures
            Amount::from_parts(mantissa, scale).spec_mantissa() == mantissa,
            Amount::from_parts(mantissa, scale).spec_scale() == scale,
    {
    }

    /// The amount `mantissa / 10^scale`, where an [`Amount`] can hold it.
    pub fn new(mantissa: i128, scale: u32) -> (r: Option<Amount>)
        ensures
            r is Some <==> representable(mantissa as int, scale as int),
            r is Some ==> r == Some(Amount::from_parts(mantissa as int, scale as nat)),
    {
        if -MAX_MANTISSA <= mantissa && mantissa <= MAX_MANTISSA && scale <= MAX_SCALE {
            Some(Amount { mantissa, scale })
        } else {
            None
        }
    }

    /// The whole number `value`.
    pub fn from_i64(value: i64) -> (r: Amount)
        ensures
            r == Amount::whole(value as int),
    {
        Amount { mantissa: value as i128, scale: 0 }
    }

    /// Zero.
    pub fn zero() -> (r: Amount)
        ensures
            r == Amount::whole(0),
    {
        Amount { mantissa: 0, scale: 0 }
    }

    /// The mantissa.
    pub fn mantissa(&self) -> (r: i128)
        ensures
            r == self.spec_mantissa(),
            -MAX_MANTISSA <= r <= MAX_MANTISSA,
    {
        proof {
            use_type_invariant(self);
        }
        self.mantissa
    }

    /// The scale.
    pub fn scale(&self) -> (r: u32)
        ensures
            r == self.spec_scale(),
            r <= MAX_SCALE,
    {
        proof {
            use_type_invariant(self);
        }
        self.scale
    }

    /// Whether the number is zero or positive.
    pub fn is_sign_nonnegative(&self) -> (r: bool)
        ensures
            r == self.is_nonnegative(),
    {
        self.mantissa >= 0
    }

    /// Whether `self >= other` as numbers.
    pub fn ge(&self, other: &Amount) -> (r: bool)
        ensures
            r == self.spec_ge(*other),
    {
        decimal_ge(*self, *other)
    }

    /// Whether the two stand for the same number: `1.0` and `1.00` do.
    pub fn eq_value(&self, other: &Amount) -> (r: bool)
        ensures
            r == self.same_value(*other),
    {
        decimal_ge(*self, *other) && decimal_ge(*other, *self)
    }

    /// `self + other`, or `None` on overflow.
    pub fn checked_add(self, other: Amount) -> (r: Option<Amount>)
        ensures
            r == decimal_sum(self, other),
            self.is_nonnegative() && other.is_nonnegative() ==> (r matches Some(s)
                ==> s.is_nonnegative()),
    {
        decimal_add(self, other)
    }

    /// `self - other`, or `None` on overflow.
    pub fn checked_sub(self, other: Amount) -> (r: Option<Amount>)
        ensures
            r == decimal_difference(self, other),
            self.spec_ge(other) ==> (r matches Some(d) ==> d.is_nonnegative()),
    {
        decimal_sub(self, other)
    }

    /// `self * other`, or `None` on overflow.
    pub fn checked_mul(self, other: Amount) -> (r: Option<Amount>)
        ensures
            r == decimal_product(self, other),
            self.is_nonnegative() && other.is_nonnegative() ==> (r matches Some(p)
                ==> p.is_nonnegative()),
    {
        decimal_mul(self, other)
    }

    /// `self / other`, or `None` on overflow or where `other` is zero.
    pub fn checked_div(self, other: Amount) -> (r: Option<Amount>)
        ensures
            r == decimal_quotient(self, other),
    {
        decimal_div(self, other)
    }
}

/// Calls `>=` of `rust_decimal::Decimal`, which orders decimals as numbers:
/// operands of different scales are brought to one scale before their
/// mantissas are compared. The contract says just that. Every [`Amount`] is
/// within the bounds of a `Decimal`, so the conversion that precedes the call
/// cannot fail, here and in the four functions below.
#[verifier::external_body]
fn decimal_ge(a: Amount, b: Amount) -> (r: bool)
    ensures
        r == a.spec_ge(b),
{
    let x = rust_decimal::Decimal::from_i128_with_scale(a.mantissa, a.scale);
    let y = rust_decimal::Decimal::from_i128_with_scale(b.mantissa, b.scale);
    x >= y
}

/// Calls `rust_decimal::Decimal::checked_add`. The contract names the result
/// and claims one thing more, which the crate's sign handling gives: adding
/// two numbers that are not negative gives one that is not negative.
#[verifier::external_body]
fn decimal_add(a: Amount, b: Amount) -> (r: Option<Amount>)
    ensures
        r == decimal_sum(a, b),
        a.is_nonnegative() && b.is_nonnegative() ==> (r matches Some(s) ==> s.is_nonnegative()),
{
    let x = rust_decimal::Decimal::from_i128_with_scale(a.mantissa, a.scale);
    let y = rust_decimal::Decimal::from_i128_with_scale(b.mantissa, b.scale);
    match x.checked_add(y) {
        Some(d) => Some(Amount { mantissa: d.mantissa(), scale: d.scale() }),
        None => None,
    }
}

/// Calls `rust_decimal::Decimal::checked_sub`. The contract names the result
/// and claims one thing more, which follows from the crate computing
/// `a - b` and rounding magnitudes only: where `a >= b`, the difference is not
/// negative.
#[verifier::external_body]
fn decimal_sub(a: Amount, b: Amount) -> (r: Option<Amount>)
    ensures
        r == decimal_difference(a, b),
        a.spec_ge(b) ==> (r matches Some(d) ==> d.is_nonnegative()),
{
    let x = rust_decimal::Decimal::from_i128_with_scale(a.mantissa, a.scale);
    let y = rust_decimal::Decimal::from_i128_with_scale(b.mantissa, b.scale);
    match x.checked_sub(y) {
        Some(d) => Some(Amount { mantissa: d.mantissa(), scale: d.scale() }),
        None => None,
    }
}

/// Calls `rust_decimal::Decimal::checked_mul`. The contract names the result
/// and claims one thing more: the crate gives the product the sign of its
/// operands, so two numbers that are not negative have a product that is not
/// negative.
#[verifier::external_body]
fn decimal_mul(a: Amount, b: Amount) -> (r: Option<Amount>)
    ensures
        r == decimal_product(a, b),
        a.is_nonnegative() && b.is_nonnegative() ==> (r matches Some(p) ==> p.is_nonnegative()),
{
    let x = rust_decimal::Decimal::from_i128_with_scale(a.mantissa, a.scale);
    let y = rust_decimal::Decimal::from_i128_with_scale(b.mantissa, b.scale);
    match x.checked_mul(y) {
        Some(d) => Some(Amount { mantissa: d.mantissa(), scale: d.scale() }),
        None => None,
    }
}

/// Calls `rust_decimal::Decimal::checked_div`. The contract names the result
/// and claims nothing more.
#[verifier::external_body]
fn decimal_div(a: Amount, b: Amount) -> (r: Option<Amount>)
    ensures
        r == decimal_quotient(a, b),
{
    let x = rust_decimal::Decimal::from_i128_with_scale(a.mantissa, a.scale);
    let y = rust_decimal::Decimal::from_i128_with_scale(b.mantissa, b.scale);
    match x.checked_div(y) {
        Some(d) => Some(Amount { mantissa: d.mantissa(), scale: d.scale() }),
        None => None,
    }
}

} // verus!
