//! Decimal numbers of arbitrary precision.
//!
//! A number is held as plain data: a sign, the bytes of an unscaled integer
//! and a scale, standing for `±magnitude × 10^-scale`. The arithmetic itself
//! is done by the `bigdecimal` crate; what it answers is referred to by name
//! in the contracts below.

use bigdecimal::num_bigint::{BigInt, Sign};
use bigdecimal::{BigDecimal, RoundingMode};
use std::str::FromStr;
use vstd::prelude::*;

verus! {

/// The largest scale, and the largest negated scale, with which this crate
/// hands numbers to the arithmetic.
///
/// To add, subtract or compare two numbers the arithmetic brings them to a
/// common scale, which multiplies a magnitude by ten to the power of the
/// difference of the scales: a number of that many digits is built in
/// memory. With scales up to ten thousand that is at most twenty thousand
/// digits, done at once, while every number that a sheet is likely to hold
/// is far inside the bound. A bound near the limits of the scale's type would
/// only keep sums of scales from overflowing, and leave a single addition
/// free to ask for more memory than there is. A number beyond the bound is
/// not read as a number but kept as text, and arithmetic that would lead
/// beyond it gives no result.
pub const MAX_SCALE: i64 = 10000;

/// A decimal number: `±magnitude × 10^-scale`, the magnitude written as
/// big-endian bytes.
#[derive(Debug)]
pub struct Decimal {
    pub negative: bool,
    pub magnitude: Vec<u8>,
    pub scale: i64,
}

/// The mathematical content of a [`Decimal`].
pub struct DecimalView {
    pub negative: bool,
    pub magnitude: Seq<u8>,
    pub scale: i64,
}

impl DecimalView {
    /// The scale is small enough for arithmetic.
    pub open spec fn in_range(self) -> bool {
        -MAX_SCALE <= self.scale <= MAX_SCALE
    }

    /// The number is zero: its magnitude has no byte other than 0.
    pub open spec fn is_zero(self) -> bool {
        forall|i: int| 0 <= i < self.magnitude.len() ==> self.magnitude[i] == 0
    }

    /// Zero, written without a byte.
    pub open spec fn zero() -> DecimalView {
        DecimalView { negative: false, magnitude: Seq::empty(), scale: 0 }
    }
}

impl View for Decimal {
    type V = DecimalView;

    open spec fn view(&self) -> DecimalView {
        DecimalView { negative: self.negative, magnitude: self.magnitude@, scale: self.scale }
    }
}

impl DeepView for Decimal {
    type V = DecimalView;

    open spec fn deep_view(&self) -> DecimalView {
        self@
    }
}

/// The number that a text denotes, as the decimal parser reads it; `None`
/// where it reads no number.
pub uninterp spec fn parsed_decimal(text: Seq<char>) -> Option<DecimalView>;

/// The sum of two numbers, as the decimal arithmetic represents it.
pub uninterp spec fn decimal_sum(a: DecimalView, b: DecimalView) -> DecimalView;

/// The difference of two numbers, as the decimal arithmetic represents it.
pub uninterp spec fn decimal_difference(a: DecimalView, b: DecimalView) -> DecimalView;

/// The product of two numbers, as the decimal arithmetic represents it.
pub uninterp spec fn decimal_product(a: DecimalView, b: DecimalView) -> DecimalView;

/// The quotient of two numbers, as the decimal arithmetic represents and
/// rounds it. The precision that it rounds to is fixed when `bigdecimal` is
/// built, so the quotient is the same wherever one build of it runs.
pub uninterp spec fn decimal_quotient(a: DecimalView, b: DecimalView) -> DecimalView;

/// The text that the decimal arithmetic writes a number as. From which
/// scale on it writes an exponent is fixed when `bigdecimal` is built, so the
/// text is the same wherever one build of it runs.
pub uninterp spec fn decimal_text(a: DecimalView) -> Seq<char>;

/// A number rounded to so many places behind the decimal point, halves away
/// from zero, as the decimal arithmetic represents it.
pub uninterp spec fn decimal_rounded(a: DecimalView, places: i64) -> DecimalView;

/// A number rounded to so many digits in all, halves away from zero, as the
/// decimal arithmetic represents it.
pub uninterp spec fn decimal_with_digits(a: DecimalView, digits: u64) -> DecimalView;

/// The text that the decimal arithmetic writes a number as when it writes
/// all its digits and no exponent.
pub uninterp spec fn decimal_plain_text(a: DecimalView) -> Seq<char>;

/// The text that the decimal arithmetic writes a number as in scientific
/// notation: one digit, the others behind a point, and an exponent of ten.
pub uninterp spec fn decimal_scientific_text(a: DecimalView) -> Seq<char>;

/// Calls `BigDecimal::from_str`, and takes the parsed number apart with
/// `into_bigint_and_exponent` and `BigInt::to_bytes_be`. The answer depends
/// on the text alone.
#[verifier::external_body]
fn outside_parse(text: &str) -> (r: Option<Decimal>)
    ensures
        r.deep_view() == parsed_decimal(text@),
{
    match BigDecimal::from_str(text) {
        Ok(z) => {
            let (n, scale) = z.into_bigint_and_exponent();
            let (sign, magnitude) = n.to_bytes_be();
            Some(Decimal { negative: sign == Sign::Minus, magnitude, scale })
        },
        Err(_) => None,
    }
}

/// Adds two numbers with `BigDecimal`'s `+`. The scales must be in range, so
/// that bringing the two to a common scale stays a small computation.
#[verifier::external_body]
fn outside_sum(a: &Decimal, b: &Decimal) -> (r: Decimal)
    requires
        a@.in_range(),
        b@.in_range(),
    ensures
        r@ == decimal_sum(a@, b@),
{
    let sa = if a.negative { Sign::Minus } else { Sign::Plus };
    let sb = if b.negative { Sign::Minus } else { Sign::Plus };
    let x = BigDecimal::new(BigInt::from_bytes_be(sa, &a.magnitude), a.scale);
    let y = BigDecimal::new(BigInt::from_bytes_be(sb, &b.magnitude), b.scale);
    let (n, scale) = (x + y).into_bigint_and_exponent();
    let (sign, magnitude) = n.to_bytes_be();
    Decimal { negative: sign == Sign::Minus, magnitude, scale }
}

/// Subtracts with `BigDecimal`'s `-`. The scales must be in range, so that
/// bringing the two to a common scale stays a small computation.
#[verifier::external_body]
fn outside_difference(a: &Decimal, b: &Decimal) -> (r: Decimal)
    requires
        a@.in_range(),
        b@.in_range(),
    ensures
        r@ == decimal_difference(a@, b@),
{
    let sa = if a.negative { Sign::Minus } else { Sign::Plus };
    let sb = if b.negative { Sign::Minus } else { Sign::Plus };
    let x = BigDecimal::new(BigInt::from_bytes_be(sa, &a.magnitude), a.scale);
    let y = BigDecimal::new(BigInt::from_bytes_be(sb, &b.magnitude), b.scale);
    let (n, scale) = (x - y).into_bigint_and_exponent();
    let (sign, magnitude) = n.to_bytes_be();
    Decimal { negative: sign == Sign::Minus, magnitude, scale }
}

/// Multiplies with `BigDecimal`'s `*`. The scales must be in range, so that
/// their sum is a scale.
#[verifier::external_body]
fn outside_product(a: &Decimal, b: &Decimal) -> (r: Decimal)
    requires
        a@.in_range(),
        b@.in_range(),
    ensures
        r@ == decimal_product(a@, b@),
{
    let sa = if a.negative { Sign::Minus } else { Sign::Plus };
    let sb = if b.negative { Sign::Minus } else { Sign::Plus };
    let x = BigDecimal::new(BigInt::from_bytes_be(sa, &a.magnitude), a.scale);
    let y = BigDecimal::new(BigInt::from_bytes_be(sb, &b.magnitude), b.scale);
    let (n, scale) = (x * y).into_bigint_and_exponent();
    let (sign, magnitude) = n.to_bytes_be();
    Decimal { negative: sign == Sign::Minus, magnitude, scale }
}

/// Divides with `BigDecimal`'s `/`, which rounds to its default precision.
/// The divisor must not be zero, and the scales must be in range.
#[verifier::external_body]
fn outside_quotient(a: &Decimal, b: &Decimal) -> (r: Decimal)
    requires
        a@.in_range(),
        b@.in_range(),
        !b@.is_zero(),
    ensures
        r@ == decimal_quotient(a@, b@),
{
    let sa = if a.negative { Sign::Minus } else { Sign::Plus };
    let sb = if b.negative { Sign::Minus } else { Sign::Plus };
    let x = BigDecimal::new(BigInt::from_bytes_be(sa, &a.magnitude), a.scale);
    let y = BigDecimal::new(BigInt::from_bytes_be(sb, &b.magnitude), b.scale);
    let (n, scale) = (x / y).into_bigint_and_exponent();
    let (sign, magnitude) = n.to_bytes_be();
    Decimal { negative: sign == Sign::Minus, magnitude, scale }
}

/// Writes a number with `BigDecimal`'s `to_string`. The scale must be in
/// range.
#[verifier::external_body]
fn outside_text(a: &Decimal) -> (r: String)
    requires
        a@.in_range(),
    ensures
        r@ == decimal_text(a@),
{
    let sa = if a.negative { Sign::Minus } else { Sign::Plus };
    BigDecimal::new(BigInt::from_bytes_be(sa, &a.magnitude), a.scale).to_string()
}

/// Rounds with `BigDecimal::with_scale_round` and `RoundingMode::HalfUp`.
/// The scale must be in range and the places between 0 and the largest
/// scale, so that the digits to be dropped or added are few.
#[verifier::external_body]
fn outside_rounded(a: &Decimal, places: i64) -> (r: Decimal)
    requires
        a@.in_range(),
        0 <= places <= MAX_SCALE,
    ensures
        r@ == decimal_rounded(a@, places),
{
    let sa = if a.negative { Sign::Minus } else { Sign::Plus };
    let x = BigDecimal::new(BigInt::from_bytes_be(sa, &a.magnitude), a.scale);
    let (n, scale) = x.with_scale_round(places, RoundingMode::HalfUp).into_bigint_and_exponent();
    let (sign, magnitude) = n.to_bytes_be();
    Decimal { negative: sign == Sign::Minus, magnitude, scale }
}

/// Rounds with `BigDecimal::with_precision_round` and
/// `RoundingMode::HalfUp`. The scale must be in range and the digits between
/// 1 and the largest scale.
#[verifier::external_body]
fn outside_with_digits(a: &Decimal, digits: u64) -> (r: Decimal)
    requires
        a@.in_range(),
        1 <= digits <= MAX_SCALE,
    ensures
        r@ == decimal_with_digits(a@, digits),
{
    let sa = if a.negative { Sign::Minus } else { Sign::Plus };
    let x = BigDecimal::new(BigInt::from_bytes_be(sa, &a.magnitude), a.scale);
    let digits = std::num::NonZeroU64::new(digits).unwrap();
    let rounded = x.with_precision_round(digits, RoundingMode::HalfUp);
    let (n, scale) = rounded.into_bigint_and_exponent();
    let (sign, magnitude) = n.to_bytes_be();
    Decimal { negative: sign == Sign::Minus, magnitude, scale }
}

/// Writes a number with `BigDecimal::to_plain_string`. The scale must be in
/// range, so that the zeros to be written are few.
#[verifier::external_body]
fn outside_plain_text(a: &Decimal) -> (r: String)
    requires
        a@.in_range(),
    ensures
        r@ == decimal_plain_text(a@),
{
    let sa = if a.negative { Sign::Minus } else { Sign::Plus };
    BigDecimal::new(BigInt::from_bytes_be(sa, &a.magnitude), a.scale).to_plain_string()
}

/// Writes a number with `BigDecimal::to_scientific_notation`. The scale
/// must be in range.
#[verifier::external_body]
fn outside_scientific_text(a: &Decimal) -> (r: String)
    requires
        a@.in_range(),
    ensures
        r@ == decimal_scientific_text(a@),
{
    let sa = if a.negative { Sign::Minus } else { Sign::Plus };
    BigDecimal::new(BigInt::from_bytes_be(sa, &a.magnitude), a.scale).to_scientific_notation()
}

/// The result of an operation, if its scale is in range.
pub open spec fn kept(d: DecimalView) -> Option<DecimalView> {
    if d.in_range() {
        Some(d)
    } else {
        None
    }
}

/// The number that `Decimal::parse` reads from a text.
pub open spec fn spec_parse(text: Seq<char>) -> Option<DecimalView> {
    match parsed_decimal(text) {
        Some(d) => kept(d),
        None => None,
    }
}

/// The sum that `Decimal::checked_add` gives.
pub open spec fn spec_checked_add(a: DecimalView, b: DecimalView) -> Option<DecimalView> {
    if a.in_range() && b.in_range() {
        kept(decimal_sum(a, b))
    } else {
        None
    }
}

/// The difference that `Decimal::checked_sub` gives.
pub open spec fn spec_checked_sub(a: DecimalView, b: DecimalView) -> Option<DecimalView> {
    if a.in_range() && b.in_range() {
        kept(decimal_difference(a, b))
    } else {
        None
    }
}

/// The product that `Decimal::checked_mul` gives.
pub open spec fn spec_checked_mul(a: DecimalView, b: DecimalView) -> Option<DecimalView> {
    if a.in_range() && b.in_range() {
        kept(decimal_product(a, b))
    } else {
        None
    }
}

/// The quotient that `Decimal::checked_div` gives.
pub open spec fn spec_checked_div(a: DecimalView, b: DecimalView) -> Option<DecimalView> {
    if a.in_range() && b.in_range() && !b.is_zero() {
        kept(decimal_quotient(a, b))
    } else {
        None
    }
}

/// The number that `Decimal::rounded` gives.
pub open spec fn spec_rounded(a: DecimalView, places: i64) -> Option<DecimalView> {
    if a.in_range() && 0 <= places <= MAX_SCALE {
        kept(decimal_rounded(a, places))
    } else {
        None
    }
}

/// The number that `Decimal::with_digits` gives.
pub open spec fn spec_with_digits(a: DecimalView, digits: u64) -> Option<DecimalView> {
    if a.in_range() && 1 <= digits <= MAX_SCALE {
        kept(decimal_with_digits(a, digits))
    } else {
        None
    }
}

/// The text that `Decimal::to_plain_text` writes: a number whose scale is
/// out of range is written as `#`.
pub open spec fn spec_to_plain_text(a: DecimalView) -> Seq<char> {
    if a.in_range() {
        decimal_plain_text(a)
    } else {
        "#"@
    }
}

/// The text that `Decimal::to_scientific_text` writes: a number whose scale
/// is out of range is written as `#`.
pub open spec fn spec_to_scientific_text(a: DecimalView) -> Seq<char> {
    if a.in_range() {
        decimal_scientific_text(a)
    } else {
        "#"@
    }
}

/// The text that `Decimal::to_text` writes: a number whose scale is out of
/// range is written as `#`.
pub open spec fn spec_to_text(a: DecimalView) -> Seq<char> {
    if a.in_range() {
        decimal_text(a)
    } else {
        "#"@
    }
}

/// What `Decimal::same_as` answers: two numbers are the same where their
/// difference is zero. Representations out of range are compared as they
/// are written.
pub open spec fn spec_same_as(a: DecimalView, b: DecimalView) -> bool {
    if a.in_range() && b.in_range() {
        decimal_difference(a, b).is_zero()
    } else {
        a == b
    }
}

impl Decimal {
    pub open spec fn in_range(&self) -> bool {
        self@.in_range()
    }

    /// Zero.
    pub fn zero() -> (r: Decimal)
        ensures
            r@ == DecimalView::zero(),
            r@.in_range(),
    {
        Decimal { negative: false, magnitude: Vec::new(), scale: 0 }
    }

    pub fn check_in_range(&self) -> (r: bool)
        ensures
            r == self@.in_range(),
    {
        -MAX_SCALE <= self.scale && self.scale <= MAX_SCALE
    }

    /// Keeps a number whose scale is in range.
    pub fn keep(d: Decimal) -> (r: Option<Decimal>)
        ensures
            r.deep_view() == kept(d@),
    {
        if d.check_in_range() {
            Some(d)
        } else {
            None
        }
    }

    /// Reads a number from a text. `None` where the text is no number, or one
    /// whose scale is out of range.
    pub fn parse(text: &str) -> (r: Option<Decimal>)
        ensures
            r.deep_view() == spec_parse(text@),
    {
        match outside_parse(text) {
            Some(d) => Decimal::keep(d),
            None => None,
        }
    }

    /// The sum of two numbers. `None` where a scale is out of range, before
    /// or after.
    pub fn checked_add(&self, other: &Decimal) -> (r: Option<Decimal>)
        ensures
            r.deep_view() == spec_checked_add(self@, other@),
    {
        if self.check_in_range() && other.check_in_range() {
            Decimal::keep(outside_sum(self, other))
        } else {
            None
        }
    }

    /// The difference of two numbers. `None` where a scale is out of
    /// range, before or after.
    pub fn checked_sub(&self, other: &Decimal) -> (r: Option<Decimal>)
        ensures
            r.deep_view() == spec_checked_sub(self@, other@),
    {
        if self.check_in_range() && other.check_in_range() {
            Decimal::keep(outside_difference(self, other))
        } else {
            None
        }
    }

    /// The product of two numbers. `None` where a scale is out of range,
    /// before or after.
    pub fn checked_mul(&self, other: &Decimal) -> (r: Option<Decimal>)
        ensures
            r.deep_view() == spec_checked_mul(self@, other@),
    {
        if self.check_in_range() && other.check_in_range() {
            Decimal::keep(outside_product(self, other))
        } else {
            None
        }
    }

    /// The quotient of two numbers, rounded as the arithmetic rounds.
    /// `None` where the divisor is zero, or a scale is out of range, before
    /// or after.
    pub fn checked_div(&self, other: &Decimal) -> (r: Option<Decimal>)
        ensures
            r.deep_view() == spec_checked_div(self@, other@),
    {
        if self.check_in_range() && other.check_in_range() && !other.is_zero() {
            Decimal::keep(outside_quotient(self, other))
        } else {
            None
        }
    }

    /// The number rounded to so many places behind the decimal point,
    /// halves away from zero. `None` where the scale is out of range, before
    /// or after, or the places are fewer than 0 or more than the largest
    /// scale.
    pub fn rounded(&self, places: i64) -> (r: Option<Decimal>)
        ensures
            r.deep_view() == spec_rounded(self@, places),
    {
        if self.check_in_range() && 0 <= places && places <= MAX_SCALE {
            Decimal::keep(outside_rounded(self, places))
        } else {
            None
        }
    }

    /// The number rounded to so many digits in all, halves away from zero.
    /// `None` where the scale
    /// is out of range, before or after, or the digits are fewer than 1 or
    /// more than the largest scale.
    pub fn with_digits(&self, digits: u64) -> (r: Option<Decimal>)
        ensures
            r.deep_view() == spec_with_digits(self@, digits),
    {
        if self.check_in_range() && 1 <= digits && digits <= 10000 {
            Decimal::keep(outside_with_digits(self, digits))
        } else {
            None
        }
    }

    /// The number as text, with all its digits and without an exponent.
    pub fn to_plain_text(&self) -> (r: String)
        ensures
            r@ == spec_to_plain_text(self@),
    {
        if self.check_in_range() {
            outside_plain_text(self)
        } else {
            "#".to_owned()
        }
    }

    /// The number as text in scientific notation.
    pub fn to_scientific_text(&self) -> (r: String)
        ensures
            r@ == spec_to_scientific_text(self@),
    {
        if self.check_in_range() {
            outside_scientific_text(self)
        } else {
            "#".to_owned()
        }
    }

    /// The number as text.
    pub fn to_text(&self) -> (r: String)
        ensures
            r@ == spec_to_text(self@),
    {
        if self.check_in_range() {
            outside_text(self)
        } else {
            "#".to_owned()
        }
    }

    /// Whether the number is zero.
    pub fn is_zero(&self) -> (r: bool)
        ensures
            r == self@.is_zero(),
    {
        let mut i: usize = 0;
        while i < self.magnitude.len()
            invariant
                i <= self.magnitude.len(),
                forall|j: int| 0 <= j < i ==> self.magnitude@[j] == 0,
            decreases self.magnitude.len() - i,
        {
            if self.magnitude[i] != 0 {
                assert(self@.magnitude[i as int] != 0);
                return false;
            }
            i = i + 1;
        }
        true
    }

    /// Whether the two stand for the same number, whatever their scales:
    /// whether their difference is zero.
    pub fn same_as(&self, other: &Decimal) -> (r: bool)
        ensures
            r == spec_same_as(self@, other@),
    {
        if self.check_in_range() && other.check_in_range() {
            outside_difference(self, other).is_zero()
        } else {
            self.negative == other.negative && self.scale == other.scale && bytes_eq(
                &self.magnitude,
                &other.magnitude,
            )
        }
    }
}

/// Whether two byte vectors hold the same bytes.
pub fn bytes_eq(a: &Vec<u8>, b: &Vec<u8>) -> (r: bool)
    ensures
        r == (a@ == b@),
{
    if a.len() != b.len() {
        return false;
    }
    let mut i: usize = 0;
    while i < a.len()
        invariant
            a.len() == b.len(),
            i <= a.len(),
            forall|j: int| 0 <= j < i ==> a@[j] == b@[j],
        decreases a.len() - i,
    {
        if a[i] != b[i] {
            return false;
        }
        i = i + 1;
    }
    assert(a@ =~= b@);
    true
}

impl Clone for Decimal {
    fn clone(&self) -> (r: Decimal)
        ensures
            r@ == self@,
    {
        let magnitude = self.magnitude.clone();
        assert(magnitude@ =~= self.magnitude@);
        Decimal { negative: self.negative, magnitude, scale: self.scale }
    }
}

impl PartialEq for Decimal {
    fn eq(&self, other: &Decimal) -> (r: bool) {
        self.same_as(other)
    }
}

impl vstd::std_specs::cmp::PartialEqSpecImpl for Decimal {
    open spec fn obeys_eq_spec() -> bool {
        true
    }

    open spec fn eq_spec(&self, other: &Decimal) -> bool {
        spec_same_as(self@, other@)
    }
}

} // verus!
