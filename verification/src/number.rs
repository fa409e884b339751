//! Numbers as they travel in JSON, and double-precision numbers by their
//! bits.
//!
//! A double is modelled by its 64 bits. Whether it is finite and how it
//! compares with another one are rules on those bits, so every decision that
//! rests on a confidence, a score or a bound is a decision on integers.
use serde::Serializer;
use vstd::prelude::*;
use vstd::std_specs::cmp::PartialEqSpec;
use vstd::string::*;

verus! {

broadcast use vstd::string::group_string_axioms;

/// What a JSON number holds: an integer, or a double by its bits.
#[derive(Clone, Copy, Debug, PartialEq, Eq, Structural)]
pub enum NumberKind {
    /// An integer of zero or more.
    PosInt(u64),
    /// An integer below zero.
    NegInt(i64),
    /// A finite double, by its bits.
    Float(u64),
}

/// The number type of `serde_json`.
#[verifier::external_type_specification]
#[verifier::external_body]
pub struct ExNumber(serde_json::Number);

/// What a number of `serde_json` holds.
pub uninterp spec fn number_kind(number: serde_json::Number) -> NumberKind;

/// The bits of the double that `serde_json::Number::as_f64` gives for a
/// non-zero integer.
pub uninterp spec fn nearest_double(n: int) -> u64;

/// The single-precision number that `serde` reads from a JSON number, as the
/// bits of the double that equals it.
pub uninterp spec fn single_bits(kind: NumberKind) -> u64;

/// What `Display` prints for a finite double.
pub uninterp spec fn double_text(bits: u64) -> Seq<char>;

/// What `{:.3}` prints for a finite double.
pub uninterp spec fn double_fixed_text(bits: u64) -> Seq<char>;

/// The bits of a JSON number read as a double.
pub open spec fn real_bits(kind: NumberKind) -> u64 {
    match kind {
        NumberKind::PosInt(n) => if n == 0 {
            0
        } else {
            nearest_double(n as int)
        },
        NumberKind::NegInt(n) => nearest_double(n as int),
        NumberKind::Float(bits) => bits,
    }
}

/// The bits of a double without its sign.
pub open spec fn magnitude(bits: u64) -> int {
    bits as int % 0x8000_0000_0000_0000
}

/// The place of a double that is not a NaN in the order of numbers: both
/// zeros have the same one.
pub open spec fn rank(bits: u64) -> int {
    if bits >= 0x8000_0000_0000_0000u64 {
        -magnitude(bits)
    } else {
        magnitude(bits)
    }
}

/// Whether the bits are those of a NaN.
pub open spec fn is_nan_bits(bits: u64) -> bool {
    magnitude(bits) > 0x7ff0_0000_0000_0000
}

/// Whether the bits are those of a finite number.
pub open spec fn is_finite_bits(bits: u64) -> bool {
    magnitude(bits) < 0x7ff0_0000_0000_0000
}

/// `a < b`; false where either is a NaN.
pub open spec fn real_lt(a: u64, b: u64) -> bool {
    !is_nan_bits(a) && !is_nan_bits(b) && rank(a) < rank(b)
}

/// `a <= b`; false where either is a NaN.
pub open spec fn real_le(a: u64, b: u64) -> bool {
    !is_nan_bits(a) && !is_nan_bits(b) && rank(a) <= rank(b)
}

/// `a == b`; false where either is a NaN.
pub open spec fn real_eq(a: u64, b: u64) -> bool {
    !is_nan_bits(a) && !is_nan_bits(b) && rank(a) == rank(b)
}

/// The lesser of two numbers; the other one where one is a NaN, and the
/// first where they are equal.
pub open spec fn real_min(a: u64, b: u64) -> u64 {
    if is_nan_bits(a) {
        b
    } else if !is_nan_bits(b) && rank(b) < rank(a) {
        b
    } else {
        a
    }
}

/// What `Display` prints for a double, finite or not.
pub open spec fn shown_text(bits: u64) -> Seq<char> {
    if is_nan_bits(bits) {
        "NaN"@
    } else if is_finite_bits(bits) {
        double_text(bits)
    } else if bits == 0x7ff0_0000_0000_0000u64 {
        "inf"@
    } else {
        "-inf"@
    }
}

/// What `{:.3}` prints for a double, finite or not.
pub open spec fn shown_fixed_text(bits: u64) -> Seq<char> {
    if is_finite_bits(bits) {
        double_fixed_text(bits)
    } else {
        shown_text(bits)
    }
}

/// Reads what a number of `serde_json` holds, with its `as_u64`, `as_i64` and
/// `as_f64`: the first is given for the integers from zero up, the second for
/// those below zero that are left, the third for the rest, which are finite
/// doubles.
#[verifier::external_body]
pub(crate) fn kind_of(number: &serde_json::Number) -> (r: NumberKind)
    ensures
        r == number_kind(*number),
        r matches NumberKind::Float(bits) ==> is_finite_bits(bits),
        r matches NumberKind::NegInt(n) ==> n < 0,
{
    match (number.as_u64(), number.as_i64()) {
        (Some(n), _) => NumberKind::PosInt(n),
        (None, Some(n)) => NumberKind::NegInt(n),
        (None, None) => NumberKind::Float(number.as_f64().unwrap_or_default().to_bits()),
    }
}

/// Makes a number of `serde_json` from an integer, with its `From<u64>`.
#[verifier::external_body]
pub(crate) fn integer(n: u64) -> (r: serde_json::Number)
    ensures
        number_kind(r) == NumberKind::PosInt(n),
{
    serde_json::Number::from(n)
}

/// Reads a number of `serde_json` as a double and writes it back as one, with
/// `as_f64`, which is always given, and `from_f64`, which takes every finite
/// double.
#[verifier::external_body]
pub(crate) fn to_float(number: &serde_json::Number) -> (r: serde_json::Number)
    ensures
        match number_kind(*number) {
            NumberKind::PosInt(n) => number_kind(r) == NumberKind::Float(
                if n == 0 {
                    0
                } else {
                    nearest_double(n as int)
                },
            ),
            NumberKind::NegInt(n) => number_kind(r) == NumberKind::Float(nearest_double(n as int)),
            NumberKind::Float(bits) => number_kind(r) == NumberKind::Float(bits),
        },
{
    serde_json::Number::from_f64(number.as_f64().unwrap_or_default()).unwrap_or(0u64.into())
}

/// Reads a number of `serde_json` in single precision, with
/// `serde_json::from_value`, and writes it back as a double, with the
/// `serialize_f32` of `serde_json::value::Serializer`. Where it is too large for
/// single precision it is read as the infinity of its sign, which is written as
/// `null`.
#[verifier::external_body]
fn to_single(number: &serde_json::Number) -> (r: Option<serde_json::Number>)
    ensures
        match r {
            Some(single) => number_kind(single) == NumberKind::Float(
                single_bits(number_kind(*number)),
            ),
            None => single_bits(number_kind(*number)) == if real_bits(number_kind(*number))
                >= 0x8000_0000_0000_0000u64 {
                0xfff0_0000_0000_0000u64
            } else {
                0x7ff0_0000_0000_0000u64
            },
        },
{
    let read = serde_json::from_value(serde_json::Value::Number(number.clone()));
    match read.and_then(|x| serde_json::value::Serializer.serialize_f32(x)) {
        Ok(serde_json::Value::Number(single)) => Some(single),
        _ => None,
    }
}

/// Copies a number of `serde_json`, with its `Clone`.
#[verifier::external_body]
pub(crate) fn copy_number(number: &serde_json::Number) -> (r: serde_json::Number)
    ensures
        number_kind(r) == number_kind(*number),
{
    number.clone()
}

/// Prints a number of `serde_json`, read as a double with `as_f64`, by the
/// `Display` of doubles.
#[verifier::external_body]
fn display(number: &serde_json::Number) -> (r: String)
    ensures
        r@ == double_text(real_bits(number_kind(*number))),
{
    format!("{}", number.as_f64().unwrap_or_default())
}

/// Prints a number of `serde_json`, read as a double with `as_f64`, with three
/// decimals.
#[verifier::external_body]
fn display_fixed(number: &serde_json::Number) -> (r: String)
    ensures
        r@ == double_fixed_text(real_bits(number_kind(*number))),
{
    format!("{:.3}", number.as_f64().unwrap_or_default())
}

/// A double-precision number.
///
/// Its view is its bits. A finite one also carries the JSON number that it is
/// written as.
#[derive(Debug)]
pub struct Real {
    bits: u64,
    raw: Option<serde_json::Number>,
}

impl View for Real {
    type V = u64;

    closed spec fn view(&self) -> u64 {
        self.bits
    }
}

impl Real {
    #[verifier::type_invariant]
    spec fn written_as_it_is(&self) -> bool {
        match self.raw {
            Some(number) => is_finite_bits(self.bits) && number_kind(number) == NumberKind::Float(
                self.bits,
            ),
            None => !is_finite_bits(self.bits),
        }
    }

    /// The double that a JSON number is read as.
    pub fn finite(number: &serde_json::Number) -> (r: Self)
        ensures
            r@ == real_bits(number_kind(*number)),
            is_finite_bits(r@),
    {
        let raw = to_float(number);
        match kind_of(&raw) {
            NumberKind::Float(bits) => Real { bits, raw: Some(raw) },
            _ => Real { bits: 0x7ff8_0000_0000_0000, raw: None },
        }
    }

    /// The single-precision number that a JSON number is read as.
    pub fn single(number: &serde_json::Number) -> (r: Self)
        ensures
            r@ == single_bits(number_kind(*number)),
    {
        let infinite = if Real::finite(number).bits >= 0x8000_0000_0000_0000 {
            Real { bits: 0xfff0_0000_0000_0000, raw: None }
        } else {
            Real { bits: 0x7ff0_0000_0000_0000, raw: None }
        };
        match to_single(number) {
            Some(raw) => match kind_of(&raw) {
                NumberKind::Float(bits) => Real { bits, raw: Some(raw) },
                _ => infinite,
            },
            None => infinite,
        }
    }

    /// The infinity or NaN with these bits, where they are those of one.
    pub fn non_finite(bits: u64) -> (r: Option<Self>)
        ensures
            r is Some == !is_finite_bits(bits),
            r matches Some(x) ==> x@ == bits,
    {
        if bits % 0x8000_0000_0000_0000 < 0x7ff0_0000_0000_0000 {
            None
        } else {
            Some(Real { bits, raw: None })
        }
    }

    /// Zero.
    pub fn zero() -> (r: Self)
        ensures
            r@ == 0,
    {
        let number = integer(0);
        Real::finite(&number)
    }

    /// The bits of the number.
    pub fn bits(&self) -> (r: u64)
        ensures
            r == self@,
    {
        self.bits
    }

    /// Whether this is not a number.
    pub fn is_nan(&self) -> (r: bool)
        ensures
            r == is_nan_bits(self@),
    {
        self.bits % 0x8000_0000_0000_0000 > 0x7ff0_0000_0000_0000
    }

    /// Whether this is neither an infinity nor a NaN.
    pub fn is_finite(&self) -> (r: bool)
        ensures
            r == is_finite_bits(self@),
    {
        self.bits % 0x8000_0000_0000_0000 < 0x7ff0_0000_0000_0000
    }

    fn place(&self) -> (r: i64)
        ensures
            r == rank(self@),
    {
        let size: i64 = (self.bits % 0x8000_0000_0000_0000) as i64;
        if self.bits >= 0x8000_0000_0000_0000 {
            -size
        } else {
            size
        }
    }

    /// Whether this is less than `other`.
    pub fn less_than(&self, other: &Real) -> (r: bool)
        ensures
            r == real_lt(self@, other@),
    {
        !self.is_nan() && !other.is_nan() && self.place() < other.place()
    }

    /// Whether this is at most `other`.
    pub fn at_most(&self, other: &Real) -> (r: bool)
        ensures
            r == real_le(self@, other@),
    {
        !self.is_nan() && !other.is_nan() && self.place() <= other.place()
    }

    /// Whether this and `other` are the same number.
    pub fn equals(&self, other: &Real) -> (r: bool)
        ensures
            r == real_eq(self@, other@),
    {
        !self.is_nan() && !other.is_nan() && self.place() == other.place()
    }

    /// The lesser of this and `other`; the other one where one is a NaN.
    pub fn lesser(self, other: Real) -> (r: Real)
        ensures
            r@ == real_min(self@, other@),
    {
        if self.is_nan() {
            other
        } else if other.less_than(&self) {
            other
        } else {
            self
        }
    }

    /// The JSON number that this is written as; `None` for an infinity or a
    /// NaN, which JSON has no number for.
    pub fn number(&self) -> (r: Option<serde_json::Number>)
        ensures
            r is Some == is_finite_bits(self@),
            r matches Some(number) ==> number_kind(number) == NumberKind::Float(self@),
    {
        proof {
            use_type_invariant(self);
        }
        match &self.raw {
            Some(number) => Some(copy_number(number)),
            None => None,
        }
    }

    /// The number as `Display` prints it.
    pub fn text(&self) -> (r: String)
        ensures
            r@ == shown_text(self@),
    {
        proof {
            use_type_invariant(self);
        }
        match &self.raw {
            Some(number) => display(number),
            None => if self.is_nan() {
                "NaN".to_owned()
            } else if self.bits == 0x7ff0_0000_0000_0000 {
                "inf".to_owned()
            } else {
                "-inf".to_owned()
            },
        }
    }

    /// The number with three decimals.
    pub fn fixed_text(&self) -> (r: String)
        ensures
            r@ == shown_fixed_text(self@),
    {
        proof {
            use_type_invariant(self);
        }
        match &self.raw {
            Some(number) => display_fixed(number),
            None => self.text(),
        }
    }
}

impl Clone for Real {
    fn clone(&self) -> (r: Self)
        ensures
            r@ == self@,
    {
        proof {
            use_type_invariant(self);
        }
        match &self.raw {
            Some(number) => Real { bits: self.bits, raw: Some(copy_number(number)) },
            None => Real { bits: self.bits, raw: None },
        }
    }
}

impl vstd::std_specs::cmp::PartialEqSpecImpl for Real {
    open spec fn obeys_eq_spec() -> bool {
        true
    }

    open spec fn eq_spec(&self, other: &Self) -> bool {
        real_eq(self@, other@)
    }
}

impl PartialEq for Real {
    fn eq(&self, other: &Self) -> (r: bool) {
        self.equals(other)
    }
}

/// The bits of a double are those of a NaN beyond the bits of an infinity of
/// either sign, and those of a finite number below them.
pub proof fn law_infinities_bound_the_finite_numbers(bits: u64)
    ensures
        is_nan_bits(bits) == (0x7ff0_0000_0000_0000 < bits < 0x8000_0000_0000_0000
            || 0xfff0_0000_0000_0000 < bits),
        is_finite_bits(bits) == (bits < 0x7ff0_0000_0000_0000 || 0x8000_0000_0000_0000 <= bits
            < 0xfff0_0000_0000_0000),
{
}

/// Doubles compare as the numbers that they are: those without a sign as their
/// bits do, those with one the other way round, one with a sign below one
/// without, the two zeros as equals, and a NaN with nothing.
pub proof fn law_doubles_compare_as_numbers(a: u64, b: u64)
    ensures
        a <= 0x7ff0_0000_0000_0000 && b <= 0x7ff0_0000_0000_0000 ==> {
            &&& real_lt(a, b) == (a < b)
            &&& real_le(a, b) == (a <= b)
            &&& real_eq(a, b) == (a == b)
        },
        0x8000_0000_0000_0000 <= a <= 0xfff0_0000_0000_0000 && 0x8000_0000_0000_0000 <= b
            <= 0xfff0_0000_0000_0000 ==> {
            &&& real_lt(a, b) == (a > b)
            &&& real_le(a, b) == (a >= b)
            &&& real_eq(a, b) == (a == b)
        },
        0x8000_0000_0000_0000 <= a <= 0xfff0_0000_0000_0000 && b <= 0x7ff0_0000_0000_0000 ==> {
            let zeros = a == 0x8000_0000_0000_0000 && b == 0;
            &&& real_lt(a, b) == !zeros
            &&& real_le(a, b)
            &&& real_eq(a, b) == zeros
            &&& !real_lt(b, a)
            &&& real_le(b, a) == zeros
            &&& real_eq(b, a) == zeros
        },
        is_nan_bits(a) || is_nan_bits(b) ==> !real_lt(a, b) && !real_le(a, b) && !real_eq(a, b),
{
}

/// The lesser of two doubles is one of them and not above either; of a NaN and
/// another one it is the other one, and of equal ones the first.
pub proof fn law_lesser_is_not_above_either(a: u64, b: u64)
    ensures
        is_nan_bits(a) ==> real_min(a, b) == b,
        is_nan_bits(b) && !is_nan_bits(a) ==> real_min(a, b) == a,
        !is_nan_bits(a) && !is_nan_bits(b) ==> {
            &&& real_le(real_min(a, b), a)
            &&& real_le(real_min(a, b), b)
            &&& real_min(a, b) == a || real_min(a, b) == b
            &&& real_le(a, b) ==> real_min(a, b) == a
        },
{
}

/// A JSON number that is written as a double is read as that double, and an
/// integer as the double nearest to it.
pub proof fn law_json_number_is_read_as_a_double(bits: u64, positive: u64, negative: i64)
    ensures
        real_bits(NumberKind::Float(bits)) == bits,
        real_bits(NumberKind::PosInt(0)) == 0,
        positive > 0 ==> real_bits(NumberKind::PosInt(positive)) == nearest_double(
            positive as int,
        ),
        real_bits(NumberKind::NegInt(negative)) == nearest_double(negative as int),
{
}

/// A finite double is shown by its digits; an infinity and a NaN have names,
/// whatever the number of decimals.
pub proof fn law_doubles_are_shown(bits: u64)
    ensures
        is_finite_bits(bits) ==> shown_text(bits) == double_text(bits) && shown_fixed_text(bits)
            == double_fixed_text(bits),
        bits == 0x7ff0_0000_0000_0000 ==> shown_text(bits) == "inf"@,
        bits == 0xfff0_0000_0000_0000 ==> shown_text(bits) == "-inf"@,
        is_nan_bits(bits) ==> shown_text(bits) == "NaN"@,
        !is_finite_bits(bits) ==> shown_fixed_text(bits) == shown_text(bits),
{
}

/// `==` on numbers is their equality: the two zeros are equal, and a NaN equals
/// nothing.
pub proof fn law_equality_is_that_of_the_numbers(a: Real, b: Real)
    ensures
        a.eq_spec(&b) == real_eq(a@, b@),
{
}

} // verus!
