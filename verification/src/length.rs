//! Lengths: a numeral and a unit.

use vstd::prelude::*;
use crate::model::outcome;
use crate::number::{is_float_literal, Number};
use crate::text::{is_digit, str_eq, to_chars};

verus! {

/// How many pixels one `em` is.
pub const EM_HEIGHT: u32 = 16;

/// The unit of a length.
#[derive(Debug, PartialEq, Eq, Clone, Copy, Structural)]
pub enum CssMetric {
    /// Pixels.
    Px,
    /// Multiples of the font size.
    Em,
}

impl CssMetric {
    /// How many pixels one unit is.
    pub open spec fn pixels_per_unit(self) -> nat {
        match self {
            CssMetric::Px => 1,
            CssMetric::Em => 16,
        }
    }
}

/// A length as it was written: a numeral and its unit.
#[derive(Debug, PartialEq, Eq, Clone, Copy)]
pub struct PixelValue<'a> {
    pub metric: CssMetric,
    pub number: Number<'a>,
}

/// What a `PixelValue` stands for.
pub ghost struct Length {
    pub metric: CssMetric,
    pub number: Seq<char>,
}

impl<'a> View for PixelValue<'a> {
    type V = Length;

    open spec fn view(&self) -> Length {
        Length { metric: self.metric, number: self.number@ }
    }
}

/// An amount of pixels: `scale` times what `number` says.
#[derive(Debug, PartialEq, Eq, Clone, Copy)]
pub struct Pixels<'a> {
    pub number: Number<'a>,
    pub scale: u32,
}

/// What a `Pixels` stands for.
pub ghost struct PixelAmount {
    pub number: Seq<char>,
    pub scale: nat,
}

impl<'a> View for Pixels<'a> {
    type V = PixelAmount;

    open spec fn view(&self) -> PixelAmount {
        PixelAmount { number: self.number@, scale: self.scale as nat }
    }
}

impl Length {
    /// The length in pixels: the numeral, taken once for a pixel and 16 times
    /// for an `em`.
    pub open spec fn to_pixels(self) -> PixelAmount {
        PixelAmount { number: self.number, scale: self.metric.pixels_per_unit() }
    }
}

impl PixelAmount {
    /// No pixels at all.
    pub open spec fn zero() -> PixelAmount {
        PixelAmount { number: seq!['0'], scale: 1 }
    }

    /// One pixel.
    pub open spec fn one() -> PixelAmount {
        PixelAmount { number: seq!['1'], scale: 1 }
    }
}

impl<'a> PixelValue<'a> {
    /// The length in pixels.
    pub fn to_pixels(&self) -> (p: Pixels<'a>)
        ensures
            p@ == self@.to_pixels(),
    {
        match self.metric {
            CssMetric::Px => Pixels { number: self.number, scale: 1 },
            CssMetric::Em => Pixels { number: self.number, scale: EM_HEIGHT },
        }
    }
}

impl<'a> Pixels<'a> {
    /// No pixels at all.
    pub fn zero() -> (p: Pixels<'static>)
        ensures
            p@ == PixelAmount::zero(),
    {
        Pixels { number: Number::zero(), scale: 1 }
    }

    /// One pixel.
    pub fn one() -> (p: Pixels<'static>)
        ensures
            p@ == PixelAmount::one(),
    {
        Pixels { number: Number::one(), scale: 1 }
    }
}

/// Why a length, or a list of radii, was not accepted.
#[derive(Debug, PartialEq, Eq, Clone, Copy)]
pub enum CssBorderRadiusParseError<'a> {
    /// The value has no radius or more than four; holds the whole value.
    TooManyValues(&'a str),
    /// The unit is neither `px` nor `em`; holds what stands in the unit's place.
    InvalidComponent(&'a str),
    /// What stands before the unit is no numeral; holds it.
    ValueParseErr(&'a str),
    /// `InvalidComponent` for one radius of a list: holds the place of the
    /// radius in the list, counted from 0, and what stands in its unit's
    /// place.
    InvalidComponentAt(usize, &'a str),
    /// `ValueParseErr` for one radius of a list: holds the place of the
    /// radius in the list, counted from 0, and what stands before its unit.
    ValueParseErrAt(usize, &'a str),
}

/// What a `CssBorderRadiusParseError` stands for.
pub ghost enum BorderRadiusError {
    TooManyValues(Seq<char>),
    InvalidComponent(Seq<char>),
    ValueParseErr(Seq<char>),
    InvalidComponentAt(nat, Seq<char>),
    ValueParseErrAt(nat, Seq<char>),
}

impl BorderRadiusError {
    /// The error of a length, as the error of the radius at place `slot` of
    /// a list: the same cause with the same text, and the place with it.
    pub open spec fn at(self, slot: nat) -> BorderRadiusError {
        match self {
            BorderRadiusError::InvalidComponent(unit) => BorderRadiusError::InvalidComponentAt(
                slot,
                unit,
            ),
            BorderRadiusError::ValueParseErr(numeral) => BorderRadiusError::ValueParseErrAt(
                slot,
                numeral,
            ),
            other => other,
        }
    }
}

impl<'a> View for CssBorderRadiusParseError<'a> {
    type V = BorderRadiusError;

    open spec fn view(&self) -> BorderRadiusError {
        match *self {
            CssBorderRadiusParseError::TooManyValues(s) => BorderRadiusError::TooManyValues(s@),
            CssBorderRadiusParseError::InvalidComponent(s) => BorderRadiusError::InvalidComponent(
                s@,
            ),
            CssBorderRadiusParseError::ValueParseErr(s) => BorderRadiusError::ValueParseErr(s@),
            CssBorderRadiusParseError::InvalidComponentAt(
                slot,
                s,
            ) => BorderRadiusError::InvalidComponentAt(slot as nat, s@),
            CssBorderRadiusParseError::ValueParseErrAt(
                slot,
                s,
            ) => BorderRadiusError::ValueParseErrAt(slot as nat, s@),
        }
    }
}

impl<'a> CssBorderRadiusParseError<'a> {
    /// The error of a length, as the error of the radius at place `slot` of
    /// a list.
    pub fn at(self, slot: usize) -> (r: CssBorderRadiusParseError<'a>)
        ensures
            r@ == self@.at(slot as nat),
    {
        match self {
            CssBorderRadiusParseError::InvalidComponent(unit) => {
                CssBorderRadiusParseError::InvalidComponentAt(slot, unit)
            },
            CssBorderRadiusParseError::ValueParseErr(numeral) => {
                CssBorderRadiusParseError::ValueParseErrAt(slot, numeral)
            },
            other => other,
        }
    }
}

/// The first index at or after `i` that holds neither a digit nor a point, or
/// the length of `s`.
pub open spec fn numeral_end(s: Seq<char>, i: int) -> int
    decreases s.len() - i,
{
    if i < 0 || i >= s.len() || !(is_digit(s[i]) || s[i] == '.') {
        i
    } else {
        numeral_end(s, i + 1)
    }
}

/// The leading run of digits and points of `s`: the numeral of a length.
pub open spec fn numeral_part(s: Seq<char>) -> Seq<char> {
    s.subrange(0, numeral_end(s, 0))
}

/// What follows the leading run of digits and points of `s`: the unit of a
/// length.
pub open spec fn unit_part(s: Seq<char>) -> Seq<char> {
    s.subrange(numeral_end(s, 0), s.len() as int)
}

/// The length that `s` is.
///
/// The unit is looked at first: unless it is `px` or `em`, `s` is refused for
/// its unit. Then the numeral must be well formed.
pub open spec fn length_of(s: Seq<char>) -> Result<Length, BorderRadiusError> {
    if unit_part(s) == "px"@ {
        if is_float_literal(numeral_part(s)) {
            Ok(Length { metric: CssMetric::Px, number: numeral_part(s) })
        } else {
            Err(BorderRadiusError::ValueParseErr(numeral_part(s)))
        }
    } else if unit_part(s) == "em"@ {
        if is_float_literal(numeral_part(s)) {
            Ok(Length { metric: CssMetric::Em, number: numeral_part(s) })
        } else {
            Err(BorderRadiusError::ValueParseErr(numeral_part(s)))
        }
    } else {
        Err(BorderRadiusError::InvalidComponent(unit_part(s)))
    }
}

/// The numeral of a length ends within the text.
pub proof fn lemma_numeral_end_bounds(s: Seq<char>, i: int)
    requires
        0 <= i <= s.len(),
    ensures
        i <= numeral_end(s, i) <= s.len(),
    decreases s.len() - i,
{
    if i < s.len() && (is_digit(s[i]) || s[i] == '.') {
        lemma_numeral_end_bounds(s, i + 1);
    }
}

/// A value without a unit, or with a unit that is not known, is never a
/// length.
pub proof fn lemma_length_needs_unit(s: Seq<char>)
    requires
        unit_part(s) != "px"@,
        unit_part(s) != "em"@,
    ensures
        length_of(s) == Err::<Length, BorderRadiusError>(
            BorderRadiusError::InvalidComponent(unit_part(s)),
        ),
{
}

/// The suffix that marks the unit.
pub open spec fn unit_text(metric: CssMetric) -> Seq<char> {
    match metric {
        CssMetric::Px => "px"@,
        CssMetric::Em => "em"@,
    }
}

/// The length as it is written: its numeral, then its unit.
pub open spec fn length_text(l: Length) -> Seq<char> {
    l.number + unit_text(l.metric)
}

/// Whether `s` holds digits and points only.
pub open spec fn is_unsigned(s: Seq<char>) -> bool {
    forall|i: int| 0 <= i < s.len() ==> is_digit(#[trigger] s[i]) || s[i] == '.'
}

/// The numeral of a length that is accepted holds digits and points only: it
/// has no sign, so no length is below zero.
pub proof fn lemma_length_is_unsigned(s: Seq<char>)
    requires
        length_of(s) is Ok,
    ensures
        is_unsigned((length_of(s)->Ok_0).number),
        is_float_literal((length_of(s)->Ok_0).number),
{
    lemma_numeral_end_run(s, 0);
}

/// The numeral of a length holds digits and points only, and ends at what
/// is neither or at the end of the text.
proof fn lemma_numeral_end_run(s: Seq<char>, i: int)
    requires
        0 <= i <= s.len(),
    ensures
        i <= numeral_end(s, i) <= s.len(),
        forall|k: int| i <= k < numeral_end(s, i) ==> is_digit(#[trigger] s[k]) || s[k] == '.',
        numeral_end(s, i) < s.len() ==> !(is_digit(s[numeral_end(s, i)]) || s[numeral_end(s, i)]
            == '.'),
    decreases s.len() - i,
{
    if i < s.len() && (is_digit(s[i]) || s[i] == '.') {
        lemma_numeral_end_run(s, i + 1);
    }
}

/// Where a numeral of digits and points is followed by a unit, it ends
/// where the unit starts.
proof fn lemma_numeral_end_of_text(number: Seq<char>, unit: Seq<char>, i: int)
    requires
        is_unsigned(number),
        unit.len() == 0 || !(is_digit(unit[0]) || unit[0] == '.'),
        0 <= i <= number.len(),
    ensures
        numeral_end(number + unit, i) == number.len(),
    decreases number.len() - i,
{
    let s = number + unit;
    if i < number.len() {
        assert(s[i] == number[i]);
        lemma_numeral_end_of_text(number, unit, i + 1);
    } else if unit.len() > 0 {
        assert(s[i] == unit[0]);
    }
}

/// A length that is accepted is written as it was read: its text is the
/// input.
pub proof fn lemma_length_text_of_parsed(s: Seq<char>)
    requires
        length_of(s) is Ok,
    ensures
        length_text(length_of(s)->Ok_0) == s,
{
    lemma_numeral_end_bounds(s, 0);
    assert(numeral_part(s) + unit_part(s) =~= s);
}

/// A length that is written out and read again is the same length, if its
/// numeral is well formed and holds digits and points only.
pub proof fn lemma_length_text_round_trip(l: Length)
    requires
        is_unsigned(l.number),
        is_float_literal(l.number),
    ensures
        length_of(length_text(l)) == Ok::<Length, BorderRadiusError>(l),
{
    reveal_strlit("px");
    reveal_strlit("em");
    let unit = unit_text(l.metric);
    let s = length_text(l);
    lemma_numeral_end_of_text(l.number, unit, 0);
    assert(numeral_part(s) =~= l.number);
    assert(unit_part(s) =~= unit);
    assert("px"@ != "em"@) by {
        assert("px"@[0] != "em"@[0]);
    }
}

/// A single length such as `15px` or `1.2em`.
pub fn parse_pixel_value<'a>(input: &'a str) -> (r: Result<
    PixelValue<'a>,
    CssBorderRadiusParseError<'a>,
>)
    ensures
        outcome(r) == length_of(input@),
        r is Ok ==> unit_part(input@) == "px"@ || unit_part(input@) == "em"@,
        r matches Err(e) ==> e is InvalidComponent || e is ValueParseErr,
{
    let chars = to_chars(input);
    let n = chars.len();
    let mut k: usize = 0;
    while k < n && (('0' <= chars[k] && chars[k] <= '9') || chars[k] == '.')
        invariant
            k <= n,
            n == chars.len(),
            numeral_end(chars@, 0) == numeral_end(chars@, k as int),
        decreases n - k,
    {
        k += 1;
    }
    let unit = input.substring_char(k, n);
    let text = input.substring_char(0, k);
    let metric = if str_eq(unit, "px") {
        CssMetric::Px
    } else if str_eq(unit, "em") {
        CssMetric::Em
    } else {
        return Err(CssBorderRadiusParseError::InvalidComponent(unit));
    };
    match Number::new(text) {
        Some(number) => Ok(PixelValue { metric, number }),
        None => Err(CssBorderRadiusParseError::ValueParseErr(text)),
    }
}

} // verus!
