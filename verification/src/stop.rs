//! The color stops of a gradient.

use vstd::prelude::*;
use crate::color::{color_of, parse_css_color, ColorError, ColorU, CssColorParseError};
use crate::model::outcome;
use crate::number::{is_float_literal, Number};
use crate::offset::{numeral_view, Position, StopOffset};
use crate::text::{ends_with, split_whitespace, strip_suffix, texts, without_suffix, words};

verus! {

/// A color stop of a gradient: a color, and where it lies if that is known.
#[derive(Debug, PartialEq, Eq, Clone, Copy)]
pub struct GradientStopPre<'a> {
    /// Nothing where the stop was written without a place.
    pub offset: Option<StopOffset<'a>>,
    pub color: ColorU,
}

/// What a `GradientStopPre` stands for.
pub ghost struct GradientStop {
    pub offset: Option<Position>,
    pub color: ColorU,
}

impl<'a> View for GradientStopPre<'a> {
    type V = GradientStop;

    open spec fn view(&self) -> GradientStop {
        GradientStop {
            offset: match self.offset {
                Some(o) => Some(o@),
                None => None,
            },
            color: self.color,
        }
    }
}

/// Why a color stop was not accepted.
#[derive(Debug, PartialEq, Eq, Clone, Copy)]
pub enum CssGradientStopParseError<'a> {
    /// The stop has no word; holds its whole text.
    Error(&'a str),
    /// The first word of the stop is no color.
    ColorParseError(CssColorParseError<'a>),
}

/// What a `CssGradientStopParseError` stands for.
pub ghost enum GradientStopError {
    Error(Seq<char>),
    ColorParseError(ColorError),
}

impl<'a> View for CssGradientStopParseError<'a> {
    type V = GradientStopError;

    open spec fn view(&self) -> GradientStopError {
        match *self {
            CssGradientStopParseError::Error(s) => GradientStopError::Error(s@),
            CssGradientStopParseError::ColorParseError(e) => GradientStopError::ColorParseError(e@),
        }
    }
}

/// The number of a percentage: what stands before the sign `%` at the end of
/// `s`, if `s` ends so and that is a well-formed numeral.
pub open spec fn percentage_of(s: Seq<char>) -> Option<Seq<char>> {
    if ends_with(s, "%"@) && is_float_literal(without_suffix(s, "%"@)) {
        Some(without_suffix(s, "%"@))
    } else {
        None
    }
}

/// What a color stop says when it is read: its color, and the number of its
/// percentage if it has one.
pub ghost struct StopParts {
    pub color: ColorU,
    pub percent: Option<Seq<char>>,
}

impl StopParts {
    /// The stop of these parts: it lies where its percentage says, if it has
    /// one.
    pub open spec fn stop(self) -> GradientStop {
        GradientStop {
            offset: match self.percent {
                Some(p) => Some(Position::at(p)),
                None => None,
            },
            color: self.color,
        }
    }
}

/// The parts of the color stop that `s` is: a color, and after it perhaps a
/// percentage. A second word that is no percentage leaves the stop without a
/// place, and what follows the second word is not looked at.
pub open spec fn stop_parts_of(s: Seq<char>) -> Result<StopParts, GradientStopError> {
    let w = words(s);
    if w.len() == 0 {
        Err(GradientStopError::Error(s))
    } else {
        match color_of(w[0]) {
            Err(e) => Err(GradientStopError::ColorParseError(e)),
            Ok(color) => if w.len() == 1 {
                Ok(StopParts { color, percent: None })
            } else {
                Ok(StopParts { color, percent: percentage_of(w[1]) })
            },
        }
    }
}

/// The color stop that `s` is.
pub open spec fn stop_of(s: Seq<char>) -> Result<GradientStop, GradientStopError> {
    match stop_parts_of(s) {
        Err(e) => Err(e),
        Ok(parts) => Ok(parts.stop()),
    }
}

/// The number of a percentage such as `5%`.
pub fn parse_percentage<'a>(input: &'a str) -> (r: Option<Number<'a>>)
    ensures
        numeral_view(r) == percentage_of(input@),
{
    match strip_suffix(input, "%") {
        Some(numeral) => Number::new(numeral),
        None => None,
    }
}

/// What the parts of a stop stand for.
pub open spec fn parts_view(parts: (ColorU, Option<Number>)) -> StopParts {
    StopParts { color: parts.0, percent: numeral_view(parts.1) }
}

/// The color of a color stop, and the number of its percentage if it has one.
pub(crate) fn parse_stop_parts<'a>(input: &'a str) -> (r: Result<
    (ColorU, Option<Number<'a>>),
    CssGradientStopParseError<'a>,
>)
    ensures
        match r {
            Ok(parts) => stop_parts_of(input@) == Ok::<StopParts, GradientStopError>(
                parts_view(parts),
            ),
            Err(e) => stop_parts_of(input@) == Err::<StopParts, GradientStopError>(e@),
        },
{
    let words = split_whitespace(input);
    if words.len() == 0 {
        return Err(CssGradientStopParseError::Error(input));
    }
    assert(words@[0]@ == texts(words@)[0]);
    let color = match parse_css_color(words[0]) {
        Ok(c) => c,
        Err(e) => {
            return Err(CssGradientStopParseError::ColorParseError(e));
        },
    };
    if words.len() == 1 {
        return Ok((color, None));
    }
    assert(words@[1]@ == texts(words@)[1]);
    Ok((color, parse_percentage(words[1])))
}

/// A color stop such as `red` or `red 5%`.
pub fn parse_gradient_stop<'a>(input: &'a str) -> (r: Result<
    GradientStopPre<'a>,
    CssGradientStopParseError<'a>,
>)
    ensures
        outcome(r) == stop_of(input@),
{
    match parse_stop_parts(input) {
        Ok((color, Some(p))) => Ok(GradientStopPre { offset: Some(StopOffset::at(p)), color }),
        Ok((color, None)) => Ok(GradientStopPre { offset: None, color }),
        Err(e) => Err(e),
    }
}

} // verus!
