//! The direction of a linear gradient: an angle, or the way from one edge or
//! corner to the one across.

use vstd::prelude::*;
use crate::corner::{
    corner_of, parse_direction_corner, CornerError, CssDirectionCornerParseError, DirectionCorner,
};
use crate::model::outcome;
use crate::number::{is_float_literal, Number};
use crate::text::{ends_with, split_whitespace, str_eq, strip_suffix, texts, without_suffix, words};

verus! {

/// The unit of an angle.
#[derive(Debug, PartialEq, Eq, Clone, Copy, Structural)]
pub enum AngleUnit {
    /// Degrees: 360 to the full turn.
    Deg,
    /// Radians: twice pi to the full turn.
    Rad,
    /// Gradians: 400 to the full turn.
    Grad,
}

impl AngleUnit {
    /// The suffix that marks the unit.
    pub open spec fn suffix(self) -> Seq<char> {
        match self {
            AngleUnit::Deg => "deg"@,
            AngleUnit::Rad => "rad"@,
            AngleUnit::Grad => "grad"@,
        }
    }
}

/// An angle as it was written: a numeral and its unit.
#[derive(Debug, PartialEq, Eq, Clone, Copy)]
pub struct Angle<'a> {
    pub number: Number<'a>,
    pub unit: AngleUnit,
}

/// What an `Angle` stands for.
pub ghost struct AngleMeasure {
    pub number: Seq<char>,
    pub unit: AngleUnit,
}

impl<'a> View for Angle<'a> {
    type V = AngleMeasure;

    open spec fn view(&self) -> AngleMeasure {
        AngleMeasure { number: self.number@, unit: self.unit }
    }
}

/// The direction of a linear gradient.
#[derive(Debug, PartialEq, Eq, Clone, Copy)]
pub enum Direction<'a> {
    /// The gradient runs at this angle.
    Angle(Angle<'a>),
    /// The gradient runs from the first edge or corner to the second.
    FromTo(DirectionCorner, DirectionCorner),
}

/// What a `Direction` stands for.
pub ghost enum GradientLine {
    Angle(AngleMeasure),
    FromTo(DirectionCorner, DirectionCorner),
}

impl<'a> View for Direction<'a> {
    type V = GradientLine;

    open spec fn view(&self) -> GradientLine {
        match *self {
            Direction::Angle(a) => GradientLine::Angle(a@),
            Direction::FromTo(from, to) => GradientLine::FromTo(from, to),
        }
    }
}

impl GradientLine {
    /// From the top to the bottom: the direction of a gradient that names
    /// none.
    pub open spec fn downwards() -> GradientLine {
        GradientLine::FromTo(DirectionCorner::Top, DirectionCorner::Bottom)
    }

    /// The way to `end` from what lies across.
    pub open spec fn towards(end: DirectionCorner) -> GradientLine {
        GradientLine::FromTo(end.opposite(), end)
    }
}

/// Why a direction was not accepted.
#[derive(Debug, PartialEq, Eq, Clone, Copy)]
pub enum CssDirectionParseError<'a> {
    /// There is no word at all, or none after `to`, or the two edges after
    /// `to` do not meet in a corner; holds the whole text.
    Error(&'a str),
    /// The first word is neither an angle nor `to`, or words follow an
    /// angle, or more than two words follow `to`; holds the whole text.
    InvalidArguments(&'a str),
    /// What stands before the unit of an angle is no numeral; holds it.
    ParseFloat(&'a str),
    /// A word after `to` names no edge.
    CornerError(CssDirectionCornerParseError<'a>),
}

/// What a `CssDirectionParseError` stands for.
pub ghost enum DirectionError {
    Error(Seq<char>),
    InvalidArguments(Seq<char>),
    ParseFloat(Seq<char>),
    CornerError(CornerError),
}

impl<'a> View for CssDirectionParseError<'a> {
    type V = DirectionError;

    open spec fn view(&self) -> DirectionError {
        match *self {
            CssDirectionParseError::Error(s) => DirectionError::Error(s@),
            CssDirectionParseError::InvalidArguments(s) => DirectionError::InvalidArguments(s@),
            CssDirectionParseError::ParseFloat(s) => DirectionError::ParseFloat(s@),
            CssDirectionParseError::CornerError(e) => DirectionError::CornerError(e@),
        }
    }
}

/// The error of a direction one of whose edges was not accepted.
impl<'a> From<CssDirectionCornerParseError<'a>> for CssDirectionParseError<'a> {
    fn from(e: CssDirectionCornerParseError<'a>) -> (r: Self) {
        CssDirectionParseError::CornerError(e)
    }
}

impl<'a> vstd::std_specs::convert::FromSpecImpl<CssDirectionCornerParseError<'a>> for CssDirectionParseError<'a> {
    open spec fn obeys_from_spec() -> bool {
        true
    }

    open spec fn from_spec(e: CssDirectionCornerParseError<'a>) -> Self {
        CssDirectionParseError::CornerError(e)
    }
}

/// The unit that marks the word `word` as an angle, if it ends in one. A word
/// that ends in `grad` is in gradians, not in radians.
pub open spec fn angle_unit_of(word: Seq<char>) -> Option<AngleUnit> {
    if ends_with(word, "deg"@) {
        Some(AngleUnit::Deg)
    } else if ends_with(word, "grad"@) {
        Some(AngleUnit::Grad)
    } else if ends_with(word, "rad"@) {
        Some(AngleUnit::Rad)
    } else {
        None
    }
}

/// The angle that `word` is, which ends in the suffix of `unit`.
pub open spec fn angle_of(word: Seq<char>, unit: AngleUnit) -> Result<GradientLine, DirectionError> {
    let numeral = without_suffix(word, unit.suffix());
    if is_float_literal(numeral) {
        Ok(GradientLine::Angle(AngleMeasure { number: numeral, unit }))
    } else {
        Err(DirectionError::ParseFloat(numeral))
    }
}

/// The direction that the words after `to` give, where `w` holds `to` and at
/// least one more word, and `s` is the whole text.
///
/// One edge gives the way to it from the edge across. Two edges that meet
/// give the way to their corner from the corner across.
pub open spec fn way_of(w: Seq<Seq<char>>, s: Seq<char>) -> Result<GradientLine, DirectionError> {
    match corner_of(w[1]) {
        Err(e) => Err(DirectionError::CornerError(e)),
        Ok(first) => if w.len() == 2 {
            Ok(GradientLine::towards(first))
        } else if w.len() == 3 {
            match corner_of(w[2]) {
                Err(e) => Err(DirectionError::CornerError(e)),
                Ok(second) => match first.combine(&second) {
                    None => Err(DirectionError::Error(s)),
                    Some(corner) => Ok(GradientLine::towards(corner)),
                },
            }
        } else {
            Err(DirectionError::InvalidArguments(s))
        },
    }
}

/// The direction that `s` is.
///
/// If the first word ends in `deg`, `grad` or `rad`, it is an angle, and
/// must be the only word. Otherwise the first word must be `to`, and one or
/// two edges follow.
pub open spec fn direction_of(s: Seq<char>) -> Result<GradientLine, DirectionError> {
    let w = words(s);
    if w.len() == 0 {
        Err(DirectionError::Error(s))
    } else {
        match angle_unit_of(w[0]) {
            Some(unit) => if w.len() == 1 {
                angle_of(w[0], unit)
            } else {
                Err(DirectionError::InvalidArguments(s))
            },
            None => if w[0] != "to"@ {
                Err(DirectionError::InvalidArguments(s))
            } else if w.len() < 2 {
                Err(DirectionError::Error(s))
            } else {
                way_of(w, s)
            },
        }
    }
}

/// An angle stands alone: a direction that is an angle has one word, and
/// that word ends in the unit of the angle.
pub proof fn lemma_angle_stands_alone(s: Seq<char>)
    ensures
        direction_of(s) matches Ok(GradientLine::Angle(m)) ==> words(s).len() == 1
            && angle_unit_of(words(s)[0]) == Some(m.unit) && m.number == without_suffix(
            words(s)[0],
            m.unit.suffix(),
        ),
{
}

/// A direction that names edges always leads from an edge or corner to the
/// one across.
pub proof fn lemma_direction_leads_across(s: Seq<char>)
    ensures
        direction_of(s) matches Ok(GradientLine::FromTo(from, to)) ==> from == to.opposite() && to
            == from.opposite(),
{
    match direction_of(s) {
        Ok(GradientLine::FromTo(from, to)) => {
            to.lemma_opposite_involution();
        },
        _ => {},
    }
}

/// The angle that `numeral` and `unit` make, if the numeral is well formed.
fn angle<'a>(numeral: &'a str, unit: AngleUnit) -> (r: Result<
    Direction<'a>,
    CssDirectionParseError<'a>,
>)
    ensures
        outcome(r) == (if is_float_literal(numeral@) {
            Ok::<GradientLine, DirectionError>(
                GradientLine::Angle(AngleMeasure { number: numeral@, unit }),
            )
        } else {
            Err::<GradientLine, DirectionError>(DirectionError::ParseFloat(numeral@))
        }),
{
    match Number::new(numeral) {
        Some(number) => Ok(Direction::Angle(Angle { number, unit })),
        None => Err(CssDirectionParseError::ParseFloat(numeral)),
    }
}

/// A direction such as `50deg` or `to bottom right`.
pub fn parse_direction<'a>(input: &'a str) -> (r: Result<Direction<'a>, CssDirectionParseError<'a>>)
    ensures
        outcome(r) == direction_of(input@),
{
    let words = split_whitespace(input);
    let count = words.len();
    if count == 0 {
        return Err(CssDirectionParseError::Error(input));
    }
    let first = words[0];
    assert(first@ == texts(words@)[0]);
    let angle_parts = if let Some(numeral) = strip_suffix(first, "deg") {
        Some((numeral, AngleUnit::Deg))
    } else if let Some(numeral) = strip_suffix(first, "grad") {
        Some((numeral, AngleUnit::Grad))
    } else if let Some(numeral) = strip_suffix(first, "rad") {
        Some((numeral, AngleUnit::Rad))
    } else {
        None
    };
    if let Some((numeral, unit)) = angle_parts {
        if count > 1 {
            return Err(CssDirectionParseError::InvalidArguments(input));
        }
        return angle(numeral, unit);
    }
    if !str_eq(first, "to") {
        return Err(CssDirectionParseError::InvalidArguments(input));
    }
    if count < 2 {
        return Err(CssDirectionParseError::Error(input));
    }
    assert(words@[1]@ == texts(words@)[1]);
    let end = match parse_direction_corner(words[1]) {
        Ok(c) => c,
        Err(e) => {
            return Err(CssDirectionParseError::CornerError(e));
        },
    };
    if count == 2 {
        Ok(Direction::FromTo(end.opposite(), end))
    } else if count == 3 {
        assert(words@[2]@ == texts(words@)[2]);
        let second = match parse_direction_corner(words[2]) {
            Ok(c) => c,
            Err(e) => {
                return Err(CssDirectionParseError::CornerError(e));
            },
        };
        match end.combine(&second) {
            Some(corner) => Ok(Direction::FromTo(corner.opposite(), corner)),
            None => Err(CssDirectionParseError::Error(input)),
        }
    } else {
        Err(CssDirectionParseError::InvalidArguments(input))
    }
}

} // verus!
