//! The shapes of a radial gradient.

use vstd::prelude::*;
use crate::model::outcome;
use crate::text::str_eq;

verus! {

/// The shape of a radial gradient.
#[derive(Debug, PartialEq, Eq, Clone, Copy, Structural)]
pub enum Shape {
    Ellipse,
    Circle,
}

impl View for Shape {
    type V = Shape;

    open spec fn view(&self) -> Shape {
        *self
    }
}

/// Why a shape was not accepted.
#[derive(Debug, PartialEq, Eq, Clone, Copy)]
pub enum CssShapeParseError<'a> {
    /// Holds the text that names no shape.
    InvalidShape(&'a str),
}

/// What a `CssShapeParseError` stands for.
pub ghost enum ShapeError {
    InvalidShape(Seq<char>),
}

impl<'a> View for CssShapeParseError<'a> {
    type V = ShapeError;

    open spec fn view(&self) -> ShapeError {
        match *self {
            CssShapeParseError::InvalidShape(s) => ShapeError::InvalidShape(s@),
        }
    }
}

/// The shape that `s` names: `circle` or `ellipse`, with nothing around it.
pub open spec fn shape_of(s: Seq<char>) -> Result<Shape, ShapeError> {
    if s == "circle"@ {
        Ok(Shape::Circle)
    } else if s == "ellipse"@ {
        Ok(Shape::Ellipse)
    } else {
        Err(ShapeError::InvalidShape(s))
    }
}

/// A shape by its name.
pub fn parse_shape<'a>(input: &'a str) -> (r: Result<Shape, CssShapeParseError<'a>>)
    ensures
        outcome(r) == shape_of(input@),
{
    if str_eq(input, "circle") {
        Ok(Shape::Circle)
    } else if str_eq(input, "ellipse") {
        Ok(Shape::Ellipse)
    } else {
        Err(CssShapeParseError::InvalidShape(input))
    }
}

} // verus!
