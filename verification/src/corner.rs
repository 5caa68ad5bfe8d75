//! The edges and corners of a rectangle, used to say where a gradient starts
//! and where it ends.

use vstd::prelude::*;
use crate::model::outcome;
use crate::text::str_eq;

verus! {

/// One of the four edges or of the four corners of a rectangle.
#[derive(Copy, Clone, Debug, PartialEq, Eq, Structural)]
pub enum DirectionCorner {
    Right,
    Left,
    Top,
    Bottom,
    TopRight,
    TopLeft,
    BottomRight,
    BottomLeft,
}

impl View for DirectionCorner {
    type V = DirectionCorner;

    open spec fn view(&self) -> DirectionCorner {
        *self
    }
}

impl DirectionCorner {
    /// Whether this is one of the four edges.
    pub open spec fn is_edge(&self) -> bool {
        *self is Right || *self is Left || *self is Top || *self is Bottom
    }

    /// Whether this is the left or the right edge.
    pub open spec fn is_side(&self) -> bool {
        *self is Right || *self is Left
    }

    /// Whether the two are edges that meet in a corner: one of them is the
    /// left or the right edge, the other the top or the bottom edge.
    pub open spec fn meets(&self, other: &DirectionCorner) -> bool {
        self.is_edge() && other.is_edge() && self.is_side() != other.is_side()
    }

    /// The reflection of an edge or a corner across the center of the
    /// rectangle.
    pub open spec fn spec_opposite(&self) -> DirectionCorner {
        match *self {
            DirectionCorner::Right => DirectionCorner::Left,
            DirectionCorner::Left => DirectionCorner::Right,
            DirectionCorner::Top => DirectionCorner::Bottom,
            DirectionCorner::Bottom => DirectionCorner::Top,
            DirectionCorner::TopRight => DirectionCorner::BottomLeft,
            DirectionCorner::BottomLeft => DirectionCorner::TopRight,
            DirectionCorner::TopLeft => DirectionCorner::BottomRight,
            DirectionCorner::BottomRight => DirectionCorner::TopLeft,
        }
    }

    /// The corner in which two edges meet, in either order; nothing for any
    /// other pair.
    pub open spec fn spec_combine(&self, other: &DirectionCorner) -> Option<DirectionCorner> {
        match (*self, *other) {
            (DirectionCorner::Right, DirectionCorner::Top) | (
                DirectionCorner::Top,
                DirectionCorner::Right,
            ) => Some(DirectionCorner::TopRight),
            (DirectionCorner::Left, DirectionCorner::Top) | (
                DirectionCorner::Top,
                DirectionCorner::Left,
            ) => Some(DirectionCorner::TopLeft),
            (DirectionCorner::Right, DirectionCorner::Bottom) | (
                DirectionCorner::Bottom,
                DirectionCorner::Right,
            ) => Some(DirectionCorner::BottomRight),
            (DirectionCorner::Left, DirectionCorner::Bottom) | (
                DirectionCorner::Bottom,
                DirectionCorner::Left,
            ) => Some(DirectionCorner::BottomLeft),
            _ => None,
        }
    }

    /// The reflection of this edge or corner across the center.
    #[verifier::when_used_as_spec(spec_opposite)]
    pub fn opposite(&self) -> (r: DirectionCorner)
        ensures
            r == self.spec_opposite(),
    {
        match *self {
            DirectionCorner::Right => DirectionCorner::Left,
            DirectionCorner::Left => DirectionCorner::Right,
            DirectionCorner::Top => DirectionCorner::Bottom,
            DirectionCorner::Bottom => DirectionCorner::Top,
            DirectionCorner::TopRight => DirectionCorner::BottomLeft,
            DirectionCorner::BottomLeft => DirectionCorner::TopRight,
            DirectionCorner::TopLeft => DirectionCorner::BottomRight,
            DirectionCorner::BottomRight => DirectionCorner::TopLeft,
        }
    }

    /// The corner in which this edge and `other` meet, if they do.
    #[verifier::when_used_as_spec(spec_combine)]
    pub fn combine(&self, other: &DirectionCorner) -> (r: Option<DirectionCorner>)
        ensures
            r == self.spec_combine(other),
            r is Some <==> self.meets(other),
    {
        match (*self, *other) {
            (DirectionCorner::Right, DirectionCorner::Top) | (
                DirectionCorner::Top,
                DirectionCorner::Right,
            ) => Some(DirectionCorner::TopRight),
            (DirectionCorner::Left, DirectionCorner::Top) | (
                DirectionCorner::Top,
                DirectionCorner::Left,
            ) => Some(DirectionCorner::TopLeft),
            (DirectionCorner::Right, DirectionCorner::Bottom) | (
                DirectionCorner::Bottom,
                DirectionCorner::Right,
            ) => Some(DirectionCorner::BottomRight),
            (DirectionCorner::Left, DirectionCorner::Bottom) | (
                DirectionCorner::Bottom,
                DirectionCorner::Left,
            ) => Some(DirectionCorner::BottomLeft),
            _ => None,
        }
    }

    /// Reflecting twice gives back what one started with, and nothing is its
    /// own reflection.
    pub proof fn lemma_opposite_involution(self)
        ensures
            self.opposite().opposite() == self,
            self.opposite() != self,
            self.opposite().is_edge() == self.is_edge(),
    {
    }

    /// Two edges combine exactly if they meet in a corner: never an edge
    /// with itself or with its opposite, and never a corner with anything.
    /// The order of the two does not matter, and what comes out is a corner.
    pub proof fn lemma_combine(self, other: DirectionCorner)
        ensures
            self.combine(&other) == other.combine(&self),
            self.combine(&other) is Some <==> self.meets(&other),
            self.combine(&self) is None,
            self.combine(&self.opposite()) is None,
            self.combine(&other) matches Some(c) ==> !c.is_edge(),
    {
    }

    /// The reflection of the corner of two edges is the corner of their
    /// reflections.
    pub proof fn lemma_opposite_of_combined(self, other: DirectionCorner)
        requires
            self.meets(&other),
        ensures
            self.opposite().combine(&other.opposite()) == Some(
                self.combine(&other).unwrap().opposite(),
            ),
    {
    }
}

/// Why an edge was not accepted.
#[derive(Debug, PartialEq, Eq, Clone, Copy)]
pub enum CssDirectionCornerParseError<'a> {
    /// Holds the word that names no edge.
    InvalidDirection(&'a str),
}

/// What a `CssDirectionCornerParseError` stands for.
pub ghost enum CornerError {
    InvalidDirection(Seq<char>),
}

impl<'a> View for CssDirectionCornerParseError<'a> {
    type V = CornerError;

    open spec fn view(&self) -> CornerError {
        match *self {
            CssDirectionCornerParseError::InvalidDirection(s) => CornerError::InvalidDirection(s@),
        }
    }
}

/// The edge that `s` names: `right`, `left`, `top` or `bottom`.
pub open spec fn corner_of(s: Seq<char>) -> Result<DirectionCorner, CornerError> {
    if s == "right"@ {
        Ok(DirectionCorner::Right)
    } else if s == "left"@ {
        Ok(DirectionCorner::Left)
    } else if s == "top"@ {
        Ok(DirectionCorner::Top)
    } else if s == "bottom"@ {
        Ok(DirectionCorner::Bottom)
    } else {
        Err(CornerError::InvalidDirection(s))
    }
}

/// The name of an edge is never the name of a corner.
pub proof fn lemma_corner_of_is_edge(s: Seq<char>)
    ensures
        corner_of(s) matches Ok(c) ==> c.is_edge(),
{
}

/// An edge by its name.
pub fn parse_direction_corner<'a>(input: &'a str) -> (r: Result<
    DirectionCorner,
    CssDirectionCornerParseError<'a>,
>)
    ensures
        outcome(r) == corner_of(input@),
{
    if str_eq(input, "right") {
        Ok(DirectionCorner::Right)
    } else if str_eq(input, "left") {
        Ok(DirectionCorner::Left)
    } else if str_eq(input, "top") {
        Ok(DirectionCorner::Top)
    } else if str_eq(input, "bottom") {
        Ok(DirectionCorner::Bottom)
    } else {
        Err(CssDirectionCornerParseError::InvalidDirection(input))
    }
}

} // verus!
