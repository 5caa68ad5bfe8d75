//! Box shadows.

use vstd::prelude::*;
use crate::border::{lengths, lengths_of, parse_pixel_values};
use crate::color::{color_of, parse_css_color, ColorError, ColorU, CssColorParseError};
use crate::length::{BorderRadiusError, CssBorderRadiusParseError, Length, PixelAmount, Pixels};
use crate::text::{split_whitespace, str_eq, texts, words};

verus! {

/// On which side of the box its shadow is painted.
#[derive(Debug, PartialEq, Eq, Clone, Copy, Structural)]
pub enum BoxShadowClipMode {
    Outset,
    Inset,
}

/// A step to the right and a step down.
#[derive(Debug, PartialEq, Eq, Clone, Copy)]
pub struct LayoutVector2D<'a> {
    pub x: Pixels<'a>,
    pub y: Pixels<'a>,
}

/// A box shadow.
#[derive(Debug, PartialEq, Eq, Clone, Copy)]
pub struct BoxShadowPreDisplayItem<'a> {
    pub offset: LayoutVector2D<'a>,
    pub color: ColorU,
    pub blur_radius: Pixels<'a>,
    pub spread_radius: Pixels<'a>,
    pub clip_mode: BoxShadowClipMode,
}

/// What a `BoxShadowPreDisplayItem` stands for.
pub ghost struct ShadowDescriptor {
    pub offset_x: PixelAmount,
    pub offset_y: PixelAmount,
    pub color: ColorU,
    pub blur_radius: PixelAmount,
    pub spread_radius: PixelAmount,
    pub clip_mode: BoxShadowClipMode,
}

impl<'a> View for BoxShadowPreDisplayItem<'a> {
    type V = ShadowDescriptor;

    open spec fn view(&self) -> ShadowDescriptor {
        ShadowDescriptor {
            offset_x: self.offset.x@,
            offset_y: self.offset.y@,
            color: self.color,
            blur_radius: self.blur_radius@,
            spread_radius: self.spread_radius@,
            clip_mode: self.clip_mode,
        }
    }
}

/// Why a box shadow was not accepted.
#[derive(Debug, PartialEq, Eq, Clone, Copy)]
pub enum CssShadowParseError<'a> {
    /// The value is a single word other than `none`; holds the whole value.
    InvalidSingleStatement(&'a str),
    /// The value has no word, or more than six, or six of which the last is
    /// neither `inset` nor `outset`; holds the whole value.
    TooManyComponents(&'a str),
    /// A word that should be a length is none.
    ValueParseErr(CssBorderRadiusParseError<'a>),
    /// The word that should be a color is none.
    ColorParseError(CssColorParseError<'a>),
}

/// What a `CssShadowParseError` stands for.
pub ghost enum ShadowError {
    InvalidSingleStatement(Seq<char>),
    TooManyComponents(Seq<char>),
    ValueParseErr(BorderRadiusError),
    ColorParseError(ColorError),
}

impl<'a> View for CssShadowParseError<'a> {
    type V = ShadowError;

    open spec fn view(&self) -> ShadowError {
        match *self {
            CssShadowParseError::InvalidSingleStatement(s) => ShadowError::InvalidSingleStatement(
                s@,
            ),
            CssShadowParseError::TooManyComponents(s) => ShadowError::TooManyComponents(s@),
            CssShadowParseError::ValueParseErr(e) => ShadowError::ValueParseErr(e@),
            CssShadowParseError::ColorParseError(e) => ShadowError::ColorParseError(e@),
        }
    }
}

/// The error of a shadow one of whose lengths was not accepted.
impl<'a> From<CssBorderRadiusParseError<'a>> for CssShadowParseError<'a> {
    fn from(e: CssBorderRadiusParseError<'a>) -> (r: Self) {
        CssShadowParseError::ValueParseErr(e)
    }
}

impl<'a> vstd::std_specs::convert::FromSpecImpl<CssBorderRadiusParseError<'a>> for CssShadowParseError<'a> {
    open spec fn obeys_from_spec() -> bool {
        true
    }

    open spec fn from_spec(e: CssBorderRadiusParseError<'a>) -> Self {
        CssShadowParseError::ValueParseErr(e)
    }
}

/// The error of a shadow whose color was not accepted.
impl<'a> From<CssColorParseError<'a>> for CssShadowParseError<'a> {
    fn from(e: CssColorParseError<'a>) -> (r: Self) {
        CssShadowParseError::ColorParseError(e)
    }
}

impl<'a> vstd::std_specs::convert::FromSpecImpl<CssColorParseError<'a>> for CssShadowParseError<'a> {
    open spec fn obeys_from_spec() -> bool {
        true
    }

    open spec fn from_spec(e: CssColorParseError<'a>) -> Self {
        CssShadowParseError::ColorParseError(e)
    }
}

/// Whether the last of the words `w` is one of the keywords `inset` and
/// `outset`.
pub open spec fn ends_in_keyword(w: Seq<Seq<char>>) -> bool {
    w.len() > 0 && (w.last() == "inset"@ || w.last() == "outset"@)
}

/// The side that the words `w` ask for: the inside if there are more than two
/// of them and the last is `inset`, else the outside.
pub open spec fn clip_mode_of(w: Seq<Seq<char>>) -> BoxShadowClipMode {
    if w.len() > 2 && w.last() == "inset"@ {
        BoxShadowClipMode::Inset
    } else {
        BoxShadowClipMode::Outset
    }
}

/// How many of the words `w` are read by their place: all of them, but for
/// a keyword at the end of more than two words.
pub open spec fn positional(w: Seq<Seq<char>>) -> int {
    if w.len() > 2 && ends_in_keyword(w) {
        w.len() - 1
    } else {
        w.len() as int
    }
}

/// Whether the words `w` are as many as a shadow can have: two to five, or
/// six of which the last is the keyword `inset` or `outset`. No more than
/// five words are ever read by their place.
pub open spec fn has_shadow_arity(w: Seq<Seq<char>>) -> bool {
    2 <= w.len() <= 5 || (w.len() == 6 && ends_in_keyword(w))
}

/// How many of the words read by their place are lengths: all of two, and
/// all but the last, which is the color, of three and more.
pub open spec fn length_count(w: Seq<Seq<char>>) -> int {
    if positional(w) == 2 {
        2
    } else {
        positional(w) - 1
    }
}

/// The shadow of the lengths `l`, two to four of them: the two steps of
/// the offset, then the blur, then the spread. What is not given is zero.
pub open spec fn shadow_with(l: Seq<Length>, color: ColorU, clip_mode: BoxShadowClipMode) -> ShadowDescriptor {
    ShadowDescriptor {
        offset_x: l[0].to_pixels(),
        offset_y: l[1].to_pixels(),
        color,
        blur_radius: if l.len() >= 3 {
            l[2].to_pixels()
        } else {
            PixelAmount::zero()
        },
        spread_radius: if l.len() >= 4 {
            l[3].to_pixels()
        } else {
            PixelAmount::zero()
        },
        clip_mode,
    }
}

/// The shadow of words that are as many as a shadow can have. The lengths
/// are read first, in order, then the color; where there is no color, the
/// shadow is opaque black.
pub open spec fn shadow_of_words(w: Seq<Seq<char>>) -> Result<ShadowDescriptor, ShadowError> {
    match lengths_of(w.take(length_count(w))) {
        Err(e) => Err(ShadowError::ValueParseErr(e)),
        Ok(l) => if positional(w) == 2 {
            Ok(shadow_with(l, ColorU::black(), clip_mode_of(w)))
        } else {
            match color_of(w[positional(w) - 1]) {
                Err(e) => Err(ShadowError::ColorParseError(e)),
                Ok(c) => Ok(shadow_with(l, c, clip_mode_of(w))),
            }
        },
    }
}

/// The shadow that `s` is; no shadow for the single word `none`.
///
/// Two words are the offset. With three and more words, a last word `inset`
/// or `outset` says on which side the shadow falls and is not read as
/// anything else. What then remains is the offset and a color; or the offset,
/// the blur and a color; or the offset, the blur, the spread and a color.
/// Six words are a shadow only if the sixth is such a keyword: no word is
/// ever left unread.
pub open spec fn shadow_of(s: Seq<char>) -> Result<Option<ShadowDescriptor>, ShadowError> {
    let w = words(s);
    if w.len() == 1 {
        if w[0] == "none"@ {
            Ok(None)
        } else {
            Err(ShadowError::InvalidSingleStatement(s))
        }
    } else if has_shadow_arity(w) {
        match shadow_of_words(w) {
            Err(e) => Err(e),
            Ok(d) => Ok(Some(d)),
        }
    } else {
        Err(ShadowError::TooManyComponents(s))
    }
}

/// What the result of the shadow parser stands for.
pub open spec fn shadow_outcome(
    r: Result<Option<BoxShadowPreDisplayItem>, CssShadowParseError>,
) -> Result<Option<ShadowDescriptor>, ShadowError> {
    match r {
        Ok(Some(b)) => Ok(Some(b@)),
        Ok(None) => Ok(None),
        Err(e) => Err(e@),
    }
}

/// A value without a word, or of more than six words, is no shadow; nor is
/// one of six words of which the last is neither `inset` nor `outset`.
pub proof fn lemma_shadow_arity(s: Seq<char>)
    requires
        words(s).len() == 0 || words(s).len() > 6 || (words(s).len() == 6 && !ends_in_keyword(
            words(s),
        )),
    ensures
        shadow_of(s) == Err::<Option<ShadowDescriptor>, ShadowError>(
            ShadowError::TooManyComponents(s),
        ),
{
}

/// A box shadow such as `5px 10px 5px #888888 inset`, or `none`.
pub fn parse_css_box_shadow<'a>(input: &'a str) -> (r: Result<
    Option<BoxShadowPreDisplayItem<'a>>,
    CssShadowParseError<'a>,
>)
    ensures
        shadow_outcome(r) == shadow_of(input@),
        r is Ok ==> 1 <= words(input@).len() <= 6,
        r is Ok && words(input@).len() == 6 ==> ends_in_keyword(words(input@)),
{
    let words = split_whitespace(input);
    let count = words.len();
    if count == 1 {
        if str_eq(words[0], "none") {
            return Ok(None);
        } else {
            return Err(CssShadowParseError::InvalidSingleStatement(input));
        }
    }
    if count < 2 || count > 6 {
        return Err(CssShadowParseError::TooManyComponents(input));
    }
    let ghost w = texts(words@);
    assert(w.last() == words@[count - 1]@);
    let last_is_inset = str_eq(words[count - 1], "inset");
    let last_is_outset = str_eq(words[count - 1], "outset");
    let clip_mode = if count > 2 && last_is_inset {
        BoxShadowClipMode::Inset
    } else {
        BoxShadowClipMode::Outset
    };
    let has_keyword = count > 2 && (last_is_inset || last_is_outset);
    if count == 6 && !has_keyword {
        return Err(CssShadowParseError::TooManyComponents(input));
    }
    let positional: usize = if has_keyword {
        count - 1
    } else {
        count
    };
    let length_count: usize = if positional == 2 {
        2
    } else {
        positional - 1
    };
    let l = match parse_pixel_values(&words, length_count) {
        Ok(l) => l,
        Err((_, e)) => {
            return Err(CssShadowParseError::ValueParseErr(e));
        },
    };
    let color = if positional == 2 {
        ColorU { r: 0, g: 0, b: 0, a: 255 }
    } else {
        match parse_css_color(words[positional - 1]) {
            Ok(c) => c,
            Err(e) => {
                return Err(CssShadowParseError::ColorParseError(e));
            },
        }
    };
    let blur_radius = if length_count >= 3 {
        l[2].to_pixels()
    } else {
        Pixels::zero()
    };
    let spread_radius = if length_count >= 4 {
        l[3].to_pixels()
    } else {
        Pixels::zero()
    };
    Ok(
        Some(
            BoxShadowPreDisplayItem {
                offset: LayoutVector2D { x: l[0].to_pixels(), y: l[1].to_pixels() },
                color,
                blur_radius,
                spread_radius,
                clip_mode,
            },
        ),
    )
}

} // verus!
