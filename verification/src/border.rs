//! Borders: the style keywords, the radii of the four corners, and the
//! border shorthand.

use vstd::prelude::*;
use crate::color::{color_of, parse_css_color, ColorError, ColorU, CssColorParseError};
use crate::length::{
    length_of, numeral_part, parse_pixel_value, unit_part, BorderRadiusError,
    CssBorderRadiusParseError, Length, PixelAmount, PixelValue, Pixels,
};
use crate::model::outcome;
use crate::text::{split_whitespace, str_eq, texts, words};

verus! {

/// How the line of a border is drawn.
#[derive(Debug, PartialEq, Eq, Clone, Copy, Structural)]
pub enum BorderStyle {
    /// The keyword `none`.
    NoBorder,
    Solid,
    Double,
    Dotted,
    Dashed,
    Hidden,
    Groove,
    Ridge,
    Inset,
    Outset,
}

/// A width and a height.
#[derive(Debug, PartialEq, Eq, Clone, Copy)]
pub struct LayoutSize<'a> {
    pub width: Pixels<'a>,
    pub height: Pixels<'a>,
}

/// What a `LayoutSize` stands for.
pub ghost struct Size {
    pub width: PixelAmount,
    pub height: PixelAmount,
}

impl<'a> View for LayoutSize<'a> {
    type V = Size;

    open spec fn view(&self) -> Size {
        Size { width: self.width@, height: self.height@ }
    }
}

impl Size {
    /// The size that is as wide as it is high.
    pub open spec fn square(side: PixelAmount) -> Size {
        Size { width: side, height: side }
    }
}

impl<'a> LayoutSize<'a> {
    /// The size that is as wide as it is high.
    pub fn square(side: Pixels<'a>) -> (s: LayoutSize<'a>)
        ensures
            s@ == Size::square(side@),
    {
        LayoutSize { width: side, height: side }
    }
}

/// The radii of the four corners of a box.
#[derive(Debug, PartialEq, Eq, Clone, Copy)]
pub struct BorderRadius<'a> {
    pub top_left: LayoutSize<'a>,
    pub top_right: LayoutSize<'a>,
    pub bottom_left: LayoutSize<'a>,
    pub bottom_right: LayoutSize<'a>,
}

/// What a `BorderRadius` stands for.
pub ghost struct CornerRadii {
    pub top_left: Size,
    pub top_right: Size,
    pub bottom_left: Size,
    pub bottom_right: Size,
}

impl<'a> View for BorderRadius<'a> {
    type V = CornerRadii;

    open spec fn view(&self) -> CornerRadii {
        CornerRadii {
            top_left: self.top_left@,
            top_right: self.top_right@,
            bottom_left: self.bottom_left@,
            bottom_right: self.bottom_right@,
        }
    }
}

impl CornerRadii {
    /// Four round corners, named clockwise from the top left.
    pub open spec fn clockwise(
        top_left: Length,
        top_right: Length,
        bottom_right: Length,
        bottom_left: Length,
    ) -> CornerRadii {
        CornerRadii {
            top_left: Size::square(top_left.to_pixels()),
            top_right: Size::square(top_right.to_pixels()),
            bottom_left: Size::square(bottom_left.to_pixels()),
            bottom_right: Size::square(bottom_right.to_pixels()),
        }
    }

    /// Four corners of the same size.
    pub open spec fn uniform(size: Size) -> CornerRadii {
        CornerRadii { top_left: size, top_right: size, bottom_left: size, bottom_right: size }
    }

    /// Four corners that are not round at all.
    pub open spec fn zero() -> CornerRadii {
        CornerRadii::uniform(Size::square(PixelAmount::zero()))
    }

    /// Whether each corner is as wide as it is high.
    pub open spec fn is_round(self) -> bool {
        &&& self.top_left.width == self.top_left.height
        &&& self.top_right.width == self.top_right.height
        &&& self.bottom_left.width == self.bottom_left.height
        &&& self.bottom_right.width == self.bottom_right.height
    }
}

impl<'a> BorderRadius<'a> {
    /// Four corners of the same size.
    pub fn uniform(size: LayoutSize<'a>) -> (r: BorderRadius<'a>)
        ensures
            r@ == CornerRadii::uniform(size@),
    {
        BorderRadius { top_left: size, top_right: size, bottom_left: size, bottom_right: size }
    }

    /// Four corners that are not round at all.
    pub fn zero() -> (r: BorderRadius<'static>)
        ensures
            r@ == CornerRadii::zero(),
    {
        BorderRadius::uniform(LayoutSize::square(Pixels::zero()))
    }
}

/// The lengths that the words `w` are, in order; the error of the first word
/// that is no length, if there is such a word.
pub open spec fn lengths_of(w: Seq<Seq<char>>) -> Result<Seq<Length>, BorderRadiusError>
    decreases w.len(),
{
    if w.len() == 0 {
        Ok(Seq::empty())
    } else {
        match lengths_of(w.drop_last()) {
            Err(e) => Err(e),
            Ok(l) => match length_of(w.last()) {
                Err(e) => Err(e),
                Ok(x) => Ok(l.push(x)),
            },
        }
    }
}

/// The corners that one to four radii stand for.
///
/// One radius is for all four corners. Of two, the first is for the top left
/// and the bottom right, the second for the top right and the bottom left. Of
/// three, the first is for the top left, the second for the top right and the
/// bottom left, the third for the bottom right. Four go clockwise from the top
/// left.
pub open spec fn arrange(l: Seq<Length>) -> CornerRadii {
    if l.len() == 1 {
        CornerRadii::clockwise(l[0], l[0], l[0], l[0])
    } else if l.len() == 2 {
        CornerRadii::clockwise(l[0], l[1], l[0], l[1])
    } else if l.len() == 3 {
        CornerRadii::clockwise(l[0], l[1], l[2], l[1])
    } else {
        CornerRadii::clockwise(l[0], l[1], l[2], l[3])
    }
}

/// The corner radii that `s` is: one to four lengths, separated by white
/// space. If one of them is no length, the error is that of the first such
/// word, and says at which place the word stands.
pub open spec fn border_radius_of(s: Seq<char>) -> Result<CornerRadii, BorderRadiusError> {
    if 1 <= words(s).len() <= 4 {
        match lengths_of(words(s)) {
            Err(e) => Err(e.at(first_failure(words(s), 0) as nat)),
            Ok(l) => Ok(arrange(l)),
        }
    } else {
        Err(BorderRadiusError::TooManyValues(s))
    }
}

/// A list of lengths has as many lengths as there were words.
pub proof fn lemma_lengths_of_len(w: Seq<Seq<char>>)
    ensures
        lengths_of(w) matches Ok(l) ==> l.len() == w.len(),
    decreases w.len(),
{
    if w.len() > 0 {
        lemma_lengths_of_len(w.drop_last());
    }
}

/// `lengths_of` reads the words one by one: each is a length, and the result
/// holds it at the word's place.
pub proof fn lemma_lengths_of_each(w: Seq<Seq<char>>, i: int)
    requires
        lengths_of(w) is Ok,
        0 <= i < w.len(),
    ensures
        lengths_of(w)->Ok_0.len() == w.len(),
        length_of(w[i]) == Ok::<Length, BorderRadiusError>(lengths_of(w)->Ok_0[i]),
    decreases w.len(),
{
    lemma_lengths_of_len(w);
    lemma_lengths_of_len(w.drop_last());
    if i < w.len() - 1 {
        lemma_lengths_of_each(w.drop_last(), i);
    }
}

/// The index of the first of the words `w`, from index `i` on, that is no
/// length; the number of words if all are lengths.
pub open spec fn first_failure(w: Seq<Seq<char>>, i: int) -> int
    decreases w.len() - i,
{
    if i < 0 || i >= w.len() || length_of(w[i]) is Err {
        i
    } else {
        first_failure(w, i + 1)
    }
}

/// Before the first word that is no length all words are lengths.
proof fn lemma_first_failure_bounds(w: Seq<Seq<char>>, i: int)
    requires
        0 <= i <= w.len(),
    ensures
        i <= first_failure(w, i) <= w.len(),
        first_failure(w, i) < w.len() ==> length_of(w[first_failure(w, i)]) is Err,
        forall|k: int| i <= k < first_failure(w, i) ==> length_of(#[trigger] w[k]) is Ok,
    decreases w.len() - i,
{
    if i < w.len() && length_of(w[i]) is Ok {
        lemma_first_failure_bounds(w, i + 1);
    }
}

/// The first word that is no length is the one before which all are lengths.
proof fn lemma_first_failure_is(w: Seq<Seq<char>>, i: int, k: int)
    requires
        0 <= i <= k <= w.len(),
        forall|j: int| i <= j < k ==> length_of(#[trigger] w[j]) is Ok,
        k == w.len() || length_of(w[k]) is Err,
    ensures
        first_failure(w, i) == k,
    decreases k - i,
{
    if i < k {
        assert(length_of(w[i]) is Ok);
        lemma_first_failure_is(w, i + 1, k);
    }
}

/// Which word makes a list of lengths fail: the first that is no length.
/// The list fails exactly if it has such a word, and then with the error of
/// that word.
pub proof fn lemma_lengths_of_first_failure(w: Seq<Seq<char>>)
    ensures
        0 <= first_failure(w, 0) <= w.len(),
        lengths_of(w) is Err <==> first_failure(w, 0) < w.len(),
        forall|k: int| 0 <= k < first_failure(w, 0) ==> length_of(#[trigger] w[k]) is Ok,
        lengths_of(w) matches Err(e) ==> length_of(w[first_failure(w, 0)]) == Err::<
            Length,
            BorderRadiusError,
        >(e),
    decreases w.len(),
{
    lemma_first_failure_bounds(w, 0);
    if w.len() > 0 {
        let init = w.drop_last();
        lemma_lengths_of_first_failure(init);
        lemma_first_failure_bounds(init, 0);
        let k = first_failure(init, 0);
        assert forall|j: int| 0 <= j < k implies length_of(#[trigger] w[j]) is Ok by {
            assert(init[j] == w[j]);
        }
        if k < init.len() {
            assert(init[k] == w[k]);
            lemma_first_failure_is(w, 0, k);
        } else if length_of(w.last()) is Err {
            lemma_first_failure_is(w, 0, w.len() - 1);
        } else {
            assert forall|j: int| 0 <= j < w.len() implies length_of(#[trigger] w[j]) is Ok by {
                if j < init.len() {
                    assert(init[j] == w[j]);
                }
            }
            lemma_first_failure_is(w, 0, w.len() as int);
        }
    }
}

/// Which radius makes a list of one to four fail, and how: the first that
/// is no length. All radii before it are lengths, and the error holds its
/// place and what the length parser holds against it.
pub proof fn lemma_border_radius_failure(s: Seq<char>)
    requires
        1 <= words(s).len() <= 4,
        border_radius_of(s) is Err,
    ensures
        ({
            let w = words(s);
            let k = first_failure(w, 0);
            &&& 0 <= k < w.len()
            &&& forall|j: int| 0 <= j < k ==> length_of(#[trigger] w[j]) is Ok
            &&& length_of(w[k]) is Err
            &&& border_radius_of(s) == Err::<CornerRadii, BorderRadiusError>(
                (length_of(w[k])->Err_0).at(k as nat),
            )
            &&& border_radius_of(s) == Err::<CornerRadii, BorderRadiusError>(
                BorderRadiusError::InvalidComponentAt(k as nat, unit_part(w[k])),
            ) || border_radius_of(s) == Err::<CornerRadii, BorderRadiusError>(
                BorderRadiusError::ValueParseErrAt(k as nat, numeral_part(w[k])),
            )
        }),
{
    lemma_lengths_of_first_failure(words(s));
}

/// A value of no radius, or of more than four, is refused whole, whatever
/// its words are.
pub proof fn lemma_border_radius_arity(s: Seq<char>)
    requires
        words(s).len() == 0 || words(s).len() > 4,
    ensures
        border_radius_of(s) == Err::<CornerRadii, BorderRadiusError>(
            BorderRadiusError::TooManyValues(s),
        ),
{
}

/// The round corner whose radius the word `w` gives.
pub open spec fn corner_of_word(w: Seq<char>) -> Size {
    Size::square(length_of(w)->Ok_0.to_pixels())
}

/// How the radii go to the corners, for each number of them. Every word is a
/// length, and every corner is as wide as it is high.
pub proof fn lemma_border_radius_table(s: Seq<char>)
    requires
        border_radius_of(s) is Ok,
    ensures
        ({
            let w = words(s);
            let r = border_radius_of(s)->Ok_0;
            &&& 1 <= w.len() <= 4
            &&& forall|i: int| 0 <= i < w.len() ==> length_of(#[trigger] w[i]) is Ok
            &&& r.is_round()
            &&& w.len() == 1 ==> r == CornerRadii::uniform(corner_of_word(w[0]))
            &&& w.len() == 2 ==> r == (CornerRadii {
                top_left: corner_of_word(w[0]),
                top_right: corner_of_word(w[1]),
                bottom_right: corner_of_word(w[0]),
                bottom_left: corner_of_word(w[1]),
            })
            &&& w.len() == 3 ==> r == (CornerRadii {
                top_left: corner_of_word(w[0]),
                top_right: corner_of_word(w[1]),
                bottom_right: corner_of_word(w[2]),
                bottom_left: corner_of_word(w[1]),
            })
            &&& w.len() == 4 ==> r == (CornerRadii {
                top_left: corner_of_word(w[0]),
                top_right: corner_of_word(w[1]),
                bottom_right: corner_of_word(w[2]),
                bottom_left: corner_of_word(w[3]),
            })
        }),
{
    let w = words(s);
    assert forall|i: int| 0 <= i < w.len() implies length_of(#[trigger] w[i]) == Ok::<
        Length,
        BorderRadiusError,
    >(lengths_of(w)->Ok_0[i]) by {
        lemma_lengths_of_each(w, i);
    }
    lemma_lengths_of_len(w);
}

/// What a list of lengths stands for.
pub open spec fn lengths(v: Seq<PixelValue>) -> Seq<Length> {
    v.map_values(|p: PixelValue| p@)
}

/// The lengths that the first `count` of `words` are, in order, or the place
/// and the error of the first that is none.
pub(crate) fn parse_pixel_values<'a>(words: &Vec<&'a str>, count: usize) -> (r: Result<
    Vec<PixelValue<'a>>,
    (usize, CssBorderRadiusParseError<'a>),
>)
    requires
        count <= words@.len(),
    ensures
        match r {
            Ok(v) => lengths_of(texts(words@).take(count as int)) == Ok::<
                Seq<Length>,
                BorderRadiusError,
            >(lengths(v@)) && v@.len() == count,
            Err((slot, e)) => lengths_of(texts(words@).take(count as int)) == Err::<
                Seq<Length>,
                BorderRadiusError,
            >(e@) && slot == first_failure(texts(words@).take(count as int), 0) && slot < count
                && (e is InvalidComponent || e is ValueParseErr),
        },
{
    let mut v: Vec<PixelValue<'a>> = Vec::new();
    let mut i: usize = 0;
    let ghost w = texts(words@).take(count as int);
    assert(w.take(0) =~= Seq::<Seq<char>>::empty());
    assert(lengths(v@) =~= Seq::<Length>::empty());
    while i < count
        invariant
            i <= count <= words@.len(),
            w == texts(words@).take(count as int),
            v@.len() == i,
            lengths_of(w.take(i as int)) == Ok::<Seq<Length>, BorderRadiusError>(lengths(v@)),
        decreases count - i,
    {
        proof {
            assert(w.take(i + 1).drop_last() =~= w.take(i as int));
            assert(w.take(i + 1).last() == words@[i as int]@);
        }
        match parse_pixel_value(words[i]) {
            Ok(p) => {
                proof {
                    assert(lengths(v@.push(p)) =~= lengths(v@).push(p@));
                }
                v.push(p);
            },
            Err(e) => {
                proof {
                    lemma_lengths_of_prefix_error(w, i + 1);
                    assert forall|j: int| 0 <= j < i implies length_of(#[trigger] w[j]) is Ok by {
                        lemma_lengths_of_each(w.take(i as int), j);
                        assert(w.take(i as int)[j] == w[j]);
                    }
                    assert(w[i as int] == words@[i as int]@);
                    lemma_first_failure_is(w, 0, i as int);
                }
                return Err((i, e));
            },
        }
        i += 1;
    }
    assert(w.take(i as int) =~= w);
    Ok(v)
}

/// Once a prefix of the words has failed, the whole list fails in the same
/// way.
pub proof fn lemma_lengths_of_prefix_error(w: Seq<Seq<char>>, k: int)
    requires
        0 <= k <= w.len(),
        lengths_of(w.take(k)) is Err,
    ensures
        lengths_of(w) == lengths_of(w.take(k)),
    decreases w.len() - k,
{
    if k < w.len() {
        assert(w.take(k + 1).drop_last() =~= w.take(k));
        lemma_lengths_of_prefix_error(w, k + 1);
    } else {
        assert(w.take(k) =~= w);
    }
}

/// The radii of the corners, such as `5px 10px` or `5px 10px 6px 10px`.
pub fn parse_css_border_radius<'a>(input: &'a str) -> (r: Result<
    BorderRadius<'a>,
    CssBorderRadiusParseError<'a>,
>)
    ensures
        outcome(r) == border_radius_of(input@),
        r is Ok ==> 1 <= words(input@).len() <= 4,
        r matches Ok(radius) ==> radius@.is_round(),
        r matches Err(e) ==> (match e {
            CssBorderRadiusParseError::TooManyValues(_) => words(input@).len() == 0 || words(
                input@,
            ).len() > 4,
            CssBorderRadiusParseError::InvalidComponentAt(slot, _) => slot < words(input@).len(),
            CssBorderRadiusParseError::ValueParseErrAt(slot, _) => slot < words(input@).len(),
            _ => false,
        }),
{
    let words = split_whitespace(input);
    let n = words.len();
    if n < 1 || n > 4 {
        return Err(CssBorderRadiusParseError::TooManyValues(input));
    }
    assert(texts(words@).take(n as int) =~= texts(words@));
    let l = match parse_pixel_values(&words, n) {
        Ok(l) => l,
        Err((slot, e)) => {
            return Err(e.at(slot));
        },
    };
    let a = LayoutSize::square(l[0].to_pixels());
    if n == 1 {
        Ok(BorderRadius { top_left: a, top_right: a, bottom_right: a, bottom_left: a })
    } else if n == 2 {
        let b = LayoutSize::square(l[1].to_pixels());
        Ok(BorderRadius { top_left: a, top_right: b, bottom_right: a, bottom_left: b })
    } else if n == 3 {
        let b = LayoutSize::square(l[1].to_pixels());
        let c = LayoutSize::square(l[2].to_pixels());
        Ok(BorderRadius { top_left: a, top_right: b, bottom_right: c, bottom_left: b })
    } else {
        let b = LayoutSize::square(l[1].to_pixels());
        let c = LayoutSize::square(l[2].to_pixels());
        let d = LayoutSize::square(l[3].to_pixels());
        Ok(BorderRadius { top_left: a, top_right: b, bottom_right: c, bottom_left: d })
    }
}

/// The widths of the four sides of a border.
#[derive(Debug, PartialEq, Eq, Clone, Copy)]
pub struct BorderWidths<'a> {
    pub left: Pixels<'a>,
    pub top: Pixels<'a>,
    pub right: Pixels<'a>,
    pub bottom: Pixels<'a>,
}

/// What a `BorderWidths` stands for.
pub ghost struct Widths {
    pub left: PixelAmount,
    pub top: PixelAmount,
    pub right: PixelAmount,
    pub bottom: PixelAmount,
}

impl<'a> View for BorderWidths<'a> {
    type V = Widths;

    open spec fn view(&self) -> Widths {
        Widths { left: self.left@, top: self.top@, right: self.right@, bottom: self.bottom@ }
    }
}

/// The color and the style of one side of a border.
#[derive(Debug, PartialEq, Eq, Clone, Copy, Structural)]
pub struct BorderSide {
    pub color: ColorU,
    pub style: BorderStyle,
}

/// A border of four sides and four corners.
#[derive(Debug, PartialEq, Eq, Clone, Copy)]
pub struct NormalBorder<'a> {
    pub left: BorderSide,
    pub right: BorderSide,
    pub top: BorderSide,
    pub bottom: BorderSide,
    pub radius: BorderRadius<'a>,
}

/// What makes a border, besides its widths.
#[derive(Debug, PartialEq, Eq, Clone, Copy)]
pub enum BorderDetails<'a> {
    Normal(NormalBorder<'a>),
}

/// What the two parts of a border, its widths and its details, stand for
/// together.
pub ghost struct BorderDescriptor {
    pub widths: Widths,
    pub left: BorderSide,
    pub right: BorderSide,
    pub top: BorderSide,
    pub bottom: BorderSide,
    pub radius: CornerRadii,
}

impl BorderDescriptor {
    /// The border whose four sides are alike: as thick as `thickness`, drawn
    /// in `style` and `color`, with corners that are not round.
    pub open spec fn uniform(thickness: PixelAmount, style: BorderStyle, color: ColorU) -> BorderDescriptor {
        let side = BorderSide { color, style };
        BorderDescriptor {
            widths: Widths { left: thickness, top: thickness, right: thickness, bottom: thickness },
            left: side,
            right: side,
            top: side,
            bottom: side,
            radius: CornerRadii::zero(),
        }
    }

    /// Whether the four sides are alike in width, color and style.
    pub open spec fn is_uniform(self) -> bool {
        &&& self.widths.left == self.widths.top
        &&& self.widths.left == self.widths.right
        &&& self.widths.left == self.widths.bottom
        &&& self.left == self.top
        &&& self.left == self.right
        &&& self.left == self.bottom
    }
}

/// Why a border was not accepted.
#[derive(Debug, PartialEq, Eq, Clone, Copy)]
pub enum CssBorderParseError<'a> {
    /// Holds the word that names no style.
    InvalidBorderStyle(&'a str),
    /// The value has neither one word nor three; holds the whole value.
    InvalidBorderDeclaration(&'a str),
    /// The first of three words is no length.
    ThicknessParseError(CssBorderRadiusParseError<'a>),
    /// The last of three words is no color.
    ColorParseError(CssColorParseError<'a>),
}

/// What a `CssBorderParseError` stands for.
pub ghost enum BorderError {
    InvalidBorderStyle(Seq<char>),
    InvalidBorderDeclaration(Seq<char>),
    ThicknessParseError(BorderRadiusError),
    ColorParseError(ColorError),
}

impl<'a> View for CssBorderParseError<'a> {
    type V = BorderError;

    open spec fn view(&self) -> BorderError {
        match *self {
            CssBorderParseError::InvalidBorderStyle(s) => BorderError::InvalidBorderStyle(s@),
            CssBorderParseError::InvalidBorderDeclaration(s) => BorderError::InvalidBorderDeclaration(
                s@,
            ),
            CssBorderParseError::ThicknessParseError(e) => BorderError::ThicknessParseError(e@),
            CssBorderParseError::ColorParseError(e) => BorderError::ColorParseError(e@),
        }
    }
}

/// The style that the keyword `s` names.
pub open spec fn border_style_of(s: Seq<char>) -> Result<BorderStyle, BorderError> {
    if s == "none"@ {
        Ok(BorderStyle::NoBorder)
    } else if s == "solid"@ {
        Ok(BorderStyle::Solid)
    } else if s == "double"@ {
        Ok(BorderStyle::Double)
    } else if s == "dotted"@ {
        Ok(BorderStyle::Dotted)
    } else if s == "dashed"@ {
        Ok(BorderStyle::Dashed)
    } else if s == "hidden"@ {
        Ok(BorderStyle::Hidden)
    } else if s == "groove"@ {
        Ok(BorderStyle::Groove)
    } else if s == "ridge"@ {
        Ok(BorderStyle::Ridge)
    } else if s == "inset"@ {
        Ok(BorderStyle::Inset)
    } else if s == "outset"@ {
        Ok(BorderStyle::Outset)
    } else {
        Err(BorderError::InvalidBorderStyle(s))
    }
}

/// The border of three words: how thick, which style, which color. The words
/// are read in this order, and the first that fails decides the error.
pub open spec fn border_of_three(
    thickness: Seq<char>,
    style: Seq<char>,
    color: Seq<char>,
) -> Result<BorderDescriptor, BorderError> {
    match length_of(thickness) {
        Err(e) => Err(BorderError::ThicknessParseError(e)),
        Ok(t) => match border_style_of(style) {
            Err(e) => Err(e),
            Ok(st) => match color_of(color) {
                Err(e) => Err(BorderError::ColorParseError(e)),
                Ok(c) => Ok(BorderDescriptor::uniform(t.to_pixels(), st, c)),
            },
        },
    }
}

/// The border that `s` is.
///
/// A single word is a style; the border is then one pixel thick and opaque
/// black. Three words are the thickness, the style and the color. Any other
/// number of words is refused.
pub open spec fn border_of(s: Seq<char>) -> Result<BorderDescriptor, BorderError> {
    let w = words(s);
    if w.len() == 1 {
        match border_style_of(w[0]) {
            Err(e) => Err(e),
            Ok(st) => Ok(BorderDescriptor::uniform(PixelAmount::one(), st, ColorU::black())),
        }
    } else if w.len() == 3 {
        border_of_three(w[0], w[1], w[2])
    } else {
        Err(BorderError::InvalidBorderDeclaration(s))
    }
}

/// What the result of the border parser stands for.
pub open spec fn border_outcome(
    r: Result<(BorderWidths, BorderDetails), CssBorderParseError>,
) -> Result<BorderDescriptor, BorderError> {
    match r {
        Ok((w, BorderDetails::Normal(b))) => Ok(
            BorderDescriptor {
                widths: w@,
                left: b.left,
                right: b.right,
                top: b.top,
                bottom: b.bottom,
                radius: b.radius@,
            },
        ),
        Err(e) => Err(e@),
    }
}

/// What the result of the style parser stands for.
pub open spec fn style_outcome(r: Result<BorderStyle, CssBorderParseError>) -> Result<
    BorderStyle,
    BorderError,
> {
    match r {
        Ok(s) => Ok(s),
        Err(e) => Err(e@),
    }
}

/// A value of two words, or of none, or of more than three, is no border.
pub proof fn lemma_border_arity(s: Seq<char>)
    requires
        words(s).len() != 1,
        words(s).len() != 3,
    ensures
        border_of(s) == Err::<BorderDescriptor, BorderError>(
            BorderError::InvalidBorderDeclaration(s),
        ),
{
}

/// Every border that is accepted has four sides that are alike, and corners
/// that are not round.
pub proof fn lemma_border_is_uniform(s: Seq<char>)
    requires
        border_of(s) is Ok,
    ensures
        (border_of(s)->Ok_0).is_uniform(),
        (border_of(s)->Ok_0).radius == CornerRadii::zero(),
{
}

/// The style of a border by its keyword, such as `solid` or `none`.
pub fn parse_border_style<'a>(input: &'a str) -> (r: Result<BorderStyle, CssBorderParseError<'a>>)
    ensures
        style_outcome(r) == border_style_of(input@),
{
    if str_eq(input, "none") {
        Ok(BorderStyle::NoBorder)
    } else if str_eq(input, "solid") {
        Ok(BorderStyle::Solid)
    } else if str_eq(input, "double") {
        Ok(BorderStyle::Double)
    } else if str_eq(input, "dotted") {
        Ok(BorderStyle::Dotted)
    } else if str_eq(input, "dashed") {
        Ok(BorderStyle::Dashed)
    } else if str_eq(input, "hidden") {
        Ok(BorderStyle::Hidden)
    } else if str_eq(input, "groove") {
        Ok(BorderStyle::Groove)
    } else if str_eq(input, "ridge") {
        Ok(BorderStyle::Ridge)
    } else if str_eq(input, "inset") {
        Ok(BorderStyle::Inset)
    } else if str_eq(input, "outset") {
        Ok(BorderStyle::Outset)
    } else {
        Err(CssBorderParseError::InvalidBorderStyle(input))
    }
}

/// A border such as `5px solid red`, or a style alone.
pub fn parse_css_border<'a>(input: &'a str) -> (r: Result<
    (BorderWidths<'a>, BorderDetails<'a>),
    CssBorderParseError<'a>,
>)
    ensures
        border_outcome(r) == border_of(input@),
        r is Ok ==> words(input@).len() == 1 || words(input@).len() == 3,
        border_outcome(r) matches Ok(border) ==> border.is_uniform() && border.radius
            == CornerRadii::zero(),
{
    let words = split_whitespace(input);
    let thickness: Pixels<'a>;
    let style: BorderStyle;
    let color: ColorU;
    if words.len() == 1 {
        style = parse_border_style(words[0])?;
        thickness = Pixels::one();
        color = ColorU { r: 0, g: 0, b: 0, a: 255 };
    } else if words.len() == 3 {
        thickness = match parse_pixel_value(words[0]) {
            Ok(t) => t.to_pixels(),
            Err(e) => {
                return Err(CssBorderParseError::ThicknessParseError(e));
            },
        };
        style = parse_border_style(words[1])?;
        color = match parse_css_color(words[2]) {
            Ok(c) => c,
            Err(e) => {
                return Err(CssBorderParseError::ColorParseError(e));
            },
        };
    } else {
        return Err(CssBorderParseError::InvalidBorderDeclaration(input));
    }
    let border_widths = BorderWidths {
        top: thickness,
        left: thickness,
        right: thickness,
        bottom: thickness,
    };
    let border_side = BorderSide { color, style };
    let border_details = BorderDetails::Normal(
        NormalBorder {
            top: border_side,
            left: border_side,
            right: border_side,
            bottom: border_side,
            radius: BorderRadius::zero(),
        },
    );
    Ok((border_widths, border_details))
}

} // verus!
