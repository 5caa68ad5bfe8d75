//! How each descriptor is written, and that what is written reads back as
//! the descriptor.
//!
//! The texts of this module are those that the parsers are sure to read back:
//! a color with all its eight digits, a border with all its three words, a
//! shadow with all its six.

use vstd::prelude::*;
use crate::border::{
    border_of, border_of_three, border_radius_of, border_style_of, lemma_lengths_of_each,
    lemma_lengths_of_len, lengths_of, BorderDescriptor, BorderError, BorderStyle, CornerRadii,
};
use crate::color::{color_text, lemma_color_text_round_trip, ColorU};
use crate::corner::{corner_of, CornerError, DirectionCorner};
use crate::direction::{
    angle_of, angle_unit_of, direction_of, way_of, AngleMeasure, AngleUnit, DirectionError,
    GradientLine,
};
use crate::gradient::{
    all_stop_parts, background_of, descriptor, gradient_of, gradient_type_of,
    lemma_gradient_stops, percents, placed_stops, prefix_len, BackgroundError,
    GradientDescriptor, GradientType,
};
use crate::length::{
    is_unsigned, lemma_length_is_unsigned, lemma_length_text_round_trip, length_of, length_text,
    unit_text, BorderRadiusError, CssMetric, Length, PixelAmount,
};
use crate::number::{is_float_literal, is_numeral_char, lemma_float_literal_chars};
use crate::offset::Position;
use crate::shadow::{
    clip_mode_of, length_count, positional, shadow_of, shadow_of_words, shadow_with,
    BoxShadowClipMode, ShadowDescriptor, ShadowError,
};
use crate::shape::{shape_of, Shape, ShapeError};
use crate::stop::{percentage_of, stop_parts_of, GradientStop, GradientStopError, StopParts};
use crate::text::{
    ends_with, fields, find_from, find_last_below, free_of, is_digit, is_whitespace, is_word,
    joined, lemma_fields_of_joined, lemma_find_after_free, lemma_joined_free_of,
    lemma_words_of_joined, without_suffix, words,
};

verus! {

/// Whether the amount is one that a length gives: so many pixels, or so
/// many times 16 pixels, with a numeral of digits and points only.
pub open spec fn is_plain_amount(p: PixelAmount) -> bool {
    (p.scale == 1 || p.scale == 16) && is_unsigned(p.number) && is_float_literal(p.number)
}

/// The length that gives the amount: in `em` if it is counted in sixteens,
/// else in pixels.
pub open spec fn amount_length(p: PixelAmount) -> Length {
    Length {
        metric: if p.scale == 16 {
            CssMetric::Em
        } else {
            CssMetric::Px
        },
        number: p.number,
    }
}

/// The amount as it is written: as the length that gives it.
pub open spec fn amount_text(p: PixelAmount) -> Seq<char> {
    length_text(amount_length(p))
}

/// An amount that is written out is one word, and reads back as the length
/// that gives the amount.
pub proof fn lemma_amount_text(p: PixelAmount)
    requires
        is_plain_amount(p),
    ensures
        is_word(amount_text(p)),
        length_of(amount_text(p)) == Ok::<Length, BorderRadiusError>(amount_length(p)),
        amount_length(p).to_pixels() == p,
{
    reveal_strlit("px");
    reveal_strlit("em");
    let l = amount_length(p);
    lemma_length_text_round_trip(l);
    let t = amount_text(p);
    let unit = unit_text(l.metric);
    assert forall|i: int| 0 <= i < t.len() implies !is_whitespace(#[trigger] t[i]) by {
        if i < p.number.len() {
            assert(t[i] == p.number[i]);
            assert(is_digit(p.number[i]) || p.number[i] == '.');
        } else {
            assert(t[i] == unit[i - p.number.len()]);
        }
    }
}

/// Every length that is accepted gives a plain amount.
pub proof fn lemma_parsed_amount_is_plain(s: Seq<char>)
    requires
        length_of(s) is Ok,
    ensures
        is_plain_amount((length_of(s)->Ok_0).to_pixels()),
        amount_length((length_of(s)->Ok_0).to_pixels()) == length_of(s)->Ok_0,
{
    lemma_length_is_unsigned(s);
}

/// Whether the corners are such as a list of radii gives: each as wide as it
/// is high, by a plain amount.
pub open spec fn is_plain_radii(r: CornerRadii) -> bool {
    &&& r.is_round()
    &&& is_plain_amount(r.top_left.width)
    &&& is_plain_amount(r.top_right.width)
    &&& is_plain_amount(r.bottom_right.width)
    &&& is_plain_amount(r.bottom_left.width)
}

/// The four radii as words, clockwise from the top left.
pub open spec fn radii_words(r: CornerRadii) -> Seq<Seq<char>> {
    seq![
        amount_text(r.top_left.width),
        amount_text(r.top_right.width),
        amount_text(r.bottom_right.width),
        amount_text(r.bottom_left.width),
    ]
}

/// The corners as they are written: the four radii, clockwise from the top
/// left, with a space between each two.
pub open spec fn radii_text(r: CornerRadii) -> Seq<char> {
    joined(radii_words(r), ' ')
}

/// Corners that are written out and read again are the same corners.
pub proof fn lemma_radii_text_round_trip(r: CornerRadii)
    requires
        is_plain_radii(r),
    ensures
        border_radius_of(radii_text(r)) == Ok::<CornerRadii, BorderRadiusError>(r),
{
    let w = radii_words(r);
    lemma_amount_text(r.top_left.width);
    lemma_amount_text(r.top_right.width);
    lemma_amount_text(r.bottom_right.width);
    lemma_amount_text(r.bottom_left.width);
    lemma_words_of_joined(w);
    let l = seq![
        amount_length(r.top_left.width),
        amount_length(r.top_right.width),
        amount_length(r.bottom_right.width),
        amount_length(r.bottom_left.width),
    ];
    lemma_lengths_of_are(w, l);
}

/// Words that are lengths one by one are lengths together.
pub proof fn lemma_lengths_of_are(w: Seq<Seq<char>>, l: Seq<Length>)
    requires
        w.len() == l.len(),
        forall|i: int|
            0 <= i < w.len() ==> length_of(#[trigger] w[i]) == Ok::<Length, BorderRadiusError>(
                l[i],
            ),
    ensures
        lengths_of(w) == Ok::<Seq<Length>, BorderRadiusError>(l),
    decreases w.len(),
{
    if w.len() == 0 {
        assert(l =~= Seq::<Length>::empty());
    } else {
        let w0 = w.drop_last();
        let l0 = l.drop_last();
        assert forall|i: int| 0 <= i < w0.len() implies length_of(#[trigger] w0[i]) == Ok::<
            Length,
            BorderRadiusError,
        >(l0[i]) by {
            assert(w0[i] == w[i]);
        }
        lemma_lengths_of_are(w0, l0);
        assert(length_of(w.last()) == Ok::<Length, BorderRadiusError>(l.last()));
        assert(l0.push(l.last()) =~= l);
    }
}

/// Corners that were read can be written out, and then read back as the
/// same corners.
pub proof fn lemma_border_radius_reads_back(s: Seq<char>)
    requires
        border_radius_of(s) is Ok,
    ensures
        is_plain_radii(border_radius_of(s)->Ok_0),
        border_radius_of(radii_text(border_radius_of(s)->Ok_0)) == border_radius_of(s),
{
    let w = words(s);
    lemma_lengths_of_len(w);
    assert forall|i: int| 0 <= i < w.len() implies is_plain_amount(
        (#[trigger] (lengths_of(w)->Ok_0)[i]).to_pixels(),
    ) by {
        lemma_lengths_of_each(w, i);
        lemma_parsed_amount_is_plain(w[i]);
    }
    let l = lengths_of(w)->Ok_0;
    assert(is_plain_amount(l[0].to_pixels()));
    if l.len() >= 2 {
        assert(is_plain_amount(l[1].to_pixels()));
    }
    if l.len() >= 3 {
        assert(is_plain_amount(l[2].to_pixels()));
    }
    if l.len() >= 4 {
        assert(is_plain_amount(l[3].to_pixels()));
    }
    lemma_radii_text_round_trip(border_radius_of(s)->Ok_0);
}

/// The keyword of a style.
pub open spec fn style_text(style: BorderStyle) -> Seq<char> {
    match style {
        BorderStyle::NoBorder => "none"@,
        BorderStyle::Solid => "solid"@,
        BorderStyle::Double => "double"@,
        BorderStyle::Dotted => "dotted"@,
        BorderStyle::Dashed => "dashed"@,
        BorderStyle::Hidden => "hidden"@,
        BorderStyle::Groove => "groove"@,
        BorderStyle::Ridge => "ridge"@,
        BorderStyle::Inset => "inset"@,
        BorderStyle::Outset => "outset"@,
    }
}

/// The keyword of a style is one word, and names that style.
pub proof fn lemma_style_text(style: BorderStyle)
    ensures
        is_word(style_text(style)),
        border_style_of(style_text(style)) == Ok::<BorderStyle, BorderError>(style),
{
    reveal_strlit("none");
    reveal_strlit("solid");
    reveal_strlit("double");
    reveal_strlit("dotted");
    reveal_strlit("dashed");
    reveal_strlit("hidden");
    reveal_strlit("groove");
    reveal_strlit("ridge");
    reveal_strlit("inset");
    reveal_strlit("outset");
    let t = style_text(style);
    assert("double"@[2] != "dotted"@[2]);
    assert("double"@[1] != "dashed"@[1]);
    assert("double"@[0] != "hidden"@[0]);
    assert("double"@[0] != "groove"@[0]);
    assert("double"@[0] != "outset"@[0]);
    assert("dotted"@[1] != "dashed"@[1]);
    assert("dotted"@[0] != "hidden"@[0]);
    assert("dotted"@[0] != "groove"@[0]);
    assert("dotted"@[0] != "outset"@[0]);
    assert("dashed"@[0] != "hidden"@[0]);
    assert("dashed"@[0] != "groove"@[0]);
    assert("dashed"@[0] != "outset"@[0]);
    assert("hidden"@[0] != "groove"@[0]);
    assert("hidden"@[0] != "outset"@[0]);
    assert("groove"@[0] != "outset"@[0]);
    assert("solid"@[0] != "ridge"@[0]);
    assert("solid"@[0] != "inset"@[0]);
    assert("ridge"@[0] != "inset"@[0]);
}

/// A color that is written out is one word.
pub proof fn lemma_color_text_is_word(c: ColorU)
    ensures
        is_word(color_text(c)),
        color_text(c).len() == 9,
{
    let t = color_text(c);
    assert(t.len() == 9);
}

/// Whether the border is such as the parser gives: four sides that are
/// alike, a plain width, and corners that are not round.
pub open spec fn is_plain_border(b: BorderDescriptor) -> bool {
    &&& b.is_uniform()
    &&& b.radius == CornerRadii::zero()
    &&& is_plain_amount(b.widths.left)
}

/// The border as it is written: its width, its style and its color, with a
/// space between each two.
pub open spec fn border_text(b: BorderDescriptor) -> Seq<char> {
    joined(seq![amount_text(b.widths.left), style_text(b.left.style), color_text(b.left.color)], ' ')
}

/// A border that is written out and read again is the same border.
pub proof fn lemma_border_text_round_trip(b: BorderDescriptor)
    requires
        is_plain_border(b),
    ensures
        border_of(border_text(b)) == Ok::<BorderDescriptor, BorderError>(b),
{
    let w = seq![amount_text(b.widths.left), style_text(b.left.style), color_text(b.left.color)];
    lemma_amount_text(b.widths.left);
    lemma_style_text(b.left.style);
    lemma_color_text_is_word(b.left.color);
    lemma_color_text_round_trip(b.left.color);
    lemma_words_of_joined(w);
    assert(border_of_three(w[0], w[1], w[2]) == Ok::<BorderDescriptor, BorderError>(b));
}

/// A border that was read can be written out, and then read back as the same
/// border.
pub proof fn lemma_border_reads_back(s: Seq<char>)
    requires
        border_of(s) is Ok,
    ensures
        is_plain_border(border_of(s)->Ok_0),
        border_of(border_text(border_of(s)->Ok_0)) == border_of(s),
{
    let w = words(s);
    if w.len() == 3 {
        lemma_parsed_amount_is_plain(w[0]);
    } else {
        lemma_one_is_plain();
    }
    lemma_border_text_round_trip(border_of(s)->Ok_0);
}

/// One pixel and no pixels are plain amounts.
pub proof fn lemma_one_is_plain()
    ensures
        is_plain_amount(PixelAmount::one()),
        is_plain_amount(PixelAmount::zero()),
{
    reveal_with_fuel(crate::number::digits_end, 3);
    let one = seq!['1'];
    let zero = seq!['0'];
    assert(crate::number::digits_end(one, 0) == 1);
    assert(crate::number::digits_end(zero, 0) == 1);
}

/// The keyword of a side.
pub open spec fn clip_text(mode: BoxShadowClipMode) -> Seq<char> {
    match mode {
        BoxShadowClipMode::Inset => "inset"@,
        BoxShadowClipMode::Outset => "outset"@,
    }
}

/// Whether the shadow is such as the parser gives: all its four lengths are
/// plain amounts.
pub open spec fn is_plain_shadow(d: ShadowDescriptor) -> bool {
    &&& is_plain_amount(d.offset_x)
    &&& is_plain_amount(d.offset_y)
    &&& is_plain_amount(d.blur_radius)
    &&& is_plain_amount(d.spread_radius)
}

/// The six words of a shadow: the two steps of its offset, its blur, its
/// spread, its color and its side.
pub open spec fn shadow_words(d: ShadowDescriptor) -> Seq<Seq<char>> {
    seq![
        amount_text(d.offset_x),
        amount_text(d.offset_y),
        amount_text(d.blur_radius),
        amount_text(d.spread_radius),
        color_text(d.color),
        clip_text(d.clip_mode),
    ]
}

/// The shadow as it is written: `none` for no shadow, else its six words
/// with a space between each two.
pub open spec fn shadow_text(shadow: Option<ShadowDescriptor>) -> Seq<char> {
    match shadow {
        None => "none"@,
        Some(d) => joined(shadow_words(d), ' '),
    }
}

/// A shadow, or no shadow, that is written out and read again is the same.
pub proof fn lemma_shadow_text_round_trip(shadow: Option<ShadowDescriptor>)
    requires
        shadow matches Some(d) ==> is_plain_shadow(d),
    ensures
        shadow_of(shadow_text(shadow)) == Ok::<Option<ShadowDescriptor>, ShadowError>(shadow),
{
    reveal_strlit("none");
    reveal_strlit("inset");
    reveal_strlit("outset");
    match shadow {
        None => {
            let w = seq!["none"@];
            assert(is_word("none"@));
            lemma_words_of_joined(w);
            assert(joined(w, ' ') =~= "none"@);
        },
        Some(d) => {
            let w = shadow_words(d);
            lemma_amount_text(d.offset_x);
            lemma_amount_text(d.offset_y);
            lemma_amount_text(d.blur_radius);
            lemma_amount_text(d.spread_radius);
            lemma_color_text_is_word(d.color);
            lemma_color_text_round_trip(d.color);
            assert(is_word(clip_text(d.clip_mode)));
            lemma_words_of_joined(w);
            assert(positional(w) == 5);
            assert(length_count(w) == 4);
            let l = seq![
                amount_length(d.offset_x),
                amount_length(d.offset_y),
                amount_length(d.blur_radius),
                amount_length(d.spread_radius),
            ];
            let first = w.take(4);
            assert(first.len() == 4);
            assert(first[0] == w[0] && first[1] == w[1] && first[2] == w[2] && first[3] == w[3]);
            lemma_lengths_of_are(first, l);
            assert("inset"@[0] != "outset"@[0]);
            assert(w.last() == clip_text(d.clip_mode));
            assert(clip_mode_of(w) == d.clip_mode);
            assert(shadow_with(l, d.color, d.clip_mode) == d);
            assert(shadow_of_words(w) == Ok::<ShadowDescriptor, ShadowError>(d));
        },
    }
}

/// A shadow that was read can be written out, and then read back as the same
/// shadow.
pub proof fn lemma_shadow_reads_back(s: Seq<char>)
    requires
        shadow_of(s) is Ok,
    ensures
        shadow_of(s)->Ok_0 matches Some(d) ==> is_plain_shadow(d),
        shadow_of(shadow_text(shadow_of(s)->Ok_0)) == shadow_of(s),
{
    let w = words(s);
    if shadow_of(s)->Ok_0 is Some {
        let first = w.take(length_count(w));
        lemma_lengths_of_len(first);
        let l = lengths_of(first)->Ok_0;
        assert forall|i: int| 0 <= i < l.len() implies is_plain_amount(
            (#[trigger] l[i]).to_pixels(),
        ) by {
            lemma_lengths_of_each(first, i);
            lemma_parsed_amount_is_plain(first[i]);
        }
        lemma_one_is_plain();
        assert(is_plain_amount(l[0].to_pixels()));
        assert(is_plain_amount(l[1].to_pixels()));
        if l.len() >= 3 {
            assert(is_plain_amount(l[2].to_pixels()));
        }
        if l.len() >= 4 {
            assert(is_plain_amount(l[3].to_pixels()));
        }
    }
    lemma_shadow_text_round_trip(shadow_of(s)->Ok_0);
}

/// The words that name an edge or a corner: one word for an edge, two for a
/// corner, the top or the bottom first.
pub open spec fn corner_words(c: DirectionCorner) -> Seq<Seq<char>> {
    match c {
        DirectionCorner::Right => seq!["right"@],
        DirectionCorner::Left => seq!["left"@],
        DirectionCorner::Top => seq!["top"@],
        DirectionCorner::Bottom => seq!["bottom"@],
        DirectionCorner::TopRight => seq!["top"@, "right"@],
        DirectionCorner::TopLeft => seq!["top"@, "left"@],
        DirectionCorner::BottomRight => seq!["bottom"@, "right"@],
        DirectionCorner::BottomLeft => seq!["bottom"@, "left"@],
    }
}

/// The words of a direction: an angle with its unit, or `to` and the words
/// of where the gradient ends.
pub open spec fn line_words(line: GradientLine) -> Seq<Seq<char>> {
    match line {
        GradientLine::Angle(m) => seq![m.number + m.unit.suffix()],
        GradientLine::FromTo(_, to) => seq!["to"@] + corner_words(to),
    }
}

/// The direction as it is written.
pub open spec fn line_text(line: GradientLine) -> Seq<char> {
    joined(line_words(line), ' ')
}

/// Whether the direction is such as the parser gives: an angle with a
/// well-formed numeral, or the way to an edge or corner from the one across.
pub open spec fn is_plain_line(line: GradientLine) -> bool {
    match line {
        GradientLine::Angle(m) => is_float_literal(m.number),
        GradientLine::FromTo(from, to) => from == to.opposite(),
    }
}

/// No character of a numeral is white space, a comma, a bracket, a percent
/// sign or the letter `g`.
pub proof fn lemma_numeral_is_word(s: Seq<char>)
    requires
        is_float_literal(s),
    ensures
        is_word(s),
        free_of(s, ','),
        free_of(s, 'g'),
        free_of(s, '%'),
{
    lemma_float_literal_chars(s);
    assert forall|i: int| 0 <= i < s.len() implies !is_whitespace(#[trigger] s[i]) && s[i] != ','
        && s[i] != 'g' && s[i] != '%' by {
        assert(is_numeral_char(s[i]));
    }
}

/// An angle that is written out is one word without a comma, and reads back
/// as that angle.
pub proof fn lemma_angle_text(m: AngleMeasure)
    requires
        is_float_literal(m.number),
    ensures
        is_word(m.number + m.unit.suffix()),
        free_of(m.number + m.unit.suffix(), ','),
        angle_unit_of(m.number + m.unit.suffix()) == Some(m.unit),
        angle_of(m.number + m.unit.suffix(), m.unit) == Ok::<GradientLine, DirectionError>(
            GradientLine::Angle(m),
        ),
{
    reveal_strlit("deg");
    reveal_strlit("rad");
    reveal_strlit("grad");
    lemma_numeral_is_word(m.number);
    let n = m.number;
    let suffix = m.unit.suffix();
    let t = n + suffix;
    assert forall|i: int| 0 <= i < t.len() implies !is_whitespace(#[trigger] t[i]) && t[i]
        != ',' by {
        if i < n.len() {
            assert(t[i] == n[i]);
        } else {
            assert(t[i] == suffix[i - n.len()]);
        }
    }
    assert(t.subrange(t.len() - suffix.len(), t.len() as int) =~= suffix);
    assert(without_suffix(t, suffix) =~= n);
    let last3 = t.subrange(t.len() - 3, t.len() as int);
    assert(last3[0] == t[t.len() - 3]);
    assert(last3[1] == t[t.len() - 2]);
    match m.unit {
        AngleUnit::Deg => {
            assert(ends_with(t, "deg"@));
        },
        AngleUnit::Grad => {
            assert(t[t.len() - 2] == 'a');
            assert(!ends_with(t, "deg"@));
            assert(ends_with(t, "grad"@));
        },
        AngleUnit::Rad => {
            assert(t[t.len() - 2] == 'a');
            assert(!ends_with(t, "deg"@));
            let last4 = t.subrange(t.len() - 4, t.len() as int);
            assert(last4[0] == t[t.len() - 4]);
            assert(t[t.len() - 4] == n[n.len() - 1]);
            assert(n[n.len() - 1] != 'g');
            assert(!ends_with(t, "grad"@));
            assert(ends_with(t, "rad"@));
        },
    }
}

/// The names of the four edges are words without a comma, and each names its
/// edge.
pub proof fn lemma_edge_names()
    ensures
        corner_of("right"@) == Ok::<DirectionCorner, CornerError>(DirectionCorner::Right),
        corner_of("left"@) == Ok::<DirectionCorner, CornerError>(DirectionCorner::Left),
        corner_of("top"@) == Ok::<DirectionCorner, CornerError>(DirectionCorner::Top),
        corner_of("bottom"@) == Ok::<DirectionCorner, CornerError>(DirectionCorner::Bottom),
        is_word("right"@) && free_of("right"@, ','),
        is_word("left"@) && free_of("left"@, ','),
        is_word("top"@) && free_of("top"@, ','),
        is_word("bottom"@) && free_of("bottom"@, ','),
        is_word("to"@) && free_of("to"@, ','),
        angle_unit_of("to"@) is None,
{
    reveal_strlit("right");
    reveal_strlit("left");
    reveal_strlit("top");
    reveal_strlit("bottom");
    reveal_strlit("to");
    reveal_strlit("deg");
    reveal_strlit("rad");
    reveal_strlit("grad");
    assert("right"@[0] != "left"@[0]);
    assert("right"@[0] != "top"@[0]);
    assert("right"@[0] != "bottom"@[0]);
    assert("left"@[0] != "top"@[0]);
    assert("left"@[0] != "bottom"@[0]);
    assert("top"@[0] != "bottom"@[0]);
}

/// A direction that is written out holds no comma, and reads back as that
/// direction.
pub proof fn lemma_line_text(line: GradientLine)
    requires
        is_plain_line(line),
    ensures
        free_of(line_text(line), ','),
        direction_of(line_text(line)) == Ok::<GradientLine, DirectionError>(line),
{
    let w = line_words(line);
    lemma_edge_names();
    match line {
        GradientLine::Angle(m) => {
            lemma_angle_text(m);
            assert(w.len() == 1);
        },
        GradientLine::FromTo(from, to) => {
            assert(w[0] == "to"@);
            assert(w.len() == 1 + corner_words(to).len());
            assert(w[1] == corner_words(to)[0]);
            if w.len() == 3 {
                assert(w[2] == corner_words(to)[1]);
            }
            to.lemma_opposite_involution();
        },
    }
    lemma_words_of_joined(w);
    lemma_joined_free_of(w, ' ', ',');
    match line {
        GradientLine::Angle(m) => {},
        GradientLine::FromTo(from, to) => {
            assert(way_of(w, line_text(line)) == Ok::<GradientLine, DirectionError>(line));
        },
    }
}

/// The name of a shape.
pub open spec fn shape_text(shape: Shape) -> Seq<char> {
    match shape {
        Shape::Circle => "circle"@,
        Shape::Ellipse => "ellipse"@,
    }
}

/// The name of a shape holds no comma, and names that shape.
pub proof fn lemma_shape_text(shape: Shape)
    ensures
        free_of(shape_text(shape), ','),
        shape_of(shape_text(shape)) == Ok::<Shape, ShapeError>(shape),
{
    reveal_strlit("circle");
    reveal_strlit("ellipse");
    assert("circle"@[0] != "ellipse"@[0]);
}

/// Whether the stop lies at a percentage that was written: its place is
/// that of a well-formed numeral.
pub open spec fn is_explicit_stop(stop: GradientStop) -> bool {
    &&& stop.offset is Some
    &&& (stop.offset->0).from is Percent
    &&& is_float_literal(stop_percent(stop))
    &&& stop.offset->0 == Position::at(stop_percent(stop))
}

/// The number of the percentage at which a stop lies.
pub open spec fn stop_percent(stop: GradientStop) -> Seq<char> {
    (stop.offset->0).from->Percent_0
}

/// The two words of a stop: its color and its percentage.
pub open spec fn stop_words(stop: GradientStop) -> Seq<Seq<char>> {
    seq![color_text(stop.color), stop_percent(stop) + "%"@]
}

/// The stop as it is written.
pub open spec fn stop_text(stop: GradientStop) -> Seq<char> {
    joined(stop_words(stop), ' ')
}

/// A stop that is written out holds no comma, and reads back as that stop.
pub proof fn lemma_stop_text(stop: GradientStop)
    requires
        is_explicit_stop(stop),
    ensures
        free_of(stop_text(stop), ','),
        stop_parts_of(stop_text(stop)) == Ok::<StopParts, GradientStopError>(
            StopParts { color: stop.color, percent: Some(stop_percent(stop)) },
        ),
{
    reveal_strlit("%");
    let p = stop_percent(stop);
    let w = stop_words(stop);
    let c = color_text(stop.color);
    lemma_color_text_is_word(stop.color);
    lemma_color_text_round_trip(stop.color);
    lemma_numeral_is_word(p);
    let t = p + "%"@;
    assert forall|i: int| 0 <= i < t.len() implies !is_whitespace(#[trigger] t[i]) && t[i]
        != ',' by {
        if i < p.len() {
            assert(t[i] == p[i]);
        } else {
            assert(t[i] == "%"@[i - p.len()]);
        }
    }
    assert(free_of(c, ','));
    lemma_words_of_joined(w);
    lemma_joined_free_of(w, ' ', ',');
    assert(t.subrange(t.len() - 1, t.len() as int) =~= "%"@);
    assert(without_suffix(t, "%"@) =~= p);
    assert(percentage_of(t) == Some(p));
}

/// The name of the function of a gradient.
pub open spec fn function_name(ty: GradientType) -> Seq<char> {
    match ty {
        GradientType::LinearGradient => "linear-gradient"@,
        GradientType::RepeatingLinearGradient => "repeating-linear-gradient"@,
        GradientType::RadialGradient => "radial-gradient"@,
        GradientType::RepeatingRadialGradient => "repeating-radial-gradient"@,
    }
}

/// The function of a gradient.
pub open spec fn function_of(g: GradientDescriptor) -> GradientType {
    match g {
        GradientDescriptor::Linear { extend_mode, .. } => if extend_mode is Repeat {
            GradientType::RepeatingLinearGradient
        } else {
            GradientType::LinearGradient
        },
        GradientDescriptor::Radial { extend_mode, .. } => if extend_mode is Repeat {
            GradientType::RepeatingRadialGradient
        } else {
            GradientType::RadialGradient
        },
    }
}

/// What a gradient writes before its stops: its direction or its shape.
pub open spec fn head_text(g: GradientDescriptor) -> Seq<char> {
    match g {
        GradientDescriptor::Linear { direction, .. } => line_text(direction),
        GradientDescriptor::Radial { shape, .. } => shape_text(shape),
    }
}

/// The texts of the stops, in order.
pub open spec fn stop_texts(stops: Seq<GradientStop>) -> Seq<Seq<char>> {
    stops.map_values(|stop: GradientStop| stop_text(stop))
}

/// What the brackets of a gradient hold: its direction or shape, then its
/// stops.
pub open spec fn body_parts(g: GradientDescriptor) -> Seq<Seq<char>> {
    seq![head_text(g)] + stop_texts(g.stops())
}

/// The gradient as it is written: the name of its function and, in
/// brackets and with commas between them, its direction or shape and its
/// stops.
pub open spec fn gradient_text(g: GradientDescriptor) -> Seq<char> {
    function_name(function_of(g)) + seq!['('] + joined(body_parts(g), ',') + seq![')']
}

/// Whether the gradient can be written as it is: it has two stops or more,
/// each at a percentage that was written, and its direction is plain.
pub open spec fn is_explicit_gradient(g: GradientDescriptor) -> bool {
    &&& g.stops().len() >= 2
    &&& forall|i: int| 0 <= i < g.stops().len() ==> is_explicit_stop(#[trigger] g.stops()[i])
    &&& g matches GradientDescriptor::Linear { direction, .. } ==> is_plain_line(direction)
}

/// The parts of stops that are written out, read one by one.
pub open spec fn parts_of_stops(stops: Seq<GradientStop>) -> Seq<StopParts> {
    stops.map_values(
        |stop: GradientStop| StopParts { color: stop.color, percent: Some(stop_percent(stop)) },
    )
}

/// Stops that are written out read back, all together, as their parts.
pub proof fn lemma_stop_texts(stops: Seq<GradientStop>)
    requires
        forall|i: int| 0 <= i < stops.len() ==> is_explicit_stop(#[trigger] stops[i]),
    ensures
        all_stop_parts(stop_texts(stops)) == Ok::<Seq<StopParts>, GradientStopError>(
            parts_of_stops(stops),
        ),
        placed_stops(parts_of_stops(stops)) == stops,
    decreases stops.len(),
{
    let f = stop_texts(stops);
    let parts = parts_of_stops(stops);
    if stops.len() == 0 {
        assert(parts =~= Seq::<StopParts>::empty());
    } else {
        let init = stops.drop_last();
        assert forall|i: int| 0 <= i < init.len() implies is_explicit_stop(#[trigger] init[i]) by {
            assert(init[i] == stops[i]);
        }
        lemma_stop_texts(init);
        assert(f.drop_last() =~= stop_texts(init));
        assert(is_explicit_stop(stops.last()));
        lemma_stop_text(stops.last());
        assert(f.last() == stop_text(stops.last()));
        assert(parts_of_stops(init).push(parts.last()) =~= parts);
    }
    assert forall|i: int| 0 <= i < stops.len() implies placed_stops(parts)[i] == stops[i] by {
        assert(is_explicit_stop(stops[i]));
        assert(percents(parts)[i] == Some(stop_percent(stops[i])));
    }
    assert(placed_stops(parts) =~= stops);
}

/// The names of the four gradient functions hold no bracket, and each names
/// its function.
pub proof fn lemma_function_name(ty: GradientType)
    ensures
        free_of(function_name(ty), '('),
        gradient_type_of(function_name(ty)) == Some(ty),
{
    reveal_strlit("linear-gradient");
    reveal_strlit("repeating-linear-gradient");
    reveal_strlit("radial-gradient");
    reveal_strlit("repeating-radial-gradient");
    assert("linear-gradient"@[0] != "radial-gradient"@[0]);
    assert("repeating-linear-gradient"@[10] != "repeating-radial-gradient"@[10]);
}

/// A gradient that is written out and read again is the same gradient.
pub proof fn lemma_gradient_text_round_trip(g: GradientDescriptor)
    requires
        is_explicit_gradient(g),
    ensures
        background_of(gradient_text(g)) == Ok::<GradientDescriptor, BackgroundError>(g),
{
    let ty = function_of(g);
    let name = function_name(ty);
    let parts = body_parts(g);
    let body = joined(parts, ',');
    let s = gradient_text(g);
    lemma_function_name(ty);
    // Where the brackets are.
    let after = seq!['('] + body + seq![')'];
    assert(s =~= name + after);
    lemma_find_after_free(name, after, '(', 0);
    let open = find_from(s, '(', 0);
    assert(open == name.len());
    assert(s.subrange(0, open) =~= name);
    let rest = s.subrange(open + 1, s.len() as int);
    assert(rest =~= body + seq![')']);
    assert(rest[rest.len() - 1] == ')');
    let close = find_last_below(rest, ')', rest.len() as int);
    assert(close == rest.len() - 1);
    assert(rest.subrange(0, close) =~= body);
    // What the brackets hold.
    let stops = g.stops();
    assert forall|i: int| 0 <= i < parts.len() implies free_of(#[trigger] parts[i], ',') by {
        if i == 0 {
            match g {
                GradientDescriptor::Linear { direction, .. } => {
                    lemma_line_text(direction);
                },
                GradientDescriptor::Radial { shape, .. } => {
                    lemma_shape_text(shape);
                },
            }
        } else {
            assert(parts[i] == stop_text(stops[i - 1]));
            assert(is_explicit_stop(stops[i - 1]));
            lemma_stop_text(stops[i - 1]);
        }
    }
    lemma_fields_of_joined(parts, ',');
    let f = fields(body, ',');
    assert(f == parts);
    assert(f[0] == head_text(g));
    match g {
        GradientDescriptor::Linear { direction, .. } => {
            lemma_line_text(direction);
        },
        GradientDescriptor::Radial { shape, .. } => {
            lemma_shape_text(shape);
        },
    }
    assert(prefix_len(ty, f) == 1);
    assert(f.skip(1) =~= stop_texts(stops));
    lemma_stop_texts(stops);
    assert(descriptor(ty, f, stops) == g);
    assert(gradient_of(ty, body, s) == Ok::<GradientDescriptor, BackgroundError>(g));
}

/// Every direction that is accepted is plain.
pub proof fn lemma_parsed_line_is_plain(s: Seq<char>)
    requires
        direction_of(s) is Ok,
    ensures
        is_plain_line(direction_of(s)->Ok_0),
{
    match direction_of(s)->Ok_0 {
        GradientLine::FromTo(from, to) => {
            to.lemma_opposite_involution();
            let w = words(s);
            match corner_of(w[1]) {
                Ok(first) => {
                    first.lemma_opposite_involution();
                },
                Err(_) => {},
            }
        },
        GradientLine::Angle(m) => {},
    }
}

/// A gradient that was read, all of whose stops lie at percentages that
/// were written, can be written out, and then reads back as the same
/// gradient.
pub proof fn lemma_gradient_reads_back(s: Seq<char>)
    requires
        background_of(s) is Ok,
        forall|i: int|
            0 <= i < (background_of(s)->Ok_0).stops().len() ==> is_explicit_stop(
                #[trigger] (background_of(s)->Ok_0).stops()[i],
            ),
    ensures
        is_explicit_gradient(background_of(s)->Ok_0),
        background_of(gradient_text(background_of(s)->Ok_0)) == background_of(s),
{
    let g = background_of(s)->Ok_0;
    lemma_gradient_stops(s);
    let open = find_from(s, '(', 0);
    let rest = s.subrange(open + 1, s.len() as int);
    let close = find_last_below(rest, ')', rest.len() as int);
    let f = fields(rest.subrange(0, close), ',');
    match g {
        GradientDescriptor::Linear { direction, .. } => {
            if direction_of(f[0]) is Ok {
                lemma_parsed_line_is_plain(f[0]);
            }
        },
        GradientDescriptor::Radial { .. } => {},
    }
    lemma_gradient_text_round_trip(g);
}

} // verus!
