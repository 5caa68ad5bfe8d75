//! Gradients: the gradient functions, with their direction or shape and
//! their color stops.

use vstd::prelude::*;
use crate::color::ColorU;
use crate::corner::DirectionCorner;
use crate::direction::{
    direction_of, parse_direction, CssDirectionParseError, Direction, DirectionError,
    GradientLine,
};
use crate::model::outcome;
use crate::number::Number;
use crate::offset::{
    lemma_normalized, normalize_offsets, numerals_view, placed, positions,
};
use crate::shape::{parse_shape, shape_of, CssShapeParseError, Shape, ShapeError};
use crate::stop::{
    parse_stop_parts, parts_view, stop_parts_of, CssGradientStopParseError, GradientStop,
    GradientStopError, GradientStopPre, StopParts,
};
use crate::text::{
    fields, find_char, find_from, find_last_below, find_last_char, lemma_find_from_bounds,
    lemma_find_last_below, split_char, str_eq, texts, to_chars,
};

verus! {

/// How a gradient goes on beyond its last stop.
#[derive(Debug, PartialEq, Eq, Clone, Copy, Structural)]
pub enum ExtendMode {
    /// The color of the last stop goes on.
    Clamp,
    /// The gradient starts over.
    Repeat,
}

/// The four gradient functions.
#[derive(Debug, PartialEq, Eq, Clone, Copy, Structural)]
pub enum GradientType {
    LinearGradient,
    RepeatingLinearGradient,
    RadialGradient,
    RepeatingRadialGradient,
}

impl GradientType {
    /// Whether the gradient runs along a line; else it runs out from a
    /// center.
    pub open spec fn is_linear(self) -> bool {
        self is LinearGradient || self is RepeatingLinearGradient
    }

    /// How the gradient goes on beyond its last stop: the repeating ones
    /// start over, the others keep their last color.
    pub open spec fn extend_mode(self) -> ExtendMode {
        if self is RepeatingLinearGradient || self is RepeatingRadialGradient {
            ExtendMode::Repeat
        } else {
            ExtendMode::Clamp
        }
    }
}

/// A linear gradient.
#[derive(Debug, PartialEq, Eq, Clone)]
pub struct LinearGradientPreInfo<'a> {
    pub direction: Direction<'a>,
    pub extend_mode: ExtendMode,
    pub stops: Vec<GradientStopPre<'a>>,
}

/// A radial gradient.
#[derive(Debug, PartialEq, Eq, Clone)]
pub struct RadialGradientPreInfo<'a> {
    pub shape: Shape,
    pub extend_mode: ExtendMode,
    pub stops: Vec<GradientStopPre<'a>>,
}

/// A gradient.
#[derive(Debug, PartialEq, Eq, Clone)]
pub enum ParsedGradient<'a> {
    LinearGradient(LinearGradientPreInfo<'a>),
    RadialGradient(RadialGradientPreInfo<'a>),
}

/// What a `ParsedGradient` stands for.
pub ghost enum GradientDescriptor {
    Linear { direction: GradientLine, extend_mode: ExtendMode, stops: Seq<GradientStop> },
    Radial { shape: Shape, extend_mode: ExtendMode, stops: Seq<GradientStop> },
}

/// What a list of stops stands for.
pub open spec fn stops_view(v: Seq<GradientStopPre>) -> Seq<GradientStop> {
    v.map_values(|s: GradientStopPre| s@)
}

impl<'a> View for ParsedGradient<'a> {
    type V = GradientDescriptor;

    open spec fn view(&self) -> GradientDescriptor {
        match *self {
            ParsedGradient::LinearGradient(g) => GradientDescriptor::Linear {
                direction: g.direction@,
                extend_mode: g.extend_mode,
                stops: stops_view(g.stops@),
            },
            ParsedGradient::RadialGradient(g) => GradientDescriptor::Radial {
                shape: g.shape,
                extend_mode: g.extend_mode,
                stops: stops_view(g.stops@),
            },
        }
    }
}

impl GradientDescriptor {
    /// The stops of the gradient.
    pub open spec fn stops(self) -> Seq<GradientStop> {
        match self {
            GradientDescriptor::Linear { stops, .. } => stops,
            GradientDescriptor::Radial { stops, .. } => stops,
        }
    }

    /// How the gradient goes on beyond its last stop.
    pub open spec fn extend_mode(self) -> ExtendMode {
        match self {
            GradientDescriptor::Linear { extend_mode, .. } => extend_mode,
            GradientDescriptor::Radial { extend_mode, .. } => extend_mode,
        }
    }
}

/// Why a gradient was not accepted.
#[derive(Debug, PartialEq, Eq, Clone, Copy)]
pub enum CssBackgroundParseError<'a> {
    /// Kept for callers that have an error of their own to report in this
    /// type; no parser of this library returns it.
    Error(&'a str),
    /// What stands before the first `(` names no gradient function, and is
    /// held; or there is no `(` at all, or something follows the last `)`,
    /// and the whole value is held.
    InvalidBackground(&'a str),
    /// No `)` follows the first `(`; holds the whole value.
    UnclosedGradient(&'a str),
    /// Kept for callers; no parser of this library returns it.
    NoDirection(&'a str),
    /// Fewer than two color stops; holds the whole value.
    TooFewGradientStops(&'a str),
    /// Kept for callers; no parser of this library returns it.
    DirectionParseError(CssDirectionParseError<'a>),
    /// A color stop was not accepted.
    GradientParseError(CssGradientStopParseError<'a>),
    /// Kept for callers; no parser of this library returns it.
    ShapeParseError(CssShapeParseError<'a>),
}

/// What a `CssBackgroundParseError` stands for.
pub ghost enum BackgroundError {
    Error(Seq<char>),
    InvalidBackground(Seq<char>),
    UnclosedGradient(Seq<char>),
    NoDirection(Seq<char>),
    TooFewGradientStops(Seq<char>),
    DirectionParseError(DirectionError),
    GradientParseError(GradientStopError),
    ShapeParseError(ShapeError),
}

impl<'a> View for CssBackgroundParseError<'a> {
    type V = BackgroundError;

    open spec fn view(&self) -> BackgroundError {
        match *self {
            CssBackgroundParseError::Error(s) => BackgroundError::Error(s@),
            CssBackgroundParseError::InvalidBackground(s) => BackgroundError::InvalidBackground(s@),
            CssBackgroundParseError::UnclosedGradient(s) => BackgroundError::UnclosedGradient(s@),
            CssBackgroundParseError::NoDirection(s) => BackgroundError::NoDirection(s@),
            CssBackgroundParseError::TooFewGradientStops(s) => BackgroundError::TooFewGradientStops(
                s@,
            ),
            CssBackgroundParseError::DirectionParseError(e) => BackgroundError::DirectionParseError(
                e@,
            ),
            CssBackgroundParseError::GradientParseError(e) => BackgroundError::GradientParseError(
                e@,
            ),
            CssBackgroundParseError::ShapeParseError(e) => BackgroundError::ShapeParseError(e@),
        }
    }
}

/// The error of a gradient whose direction was not accepted.
impl<'a> From<CssDirectionParseError<'a>> for CssBackgroundParseError<'a> {
    fn from(e: CssDirectionParseError<'a>) -> (r: Self) {
        CssBackgroundParseError::DirectionParseError(e)
    }
}

impl<'a> vstd::std_specs::convert::FromSpecImpl<CssDirectionParseError<'a>> for CssBackgroundParseError<'a> {
    open spec fn obeys_from_spec() -> bool {
        true
    }

    open spec fn from_spec(e: CssDirectionParseError<'a>) -> Self {
        CssBackgroundParseError::DirectionParseError(e)
    }
}

/// The error of a gradient one of whose stops was not accepted.
impl<'a> From<CssGradientStopParseError<'a>> for CssBackgroundParseError<'a> {
    fn from(e: CssGradientStopParseError<'a>) -> (r: Self) {
        CssBackgroundParseError::GradientParseError(e)
    }
}

impl<'a> vstd::std_specs::convert::FromSpecImpl<CssGradientStopParseError<'a>> for CssBackgroundParseError<'a> {
    open spec fn obeys_from_spec() -> bool {
        true
    }

    open spec fn from_spec(e: CssGradientStopParseError<'a>) -> Self {
        CssBackgroundParseError::GradientParseError(e)
    }
}

/// The error of a gradient whose shape was not accepted.
impl<'a> From<CssShapeParseError<'a>> for CssBackgroundParseError<'a> {
    fn from(e: CssShapeParseError<'a>) -> (r: Self) {
        CssBackgroundParseError::ShapeParseError(e)
    }
}

impl<'a> vstd::std_specs::convert::FromSpecImpl<CssShapeParseError<'a>> for CssBackgroundParseError<'a> {
    open spec fn obeys_from_spec() -> bool {
        true
    }

    open spec fn from_spec(e: CssShapeParseError<'a>) -> Self {
        CssBackgroundParseError::ShapeParseError(e)
    }
}

/// The gradient function that `keyword` names.
pub open spec fn gradient_type_of(keyword: Seq<char>) -> Option<GradientType> {
    if keyword == "linear-gradient"@ {
        Some(GradientType::LinearGradient)
    } else if keyword == "repeating-linear-gradient"@ {
        Some(GradientType::RepeatingLinearGradient)
    } else if keyword == "radial-gradient"@ {
        Some(GradientType::RadialGradient)
    } else if keyword == "repeating-radial-gradient"@ {
        Some(GradientType::RepeatingRadialGradient)
    } else {
        None
    }
}

/// The parts of the color stops that the texts `f` are, in order; the error
/// of the first text that is no color stop, if there is such a text.
pub open spec fn all_stop_parts(f: Seq<Seq<char>>) -> Result<Seq<StopParts>, GradientStopError>
    decreases f.len(),
{
    if f.len() == 0 {
        Ok(Seq::empty())
    } else {
        match all_stop_parts(f.drop_last()) {
            Err(e) => Err(e),
            Ok(l) => match stop_parts_of(f.last()) {
                Err(e) => Err(e),
                Ok(x) => Ok(l.push(x)),
            },
        }
    }
}

/// The percentages that were written with the stops, nothing for a stop
/// without one.
pub open spec fn percents(parts: Seq<StopParts>) -> Seq<Option<Seq<char>>> {
    parts.map_values(|p: StopParts| p.percent)
}

/// The stops of a gradient, each where it comes to lie.
pub open spec fn placed_stops(parts: Seq<StopParts>) -> Seq<GradientStop> {
    Seq::new(
        parts.len(),
        |i: int| GradientStop { offset: Some(placed(percents(parts), i)), color: parts[i].color },
    )
}

/// How many of the fields `f` of a gradient function stand before its color
/// stops: the first, if it is a direction in a linear gradient or a shape in
/// a radial one; else none.
pub open spec fn prefix_len(ty: GradientType, f: Seq<Seq<char>>) -> int {
    if ty.is_linear() {
        if direction_of(f[0]) is Ok {
            1
        } else {
            0
        }
    } else {
        if shape_of(f[0]) is Ok {
            1
        } else {
            0
        }
    }
}

/// The gradient of the stops `stops`, with what the first of the fields `f`
/// says of its direction or shape. Without a direction a linear gradient runs
/// from the top to the bottom; without a shape a radial one is an ellipse.
pub open spec fn descriptor(
    ty: GradientType,
    f: Seq<Seq<char>>,
    stops: Seq<GradientStop>,
) -> GradientDescriptor {
    if ty.is_linear() {
        GradientDescriptor::Linear {
            direction: match direction_of(f[0]) {
                Ok(d) => d,
                Err(_) => GradientLine::downwards(),
            },
            extend_mode: ty.extend_mode(),
            stops,
        }
    } else {
        GradientDescriptor::Radial {
            shape: match shape_of(f[0]) {
                Ok(sh) => sh,
                Err(_) => Shape::Ellipse,
            },
            extend_mode: ty.extend_mode(),
            stops,
        }
    }
}

/// The gradient of function `ty` whose brackets hold `body`; `s` is the whole
/// value.
///
/// The body is cut at its commas. A first field that is a direction, in a
/// linear gradient, or a shape, in a radial one, is taken as such; if it is
/// not, that is no error, and the field is a color stop like the others. Two
/// color stops at least must remain. They are read in order, and then each
/// is given its place.
pub open spec fn gradient_of(ty: GradientType, body: Seq<char>, s: Seq<char>) -> Result<
    GradientDescriptor,
    BackgroundError,
> {
    let f = fields(body, ',');
    let skip = prefix_len(ty, f);
    if f.len() - skip < 2 {
        Err(BackgroundError::TooFewGradientStops(s))
    } else {
        match all_stop_parts(f.skip(skip)) {
            Err(e) => Err(BackgroundError::GradientParseError(e)),
            Ok(parts) => Ok(descriptor(ty, f, placed_stops(parts))),
        }
    }
}

/// The gradient that `s` is.
///
/// What stands before the first `(` must name a gradient function, and the
/// value must end with a `)`. The body is what stands between the two.
pub open spec fn background_of(s: Seq<char>) -> Result<GradientDescriptor, BackgroundError> {
    let open = find_from(s, '(', 0);
    let keyword = s.subrange(0, open);
    let rest = s.subrange(open + 1, s.len() as int);
    let close = find_last_below(rest, ')', rest.len() as int);
    match gradient_type_of(keyword) {
        None => Err(BackgroundError::InvalidBackground(keyword)),
        Some(ty) => if open >= s.len() {
            Err(BackgroundError::InvalidBackground(s))
        } else if close < 0 {
            Err(BackgroundError::UnclosedGradient(s))
        } else if close + 1 < rest.len() {
            Err(BackgroundError::InvalidBackground(s))
        } else {
            gradient_of(ty, rest.subrange(0, close), s)
        },
    }
}

/// A value that is a gradient starts with the name of a gradient function
/// and a `(`, and its last character is a `)`: nothing follows the body.
pub proof fn lemma_gradient_shape(s: Seq<char>)
    requires
        background_of(s) is Ok,
    ensures
        s.len() >= 2,
        s.last() == ')',
        find_from(s, '(', 0) < s.len() - 1,
        gradient_type_of(s.subrange(0, find_from(s, '(', 0))) is Some,
{
    let open = find_from(s, '(', 0);
    lemma_find_from_bounds(s, '(', 0);
    let rest = s.subrange(open + 1, s.len() as int);
    lemma_find_last_below(rest, ')', rest.len() as int);
}

/// A list of stops has as many stops as there were texts.
pub proof fn lemma_all_stop_parts_len(f: Seq<Seq<char>>)
    ensures
        all_stop_parts(f) matches Ok(l) ==> l.len() == f.len(),
    decreases f.len(),
{
    if f.len() > 0 {
        lemma_all_stop_parts_len(f.drop_last());
    }
}

/// Once a prefix of the texts has failed, the whole list fails in the same
/// way.
pub proof fn lemma_all_stop_parts_prefix_error(f: Seq<Seq<char>>, k: int)
    requires
        0 <= k <= f.len(),
        all_stop_parts(f.take(k)) is Err,
    ensures
        all_stop_parts(f) == all_stop_parts(f.take(k)),
    decreases f.len() - k,
{
    if k < f.len() {
        assert(f.take(k + 1).drop_last() =~= f.take(k));
        lemma_all_stop_parts_prefix_error(f, k + 1);
    } else {
        assert(f.take(k) =~= f);
    }
}

/// A gradient that is accepted has two stops at least, and each of them has
/// its place.
pub proof fn lemma_gradient_stops(s: Seq<char>)
    requires
        background_of(s) is Ok,
    ensures
        (background_of(s)->Ok_0).stops().len() >= 2,
        forall|i: int|
            0 <= i < (background_of(s)->Ok_0).stops().len() ==> ((
                #[trigger] (background_of(s)->Ok_0).stops()[i]).offset matches Some(p)
                && p.well_formed()),
{
    let open = find_from(s, '(', 0);
    let keyword = s.subrange(0, open);
    let rest = s.subrange(open + 1, s.len() as int);
    let close = find_last_below(rest, ')', rest.len() as int);
    let ty = gradient_type_of(keyword)->0;
    let f = fields(rest.subrange(0, close), ',');
    let skip = prefix_len(ty, f);
    let parts = all_stop_parts(f.skip(skip))->Ok_0;
    lemma_all_stop_parts_len(f.skip(skip));
    let stops = (background_of(s)->Ok_0).stops();
    assert(stops == placed_stops(parts));
    assert forall|i: int| 0 <= i < stops.len() implies ((#[trigger] stops[i]).offset matches Some(
        p,
    ) && p.well_formed()) by {
        lemma_normalized(percents(parts), i);
    }
}

/// What a list of the parts of stops stands for.
pub open spec fn all_parts_view(v: Seq<(ColorU, Option<Number>)>) -> Seq<StopParts> {
    v.map_values(|p: (ColorU, Option<Number>)| parts_view(p))
}

/// The parts of the color stops that the texts from index `from` on are, in
/// order, or the error of the first that is no color stop.
fn parse_stops<'a>(segments: &Vec<&'a str>, from: usize) -> (r: Result<
    Vec<(ColorU, Option<Number<'a>>)>,
    CssGradientStopParseError<'a>,
>)
    requires
        from <= segments@.len(),
    ensures
        match r {
            Ok(v) => all_stop_parts(texts(segments@).skip(from as int)) == Ok::<
                Seq<StopParts>,
                GradientStopError,
            >(all_parts_view(v@)) && v@.len() == segments@.len() - from,
            Err(e) => all_stop_parts(texts(segments@).skip(from as int)) == Err::<
                Seq<StopParts>,
                GradientStopError,
            >(e@),
        },
{
    let mut v: Vec<(ColorU, Option<Number<'a>>)> = Vec::new();
    let n = segments.len();
    let mut i: usize = from;
    let ghost f = texts(segments@).skip(from as int);
    assert(f.take(0) =~= Seq::<Seq<char>>::empty());
    assert(all_parts_view(v@) =~= Seq::<StopParts>::empty());
    while i < n
        invariant
            n == segments@.len(),
            from <= i <= n,
            f == texts(segments@).skip(from as int),
            v@.len() == i - from,
            all_stop_parts(f.take(i - from)) == Ok::<Seq<StopParts>, GradientStopError>(
                all_parts_view(v@),
            ),
        decreases n - i,
    {
        proof {
            assert(f.take(i - from + 1).drop_last() =~= f.take(i - from));
            assert(f.take(i - from + 1).last() == segments@[i as int]@);
        }
        match parse_stop_parts(segments[i]) {
            Ok(parts) => {
                proof {
                    assert(all_parts_view(v@.push(parts)) =~= all_parts_view(v@).push(
                        parts_view(parts),
                    ));
                }
                v.push(parts);
            },
            Err(e) => {
                proof {
                    lemma_all_stop_parts_prefix_error(f, i - from + 1);
                }
                return Err(e);
            },
        }
        i += 1;
    }
    assert(f.take(i - from) =~= f);
    Ok(v)
}

/// The stops of the parts `parts`, each where it comes to lie.
fn place_stops<'a>(parts: &Vec<(ColorU, Option<Number<'a>>)>) -> (stops: Vec<GradientStopPre<'a>>)
    ensures
        stops_view(stops@) == placed_stops(all_parts_view(parts@)),
{
    let n = parts.len();
    let mut given: Vec<Option<Number<'a>>> = Vec::new();
    let mut i: usize = 0;
    while i < n
        invariant
            n == parts@.len(),
            i <= n,
            given@.len() == i,
            forall|k: int| 0 <= k < i ==> (#[trigger] given@[k]) == parts@[k].1,
        decreases n - i,
    {
        given.push(parts[i].1);
        i += 1;
    }
    assert(numerals_view(given@) =~= percents(all_parts_view(parts@)));
    let offsets = normalize_offsets(&given);
    assert(offsets@.len() == n) by {
        assert(positions(offsets@).len() == offsets@.len());
    }
    let mut stops: Vec<GradientStopPre<'a>> = Vec::new();
    let mut j: usize = 0;
    while j < n
        invariant
            n == parts@.len(),
            offsets@.len() == n,
            j <= n,
            stops@.len() == j,
            forall|k: int|
                0 <= k < j ==> (#[trigger] stops@[k]) == (GradientStopPre {
                    offset: Some(offsets@[k]),
                    color: parts@[k].0,
                }),
        decreases n - j,
    {
        stops.push(GradientStopPre { offset: Some(offsets[j]), color: parts[j].0 });
        j += 1;
    }
    proof {
        let ghost want = placed_stops(all_parts_view(parts@));
        assert forall|k: int| 0 <= k < n implies stops_view(stops@)[k] == want[k] by {
            assert(positions(offsets@)[k] == offsets@[k]@);
        }
        assert(stops_view(stops@) =~= want);
    }
    stops
}

/// The gradient function that `keyword` names.
fn parse_gradient_type(keyword: &str) -> (ty: Option<GradientType>)
    ensures
        ty == gradient_type_of(keyword@),
{
    if str_eq(keyword, "linear-gradient") {
        Some(GradientType::LinearGradient)
    } else if str_eq(keyword, "repeating-linear-gradient") {
        Some(GradientType::RepeatingLinearGradient)
    } else if str_eq(keyword, "radial-gradient") {
        Some(GradientType::RadialGradient)
    } else if str_eq(keyword, "repeating-radial-gradient") {
        Some(GradientType::RepeatingRadialGradient)
    } else {
        None
    }
}

/// A gradient such as `linear-gradient(to right, red, yellow 40%, blue)`.
pub fn parse_css_background<'a>(input: &'a str) -> (r: Result<
    ParsedGradient<'a>,
    CssBackgroundParseError<'a>,
>)
    ensures
        outcome(r) == background_of(input@),
        r is Ok ==> input@.len() > 0 && input@.last() == ')',
        r matches Ok(g) ==> g@.stops().len() >= 2 && forall|i: int|
            0 <= i < g@.stops().len() ==> ((#[trigger] g@.stops()[i]).offset matches Some(p)
                && p.well_formed()),
{
    proof {
        if background_of(input@) is Ok {
            lemma_gradient_stops(input@);
            lemma_gradient_shape(input@);
        }
    }
    let chars = to_chars(input);
    let n = chars.len();
    let open = find_char(&chars, '(', 0);
    let keyword = input.substring_char(0, open);
    let gradient_type = match parse_gradient_type(keyword) {
        Some(ty) => ty,
        None => {
            return Err(CssBackgroundParseError::InvalidBackground(keyword));
        },
    };
    if open >= n {
        return Err(CssBackgroundParseError::InvalidBackground(input));
    }
    let rest = input.substring_char(open + 1, n);
    let rest_chars = to_chars(rest);
    let close = match find_last_char(&rest_chars, ')') {
        Some(k) => k,
        None => {
            return Err(CssBackgroundParseError::UnclosedGradient(input));
        },
    };
    if close + 1 < rest_chars.len() {
        return Err(CssBackgroundParseError::InvalidBackground(input));
    }
    let body = rest.substring_char(0, close);
    let segments = split_char(body, ',');
    let ghost f = texts(segments@);
    assert(segments@[0]@ == f[0]);
    let first = segments[0];
    let mut direction = Direction::FromTo(DirectionCorner::Top, DirectionCorner::Bottom);
    let mut shape = Shape::Ellipse;
    let mut skip: usize = 0;
    let is_linear = match gradient_type {
        GradientType::LinearGradient => true,
        GradientType::RepeatingLinearGradient => true,
        _ => false,
    };
    if is_linear {
        match parse_direction(first) {
            Ok(d) => {
                direction = d;
                skip = 1;
            },
            Err(_) => {},
        }
    } else {
        match parse_shape(first) {
            Ok(sh) => {
                shape = sh;
                skip = 1;
            },
            Err(_) => {},
        }
    }
    if segments.len() - skip < 2 {
        return Err(CssBackgroundParseError::TooFewGradientStops(input));
    }
    let parts = match parse_stops(&segments, skip) {
        Ok(p) => p,
        Err(e) => {
            return Err(CssBackgroundParseError::GradientParseError(e));
        },
    };
    let stops = place_stops(&parts);
    match gradient_type {
        GradientType::LinearGradient => Ok(
            ParsedGradient::LinearGradient(
                LinearGradientPreInfo { direction, extend_mode: ExtendMode::Clamp, stops },
            ),
        ),
        GradientType::RepeatingLinearGradient => Ok(
            ParsedGradient::LinearGradient(
                LinearGradientPreInfo { direction, extend_mode: ExtendMode::Repeat, stops },
            ),
        ),
        GradientType::RadialGradient => Ok(
            ParsedGradient::RadialGradient(
                RadialGradientPreInfo { shape, extend_mode: ExtendMode::Clamp, stops },
            ),
        ),
        GradientType::RepeatingRadialGradient => Ok(
            ParsedGradient::RadialGradient(
                RadialGradientPreInfo { shape, extend_mode: ExtendMode::Repeat, stops },
            ),
        ),
    }
}

} // verus!
