use css_parser::color::{ColorU, CssColorParseError};
use css_parser::corner::DirectionCorner;
use css_parser::direction::Direction;
use css_parser::gradient::{
    parse_css_background, CssBackgroundParseError, ExtendMode, ParsedGradient,
};
use css_parser::offset::{normalize_offsets, Anchor, StopOffset};
use css_parser::stop::{
    parse_gradient_stop, parse_percentage, CssGradientStopParseError, GradientStopPre,
};
use css_parser::number::Number;
use css_parser::shape::Shape;

const RED: ColorU = ColorU { r: 255, g: 0, b: 0, a: 255 };
const BLUE: ColorU = ColorU { r: 0, g: 0, b: 255, a: 255 };

fn anchor(a: &Anchor) -> f32 {
    match a {
        Anchor::Start => 0.0,
        Anchor::End => 1.0,
        Anchor::Percent(p) => p.as_str().parse::<f32>().unwrap() / 100.0,
    }
}

fn fraction(o: &StopOffset) -> f32 {
    let from = anchor(&o.from);
    let to = anchor(&o.to);
    from + (to - from) * (o.step as f32) / (o.steps as f32)
}

fn offsets_of(stops: &Vec<GradientStopPre>) -> Vec<f32> {
    stops.iter().map(|s| fraction(s.offset.as_ref().unwrap())).collect()
}

fn stops_of(g: ParsedGradient) -> Vec<GradientStopPre> {
    match g {
        ParsedGradient::LinearGradient(l) => l.stops,
        ParsedGradient::RadialGradient(r) => r.stops,
    }
}

fn offsets(input: &str) -> Vec<f32> {
    offsets_of(&stops_of(parse_css_background(input).unwrap()))
}

fn given(percents: &[Option<&'static str>]) -> Vec<Option<Number<'static>>> {
    percents.iter().map(|p| p.map(|text| Number::new(text).unwrap())).collect()
}

fn placed(percents: &[Option<&'static str>]) -> Vec<f32> {
    normalize_offsets(&given(percents)).iter().map(fraction).collect()
}

fn percent(text: &'static str) -> Anchor<'static> {
    Anchor::Percent(Number::new(text).unwrap())
}

#[test]
fn percentages() {
    assert_eq!(parse_percentage("5%").map(|n| n.as_str()), Some("5"));
    assert_eq!(parse_percentage("12.5%").map(|n| n.as_str()), Some("12.5"));
    assert_eq!(parse_percentage("-1e1%").map(|n| n.as_str()), Some("-1e1"));
    assert_eq!(parse_percentage("100%").map(|n| n.as_str()), Some("100"));
}

#[test]
fn what_is_no_percentage() {
    for text in ["", "%", "5", "5 %", "5%%", "%5", "5%x", "x%", "5px", "1.2.3%", " 5%", "5% "] {
        assert_eq!(parse_percentage(text), None, "{}", text);
    }
}

#[test]
fn stop_of_a_color_alone() {
    assert_eq!(parse_gradient_stop("red"), Ok(GradientStopPre { offset: None, color: RED }));
    assert_eq!(parse_gradient_stop("  #00f "), Ok(GradientStopPre { offset: None, color: BLUE }));
}

#[test]
fn stop_with_a_percentage() {
    let stop = parse_gradient_stop(" red 5% ").unwrap();
    assert_eq!(stop.color, RED);
    let offset = stop.offset.unwrap();
    assert_eq!(offset, StopOffset { from: percent("5"), to: percent("5"), step: 0, steps: 1 });
    assert_eq!(fraction(&offset), 0.05);
    assert_eq!(stop, GradientStopPre { offset: Some(StopOffset::at(Number::new("5").unwrap())), color: RED });
}

#[test]
fn stop_whose_second_word_is_no_percentage_has_no_place() {
    assert_eq!(parse_gradient_stop("red 5"), Ok(GradientStopPre { offset: None, color: RED }));
    assert_eq!(parse_gradient_stop("red 5px"), Ok(GradientStopPre { offset: None, color: RED }));
    assert_eq!(parse_gradient_stop("red blue"), Ok(GradientStopPre { offset: None, color: RED }));
}

#[test]
fn stop_ignores_what_follows_the_second_word() {
    assert_eq!(fraction(&parse_gradient_stop("red 5% 10% x").unwrap().offset.unwrap()), 0.05);
}

#[test]
fn stop_errors() {
    assert_eq!(parse_gradient_stop(""), Err(CssGradientStopParseError::Error("")));
    assert_eq!(parse_gradient_stop("  "), Err(CssGradientStopParseError::Error("  ")));
    assert_eq!(
        parse_gradient_stop("blurple 5%"),
        Err(CssGradientStopParseError::ColorParseError(CssColorParseError::InvalidColor("blurple")))
    );
    assert_eq!(
        parse_gradient_stop("5% red"),
        Err(CssGradientStopParseError::ColorParseError(CssColorParseError::InvalidColor("5%")))
    );
    assert_eq!(
        parse_gradient_stop("#12x"),
        Err(CssGradientStopParseError::ColorParseError(CssColorParseError::InvalidColorComponent(b'x')))
    );
}

#[test]
fn places_of_stops_that_were_written_are_kept() {
    assert_eq!(placed(&[Some("10"), Some("50"), Some("20")]), vec![0.1, 0.5, 0.2]);
    let out = normalize_offsets(&given(&[Some("10"), Some("150")]));
    assert_eq!(out[0], StopOffset { from: percent("10"), to: percent("10"), step: 0, steps: 1 });
    assert_eq!(out[1], StopOffset { from: percent("150"), to: percent("150"), step: 0, steps: 1 });
}

#[test]
fn places_without_any_percentage_are_spread_over_the_line() {
    assert_eq!(placed(&[None, None]), vec![0.0, 1.0]);
    assert_eq!(placed(&[None, None, None]), vec![0.0, 0.5, 1.0]);
    assert_eq!(placed(&[None, None, None, None]), vec![0.0, 0.33333334, 0.6666667, 1.0]);
    assert_eq!(placed(&[None, None, None, None, None]), vec![0.0, 0.25, 0.5, 0.75, 1.0]);
}

#[test]
fn places_are_the_steps_between_two_anchors() {
    let out = normalize_offsets(&given(&[None, None, None, None]));
    for (i, o) in out.iter().enumerate() {
        assert_eq!(*o, StopOffset { from: Anchor::Start, to: Anchor::End, step: i, steps: 3 });
    }
    let out = normalize_offsets(&given(&[Some("20"), None, None, Some("80")]));
    assert_eq!(out[1], StopOffset { from: percent("20"), to: percent("80"), step: 1, steps: 3 });
    assert_eq!(out[2], StopOffset { from: percent("20"), to: percent("80"), step: 2, steps: 3 });
}

#[test]
fn places_between_two_percentages_are_spread_evenly() {
    assert_eq!(placed(&[Some("20"), None, Some("80")]), vec![0.2, 0.5, 0.8]);
    assert_eq!(placed(&[Some("0"), None, None, None, Some("100")]), vec![0.0, 0.25, 0.5, 0.75, 1.0]);
    assert_eq!(placed(&[Some("10"), None, None, Some("40")]), vec![0.1, 0.1 + 0.3 / 3.0, 0.1 + 0.3 * 2.0 / 3.0, 0.4]);
}

#[test]
fn places_at_the_start_of_the_list() {
    assert_eq!(placed(&[None, Some("50")]), vec![0.0, 0.5]);
    assert_eq!(placed(&[None, None, Some("50")]), vec![0.0, 0.25, 0.5]);
    assert_eq!(placed(&[None, None, None, Some("90")]), vec![0.0, 0.9 * 1.0 / 3.0, 0.9 * 2.0 / 3.0, 0.9]);
}

#[test]
fn places_at_the_end_of_the_list() {
    assert_eq!(placed(&[Some("10"), Some("50"), None, None]), vec![0.1, 0.5, 0.75, 1.0]);
    assert_eq!(placed(&[Some("40"), None, None, None]), vec![0.4, 0.6, 0.8, 1.0]);
}

#[test]
fn a_single_last_stop_without_a_place_stays_with_the_stop_before_it() {
    assert_eq!(placed(&[Some("20"), None]), vec![0.2, 0.2]);
    assert_eq!(placed(&[None, Some("30"), None]), vec![0.0, 0.3, 0.3]);
    let out = normalize_offsets(&given(&[Some("20"), None]));
    assert_eq!(out[1], StopOffset { from: percent("20"), to: Anchor::End, step: 0, steps: 1 });
}

#[test]
fn places_of_short_lists() {
    assert_eq!(placed(&[]), Vec::<f32>::new());
    assert_eq!(placed(&[None]), vec![0.0]);
    assert_eq!(placed(&[Some("70")]), vec![0.7]);
}

#[test]
fn places_of_several_runs() {
    assert_eq!(
        placed(&[None, None, Some("40"), None, Some("60"), None, None, None]),
        vec![0.0, 0.2, 0.4, 0.5, 0.6, 0.6 + 0.39999998 / 3.0, 0.6 + 0.39999998 * 2.0 / 3.0, 1.0]
    );
}

#[test]
fn places_count_their_steps_properly() {
    let lists: [&[Option<&'static str>]; 6] = [
        &[None],
        &[None, None],
        &[Some("5"), None],
        &[None, Some("5"), None, None],
        &[Some("1"), None, None, Some("2"), None],
        &[None, None, None, Some("2"), Some("3"), None, None],
    ];
    for list in lists {
        let out = normalize_offsets(&given(list));
        assert_eq!(out.len(), list.len());
        for o in out {
            assert!(1 <= o.steps && o.step <= o.steps);
        }
    }
}

#[test]
fn gradient_offsets() {
    assert_eq!(offsets("linear-gradient(red, yellow)"), vec![0.0, 1.0]);
    assert_eq!(offsets("linear-gradient(red, lime, blue, yellow)"), vec![0.0, 0.33333334, 0.66666667, 1.0]);
    assert_eq!(
        offsets("repeating-radial-gradient(circle, red 10%, blue 50%, lime, yellow)"),
        vec![0.1, 0.5, 0.75, 1.0]
    );
    assert_eq!(offsets("linear-gradient(red 20%, blue)"), vec![0.2, 0.2]);
    assert_eq!(offsets("linear-gradient(red, blue 30%, lime, yellow 90%)"), vec![0.0, 0.3, 0.6, 0.9]);
}

#[test]
fn gradient_kinds() {
    let kind = |input: &str| match parse_css_background(input).unwrap() {
        ParsedGradient::LinearGradient(g) => ("linear", g.extend_mode),
        ParsedGradient::RadialGradient(g) => ("radial", g.extend_mode),
    };
    assert_eq!(kind("linear-gradient(red, blue)"), ("linear", ExtendMode::Clamp));
    assert_eq!(kind("repeating-linear-gradient(red, blue)"), ("linear", ExtendMode::Repeat));
    assert_eq!(kind("radial-gradient(red, blue)"), ("radial", ExtendMode::Clamp));
    assert_eq!(kind("repeating-radial-gradient(red, blue)"), ("radial", ExtendMode::Repeat));
}

#[test]
fn gradient_defaults() {
    match parse_css_background("linear-gradient(red, blue)").unwrap() {
        ParsedGradient::LinearGradient(g) => {
            assert_eq!(g.direction, Direction::FromTo(DirectionCorner::Top, DirectionCorner::Bottom));
        },
        other => panic!("{:?}", other),
    }
    match parse_css_background("radial-gradient(red, blue)").unwrap() {
        ParsedGradient::RadialGradient(g) => assert_eq!(g.shape, Shape::Ellipse),
        other => panic!("{:?}", other),
    }
}

#[test]
fn gradient_direction_and_shape() {
    match parse_css_background("linear-gradient(to right, red, blue)").unwrap() {
        ParsedGradient::LinearGradient(g) => {
            assert_eq!(g.direction, Direction::FromTo(DirectionCorner::Left, DirectionCorner::Right));
            assert_eq!(g.stops.len(), 2);
        },
        other => panic!("{:?}", other),
    }
    match parse_css_background("radial-gradient(ellipse, red, blue)").unwrap() {
        ParsedGradient::RadialGradient(g) => {
            assert_eq!(g.shape, Shape::Ellipse);
            assert_eq!(g.stops.len(), 2);
        },
        other => panic!("{:?}", other),
    }
}

#[test]
fn gradient_keeps_the_colors_in_order() {
    let stops = stops_of(parse_css_background("linear-gradient(red, #00f 50%, Red)").unwrap());
    let colors: Vec<ColorU> = stops.iter().map(|s| s.color).collect();
    assert_eq!(colors, vec![RED, BLUE, RED]);
}

#[test]
fn a_direction_is_looked_for_in_linear_gradients_only() {
    assert_eq!(
        parse_css_background("radial-gradient(to right, red, blue)"),
        Err(CssBackgroundParseError::GradientParseError(CssGradientStopParseError::ColorParseError(
            CssColorParseError::InvalidColor("to")
        )))
    );
    assert_eq!(
        parse_css_background("linear-gradient(circle, red, blue)"),
        Err(CssBackgroundParseError::GradientParseError(CssGradientStopParseError::ColorParseError(
            CssColorParseError::InvalidColor("circle")
        )))
    );
}

#[test]
fn a_shape_must_stand_alone_in_its_field() {
    assert_eq!(
        parse_css_background("radial-gradient( circle, red, blue)"),
        Err(CssBackgroundParseError::GradientParseError(CssGradientStopParseError::ColorParseError(
            CssColorParseError::InvalidColor("circle")
        )))
    );
}

#[test]
fn a_first_field_that_is_no_direction_is_a_stop() {
    assert_eq!(offsets("linear-gradient(red 10%, blue, lime)"), vec![0.1, 0.55, 1.0]);
    // `to center` is no direction, and no color either.
    assert_eq!(
        parse_css_background("linear-gradient(to center, red, blue)"),
        Err(CssBackgroundParseError::GradientParseError(CssGradientStopParseError::ColorParseError(
            CssColorParseError::InvalidColor("to")
        )))
    );
}

#[test]
fn gradient_needs_a_known_function() {
    assert_eq!(
        parse_css_background("conic-gradient(red, blue)"),
        Err(CssBackgroundParseError::InvalidBackground("conic-gradient"))
    );
    assert_eq!(parse_css_background("red"), Err(CssBackgroundParseError::InvalidBackground("red")));
    assert_eq!(parse_css_background(""), Err(CssBackgroundParseError::InvalidBackground("")));
    assert_eq!(
        parse_css_background(" linear-gradient(red, blue)"),
        Err(CssBackgroundParseError::InvalidBackground(" linear-gradient"))
    );
    assert_eq!(
        parse_css_background("Linear-Gradient(red, blue)"),
        Err(CssBackgroundParseError::InvalidBackground("Linear-Gradient"))
    );
    assert_eq!(
        parse_css_background("(red, blue)"),
        Err(CssBackgroundParseError::InvalidBackground(""))
    );
}

#[test]
fn gradient_needs_its_brackets() {
    assert_eq!(
        parse_css_background("linear-gradient"),
        Err(CssBackgroundParseError::InvalidBackground("linear-gradient"))
    );
    assert_eq!(
        parse_css_background("linear-gradient(red, blue"),
        Err(CssBackgroundParseError::UnclosedGradient("linear-gradient(red, blue"))
    );
    assert_eq!(
        parse_css_background("radial-gradient("),
        Err(CssBackgroundParseError::UnclosedGradient("radial-gradient("))
    );
}

#[test]
fn gradient_ends_with_its_closing_bracket() {
    for input in [
        "linear-gradient(red, blue) and more",
        "linear-gradient(red, blue) ",
        "linear-gradient(red, blue);",
        "radial-gradient(circle, red, blue)x",
        "linear-gradient(red, blue) linear-gradient(red, blue",
    ] {
        assert_eq!(
            parse_css_background(input),
            Err(CssBackgroundParseError::InvalidBackground(input)),
            "{}",
            input
        );
    }
    assert_eq!(offsets("linear-gradient(red, blue)"), vec![0.0, 1.0]);
}

#[test]
fn gradient_body_ends_at_the_last_bracket() {
    assert_eq!(
        parse_css_background("linear-gradient(red, blue))"),
        Err(CssBackgroundParseError::GradientParseError(CssGradientStopParseError::ColorParseError(
            CssColorParseError::InvalidColor("blue)")
        )))
    );
}

#[test]
fn gradient_needs_two_stops() {
    for input in [
        "linear-gradient()",
        "linear-gradient(red)",
        "linear-gradient(to right, red)",
        "linear-gradient(50deg)",
        "radial-gradient(circle, red)",
        "radial-gradient(circle)",
        "repeating-radial-gradient(red)",
    ] {
        assert_eq!(
            parse_css_background(input),
            Err(CssBackgroundParseError::TooFewGradientStops(input)),
            "{}",
            input
        );
    }
}

#[test]
fn gradient_stops_are_counted_before_they_are_read() {
    assert_eq!(
        parse_css_background("linear-gradient(blurple)"),
        Err(CssBackgroundParseError::TooFewGradientStops("linear-gradient(blurple)"))
    );
}

#[test]
fn gradient_fails_with_its_first_bad_stop() {
    assert_eq!(
        parse_css_background("linear-gradient(red, blurple, #12x, blue)"),
        Err(CssBackgroundParseError::GradientParseError(CssGradientStopParseError::ColorParseError(
            CssColorParseError::InvalidColor("blurple")
        )))
    );
    assert_eq!(
        parse_css_background("linear-gradient(red,, blue)"),
        Err(CssBackgroundParseError::GradientParseError(CssGradientStopParseError::Error("")))
    );
    assert_eq!(
        parse_css_background("linear-gradient(red, blue, )"),
        Err(CssBackgroundParseError::GradientParseError(CssGradientStopParseError::Error(" ")))
    );
}
