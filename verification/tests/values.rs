use css_parser::border::{
    parse_css_border, parse_css_border_radius, BorderDetails, BorderRadius, BorderStyle, LayoutSize,
};
use css_parser::color::{parse_css_color, ColorU};
use css_parser::corner::DirectionCorner;
use css_parser::direction::{AngleUnit, Direction};
use css_parser::gradient::{parse_css_background, ExtendMode, ParsedGradient};
use css_parser::offset::{Anchor, StopOffset};
use css_parser::stop::GradientStopPre;
use css_parser::length::{
    parse_pixel_value, CssBorderRadiusParseError, CssMetric, PixelValue, Pixels,
};
use css_parser::number::Number;
use css_parser::shadow::{parse_css_box_shadow, BoxShadowClipMode, BoxShadowPreDisplayItem};
use css_parser::shape::Shape;

fn number(n: &Number) -> f32 {
    n.as_str().parse::<f32>().unwrap()
}

fn pixels(p: &Pixels) -> f32 {
    number(&p.number) * p.scale as f32
}

fn to_pixels(v: &PixelValue) -> f32 {
    pixels(&v.to_pixels())
}

fn size(s: &LayoutSize) -> (f32, f32) {
    (pixels(&s.width), pixels(&s.height))
}

fn color_f(c: ColorU) -> [f32; 4] {
    [c.r as f32 / 255.0, c.g as f32 / 255.0, c.b as f32 / 255.0, c.a as f32 / 255.0]
}

fn anchor(a: &Anchor) -> f32 {
    match a {
        Anchor::Start => 0.0,
        Anchor::End => 1.0,
        Anchor::Percent(p) => number(p) / 100.0,
    }
}

fn fraction(o: &StopOffset) -> f32 {
    let from = anchor(&o.from);
    let to = anchor(&o.to);
    from + (to - from) * (o.step as f32) / (o.steps as f32)
}

fn stop(s: &GradientStopPre) -> (Option<f32>, [f32; 4]) {
    (s.offset.as_ref().map(fraction), color_f(s.color))
}

fn stops(v: &Vec<GradientStopPre>) -> Vec<(Option<f32>, [f32; 4])> {
    v.iter().map(stop).collect()
}

struct Shadow {
    offset: (f32, f32),
    color: [f32; 4],
    blur_radius: f32,
    spread_radius: f32,
    clip_mode: BoxShadowClipMode,
}

fn assert_shadow(found: Option<BoxShadowPreDisplayItem>, wanted: Shadow) {
    let found = found.expect("a shadow");
    assert_eq!((pixels(&found.offset.x), pixels(&found.offset.y)), wanted.offset);
    assert_eq!(color_f(found.color), wanted.color);
    assert_eq!(pixels(&found.blur_radius), wanted.blur_radius);
    assert_eq!(pixels(&found.spread_radius), wanted.spread_radius);
    assert_eq!(found.clip_mode, wanted.clip_mode);
}

fn assert_radius(found: BorderRadius, top_left: f32, top_right: f32, bottom_right: f32, bottom_left: f32) {
    assert_eq!(size(&found.top_left), (top_left, top_left));
    assert_eq!(size(&found.top_right), (top_right, top_right));
    assert_eq!(size(&found.bottom_right), (bottom_right, bottom_right));
    assert_eq!(size(&found.bottom_left), (bottom_left, bottom_left));
}

fn assert_border(input: &str, width: f32, color: [f32; 4], style: BorderStyle) {
    let (widths, details) = parse_css_border(input).unwrap();
    assert_eq!(pixels(&widths.top), width);
    assert_eq!(pixels(&widths.bottom), width);
    assert_eq!(pixels(&widths.left), width);
    assert_eq!(pixels(&widths.right), width);
    let BorderDetails::Normal(border) = details;
    for side in [border.left, border.right, border.bottom, border.top] {
        assert_eq!(color_f(side.color), color);
        assert_eq!(side.style, style);
    }
    assert_radius(border.radius, 0.0, 0.0, 0.0, 0.0);
    assert_eq!(border.radius, BorderRadius::zero());
}

#[test]
fn test_parse_box_shadow_1() {
    assert_eq!(parse_css_box_shadow("none"), Ok(None));
}

#[test]
fn test_parse_box_shadow_2() {
    assert_shadow(parse_css_box_shadow("5px 10px").unwrap(), Shadow {
        offset: (5.0, 10.0),
        color: [0.0, 0.0, 0.0, 1.0],
        blur_radius: 0.0,
        spread_radius: 0.0,
        clip_mode: BoxShadowClipMode::Outset,
    });
}

#[test]
fn test_parse_box_shadow_3() {
    assert_shadow(parse_css_box_shadow("5px 10px #888888").unwrap(), Shadow {
        offset: (5.0, 10.0),
        color: [0.53333336, 0.53333336, 0.53333336, 1.0],
        blur_radius: 0.0,
        spread_radius: 0.0,
        clip_mode: BoxShadowClipMode::Outset,
    });
}

#[test]
fn test_parse_box_shadow_4() {
    assert_shadow(parse_css_box_shadow("5px 10px inset").unwrap(), Shadow {
        offset: (5.0, 10.0),
        color: [0.0, 0.0, 0.0, 1.0],
        blur_radius: 0.0,
        spread_radius: 0.0,
        clip_mode: BoxShadowClipMode::Inset,
    });
}

#[test]
fn test_parse_box_shadow_5() {
    assert_shadow(parse_css_box_shadow("5px 10px outset").unwrap(), Shadow {
        offset: (5.0, 10.0),
        color: [0.0, 0.0, 0.0, 1.0],
        blur_radius: 0.0,
        spread_radius: 0.0,
        clip_mode: BoxShadowClipMode::Outset,
    });
}

#[test]
fn test_parse_box_shadow_6() {
    assert_shadow(parse_css_box_shadow("5px 10px 5px #888888").unwrap(), Shadow {
        offset: (5.0, 10.0),
        color: [0.53333336, 0.53333336, 0.53333336, 1.0],
        blur_radius: 5.0,
        spread_radius: 0.0,
        clip_mode: BoxShadowClipMode::Outset,
    });
}

#[test]
fn test_parse_box_shadow_7() {
    assert_shadow(parse_css_box_shadow("5px 10px #888888 inset").unwrap(), Shadow {
        offset: (5.0, 10.0),
        color: [0.53333336, 0.53333336, 0.53333336, 1.0],
        blur_radius: 0.0,
        spread_radius: 0.0,
        clip_mode: BoxShadowClipMode::Inset,
    });
}

#[test]
fn test_parse_box_shadow_8() {
    assert_shadow(parse_css_box_shadow("5px 10px 5px #888888 inset").unwrap(), Shadow {
        offset: (5.0, 10.0),
        color: [0.53333336, 0.53333336, 0.53333336, 1.0],
        blur_radius: 5.0,
        spread_radius: 0.0,
        clip_mode: BoxShadowClipMode::Inset,
    });
}

#[test]
fn test_parse_box_shadow_9() {
    assert_shadow(parse_css_box_shadow("5px 10px 5px 10px #888888").unwrap(), Shadow {
        offset: (5.0, 10.0),
        color: [0.53333336, 0.53333336, 0.53333336, 1.0],
        blur_radius: 5.0,
        spread_radius: 10.0,
        clip_mode: BoxShadowClipMode::Outset,
    });
}

#[test]
fn test_parse_box_shadow_10() {
    assert_shadow(parse_css_box_shadow("5px 10px 5px 10px #888888 inset").unwrap(), Shadow {
        offset: (5.0, 10.0),
        color: [0.53333336, 0.53333336, 0.53333336, 1.0],
        blur_radius: 5.0,
        spread_radius: 10.0,
        clip_mode: BoxShadowClipMode::Inset,
    });
}

#[test]
fn test_parse_css_border_1() {
    assert_border("5px solid red", 5.0, [1.0, 0.0, 0.0, 1.0], BorderStyle::Solid);
}

#[test]
fn test_parse_css_border_2() {
    assert_border("double", 1.0, [0.0, 0.0, 0.0, 1.0], BorderStyle::Double);
}

#[test]
fn test_parse_linear_gradient_1() {
    match parse_css_background("linear-gradient(red, yellow)") {
        Ok(ParsedGradient::LinearGradient(g)) => {
            assert_eq!(g.direction, Direction::FromTo(DirectionCorner::Top, DirectionCorner::Bottom));
            assert_eq!(g.extend_mode, ExtendMode::Clamp);
            assert_eq!(stops(&g.stops), vec![
                (Some(0.0), [1.0, 0.0, 0.0, 1.0]),
                (Some(1.0), [1.0, 1.0, 0.0, 1.0]),
            ]);
        },
        other => panic!("no linear gradient: {:?}", other),
    }
}

#[test]
fn test_parse_linear_gradient_2() {
    match parse_css_background("linear-gradient(red, lime, blue, yellow)") {
        Ok(ParsedGradient::LinearGradient(g)) => {
            assert_eq!(g.direction, Direction::FromTo(DirectionCorner::Top, DirectionCorner::Bottom));
            assert_eq!(g.extend_mode, ExtendMode::Clamp);
            assert_eq!(stops(&g.stops), vec![
                (Some(0.0), [1.0, 0.0, 0.0, 1.0]),
                (Some(0.33333334), [0.0, 1.0, 0.0, 1.0]),
                (Some(0.66666667), [0.0, 0.0, 1.0, 1.0]),
                (Some(1.0), [1.0, 1.0, 0.0, 1.0]),
            ]);
        },
        other => panic!("no linear gradient: {:?}", other),
    }
}

#[test]
fn test_parse_linear_gradient_3() {
    match parse_css_background("repeating-linear-gradient(50deg, blue, yellow, #00FF00)") {
        Ok(ParsedGradient::LinearGradient(g)) => {
            match g.direction {
                Direction::Angle(a) => {
                    assert_eq!(a.unit, AngleUnit::Deg);
                    assert_eq!(number(&a.number), 50.0);
                },
                other => panic!("no angle: {:?}", other),
            }
            assert_eq!(g.extend_mode, ExtendMode::Repeat);
            assert_eq!(stops(&g.stops), vec![
                (Some(0.0), [0.0, 0.0, 1.0, 1.0]),
                (Some(0.5), [1.0, 1.0, 0.0, 1.0]),
                (Some(1.0), [0.0, 1.0, 0.0, 1.0]),
            ]);
        },
        other => panic!("no linear gradient: {:?}", other),
    }
}

#[test]
fn test_parse_linear_gradient_4() {
    match parse_css_background("linear-gradient(to bottom right, red, yellow)") {
        Ok(ParsedGradient::LinearGradient(g)) => {
            assert_eq!(
                g.direction,
                Direction::FromTo(DirectionCorner::TopLeft, DirectionCorner::BottomRight)
            );
            assert_eq!(g.extend_mode, ExtendMode::Clamp);
            assert_eq!(stops(&g.stops), vec![
                (Some(0.0), [1.0, 0.0, 0.0, 1.0]),
                (Some(1.0), [1.0, 1.0, 0.0, 1.0]),
            ]);
        },
        other => panic!("no linear gradient: {:?}", other),
    }
}

#[test]
fn test_parse_radial_gradient_1() {
    match parse_css_background("radial-gradient(circle, lime, blue, yellow)") {
        Ok(ParsedGradient::RadialGradient(g)) => {
            assert_eq!(g.shape, Shape::Circle);
            assert_eq!(g.extend_mode, ExtendMode::Clamp);
            assert_eq!(stops(&g.stops), vec![
                (Some(0.0), [0.0, 1.0, 0.0, 1.0]),
                (Some(0.5), [0.0, 0.0, 1.0, 1.0]),
                (Some(1.0), [1.0, 1.0, 0.0, 1.0]),
            ]);
        },
        other => panic!("no radial gradient: {:?}", other),
    }
}

#[test]
fn test_parse_radial_gradient_2() {
    match parse_css_background("repeating-radial-gradient(circle, red 10%, blue 50%, lime, yellow)") {
        Ok(ParsedGradient::RadialGradient(g)) => {
            assert_eq!(g.shape, Shape::Circle);
            assert_eq!(g.extend_mode, ExtendMode::Repeat);
            assert_eq!(stops(&g.stops), vec![
                (Some(0.1), [1.0, 0.0, 0.0, 1.0]),
                (Some(0.5), [0.0, 0.0, 1.0, 1.0]),
                (Some(0.75), [0.0, 1.0, 0.0, 1.0]),
                (Some(1.0), [1.0, 1.0, 0.0, 1.0]),
            ]);
        },
        other => panic!("no radial gradient: {:?}", other),
    }
}

#[test]
fn test_parse_css_color_1() {
    assert_eq!(parse_css_color("#F0F8FF"), Ok(ColorU { r: 240, g: 248, b: 255, a: 255 }));
}

#[test]
fn test_parse_css_color_2() {
    assert_eq!(parse_css_color("#F0F8FF00"), Ok(ColorU { r: 240, g: 248, b: 255, a: 0 }));
}

#[test]
fn test_parse_css_color_3() {
    assert_eq!(parse_css_color("#EEE"), Ok(ColorU { r: 238, g: 238, b: 238, a: 255 }));
}

#[test]
fn test_parse_pixel_value_1() {
    let value = parse_pixel_value("15px").unwrap();
    assert_eq!(value.metric, CssMetric::Px);
    assert_eq!(number(&value.number), 15.0);
    assert_eq!(value, PixelValue { metric: CssMetric::Px, number: Number::new("15").unwrap() });
}

#[test]
fn test_parse_pixel_value_2() {
    let value = parse_pixel_value("1.2em").unwrap();
    assert_eq!(value.metric, CssMetric::Em);
    assert_eq!(number(&value.number), 1.2);
    assert_eq!(value, PixelValue { metric: CssMetric::Em, number: Number::new("1.2").unwrap() });
    assert_eq!(to_pixels(&value), 19.2);
}

#[test]
fn test_parse_pixel_value_3() {
    assert_eq!(
        parse_pixel_value("aslkfdjasdflk"),
        Err(CssBorderRadiusParseError::InvalidComponent("aslkfdjasdflk"))
    );
}

#[test]
fn test_parse_css_border_radius_1() {
    let radius = parse_css_border_radius("15px").unwrap();
    assert_radius(radius, 15.0, 15.0, 15.0, 15.0);
    assert_eq!(radius, BorderRadius::uniform(radius.top_left));
}

#[test]
fn test_parse_css_border_radius_2() {
    assert_radius(parse_css_border_radius("15px 50px").unwrap(), 15.0, 50.0, 15.0, 50.0);
}

#[test]
fn test_parse_css_border_radius_3() {
    assert_radius(parse_css_border_radius("15px 50px 30px").unwrap(), 15.0, 50.0, 30.0, 50.0);
}

#[test]
fn test_parse_css_border_radius_4() {
    assert_radius(parse_css_border_radius("15px 50px 30px 5px").unwrap(), 15.0, 50.0, 30.0, 5.0);
}
