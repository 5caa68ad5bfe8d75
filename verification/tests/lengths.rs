use css_parser::length::{
    parse_pixel_value, CssBorderRadiusParseError, CssMetric, PixelValue, Pixels, EM_HEIGHT,
};
use css_parser::number::Number;

fn number(n: &Number) -> f32 {
    n.as_str().parse::<f32>().unwrap()
}

fn pixels(p: &Pixels) -> f32 {
    number(&p.number) * p.scale as f32
}

fn length(input: &str) -> (CssMetric, f32) {
    let v = parse_pixel_value(input).unwrap();
    (v.metric, number(&v.number))
}

#[test]
fn pixels_and_ems() {
    assert_eq!(length("15px"), (CssMetric::Px, 15.0));
    assert_eq!(length("1.2em"), (CssMetric::Em, 1.2));
    assert_eq!(length("0px"), (CssMetric::Px, 0.0));
    assert_eq!(length(".5em"), (CssMetric::Em, 0.5));
    assert_eq!(length("5.px"), (CssMetric::Px, 5.0));
    assert_eq!(length("007.250px"), (CssMetric::Px, 7.25));
}

#[test]
fn the_numeral_is_kept_as_written() {
    assert_eq!(parse_pixel_value("007.250px").unwrap().number.as_str(), "007.250");
    assert_eq!(parse_pixel_value("1.2em").unwrap().number.as_str(), "1.2");
}

#[test]
fn a_long_numeral_is_a_length() {
    let v = parse_pixel_value("123456789012345678901234567890px").unwrap();
    assert_eq!(v.metric, CssMetric::Px);
    assert_eq!(number(&v.number), 1.2345679e29_f32);
}

#[test]
fn em_is_sixteen_pixels() {
    assert_eq!(EM_HEIGHT, 16);
    let v = parse_pixel_value("1.2em").unwrap();
    assert_eq!(v.to_pixels().scale, 16);
    assert_eq!(pixels(&v.to_pixels()), 19.2);
    let v = parse_pixel_value("2em").unwrap();
    assert_eq!(pixels(&v.to_pixels()), 32.0);
}

#[test]
fn a_pixel_is_one_pixel() {
    let v = parse_pixel_value("15px").unwrap();
    assert_eq!(v.to_pixels().scale, 1);
    assert_eq!(v.to_pixels().number, v.number);
    assert_eq!(pixels(&v.to_pixels()), 15.0);
}

#[test]
fn zero_and_one_pixel() {
    assert_eq!(pixels(&Pixels::zero()), 0.0);
    assert_eq!(pixels(&Pixels::one()), 1.0);
    assert_eq!(Pixels::zero().number.as_str(), "0");
    assert_eq!(Pixels::one().number.as_str(), "1");
}

#[test]
fn without_a_unit_it_is_no_length() {
    assert_eq!(parse_pixel_value("15"), Err(CssBorderRadiusParseError::InvalidComponent("")));
    assert_eq!(parse_pixel_value("1.2"), Err(CssBorderRadiusParseError::InvalidComponent("")));
    assert_eq!(parse_pixel_value(""), Err(CssBorderRadiusParseError::InvalidComponent("")));
    assert_eq!(parse_pixel_value("."), Err(CssBorderRadiusParseError::InvalidComponent("")));
}

#[test]
fn with_an_unknown_unit_it_is_no_length() {
    assert_eq!(parse_pixel_value("15pt"), Err(CssBorderRadiusParseError::InvalidComponent("pt")));
    assert_eq!(parse_pixel_value("15%"), Err(CssBorderRadiusParseError::InvalidComponent("%")));
    assert_eq!(parse_pixel_value("15PX"), Err(CssBorderRadiusParseError::InvalidComponent("PX")));
    assert_eq!(parse_pixel_value("15 px"), Err(CssBorderRadiusParseError::InvalidComponent(" px")));
    assert_eq!(parse_pixel_value("15pxx"), Err(CssBorderRadiusParseError::InvalidComponent("pxx")));
    assert_eq!(parse_pixel_value("15px "), Err(CssBorderRadiusParseError::InvalidComponent("px ")));
    assert_eq!(parse_pixel_value("px15"), Err(CssBorderRadiusParseError::InvalidComponent("px15")));
    assert_eq!(parse_pixel_value("1e5px"), Err(CssBorderRadiusParseError::InvalidComponent("e5px")));
    assert_eq!(parse_pixel_value("-5px"), Err(CssBorderRadiusParseError::InvalidComponent("-5px")));
    assert_eq!(parse_pixel_value("+5px"), Err(CssBorderRadiusParseError::InvalidComponent("+5px")));
    assert_eq!(parse_pixel_value("15px5em"), Err(CssBorderRadiusParseError::InvalidComponent("px5em")));
    assert_eq!(
        parse_pixel_value("\u{663}px"),
        Err(CssBorderRadiusParseError::InvalidComponent("\u{663}px"))
    );
}

#[test]
fn with_a_malformed_numeral_it_is_no_length() {
    assert_eq!(parse_pixel_value("px"), Err(CssBorderRadiusParseError::ValueParseErr("")));
    assert_eq!(parse_pixel_value("em"), Err(CssBorderRadiusParseError::ValueParseErr("")));
    assert_eq!(parse_pixel_value(".px"), Err(CssBorderRadiusParseError::ValueParseErr(".")));
    assert_eq!(parse_pixel_value("1.2.3px"), Err(CssBorderRadiusParseError::ValueParseErr("1.2.3")));
    assert_eq!(parse_pixel_value("..em"), Err(CssBorderRadiusParseError::ValueParseErr("..")));
    assert_eq!(parse_pixel_value("1..px"), Err(CssBorderRadiusParseError::ValueParseErr("1..")));
}

#[test]
fn the_unit_is_looked_at_before_the_numeral() {
    assert_eq!(parse_pixel_value("1.2.3pt"), Err(CssBorderRadiusParseError::InvalidComponent("pt")));
}

#[test]
fn a_length_can_be_written_by_hand() {
    let number = Number::new("15").unwrap();
    assert_eq!(parse_pixel_value("15px"), Ok(PixelValue { metric: CssMetric::Px, number }));
}

#[test]
fn numerals_follow_the_grammar_of_floats() {
    let accepted = [
        "0", "15", "1.2", ".5", "5.", "007", "1e5", "1E5", "1e+5", "1e-5", "1.e5", ".5e5", "+1", "-1",
        "+.5", "-5.", "inf", "INF", "Inf", "+inf", "-inf", "infinity", "Infinity", "-INFINITY",
        "nan", "NaN", "+nan", "-NAN", "1e0005", "0.0000000001", "123456789012345678901234567890",
        "1e999", "1e-999", "00", "0e0", "-0", "+0.0e-0",
    ];
    for text in accepted {
        assert!(text.parse::<f32>().is_ok(), "{}", text);
        assert!(text.parse::<f64>().is_ok(), "{}", text);
        assert_eq!(Number::new(text).map(|n| n.as_str()), Some(text), "{}", text);
    }
    let refused = [
        "", ".", "+", "-", "e5", ".e5", "1e", "1e+", "1e-", "1e5.", "1e5e5", "1.2.3", "1..2", "++1",
        "+-1", "1+", "1 ", " 1", "1 2", "in", "infinit", "infinityy", "na", "nann", "i", "n",
        "1f", "0x10", "1_000", "1,5", "1e 5", "--inf", "+ inf", "\u{663}", "1\u{663}", "e", "E",
        "inf1", "1inf", "nan.", ".nan", "+e5", "1d5", "\u{ff11}", "5px", "%",
    ];
    for text in refused {
        assert!(text.parse::<f32>().is_err(), "{}", text);
        assert!(text.parse::<f64>().is_err(), "{}", text);
        assert_eq!(Number::new(text), None, "{}", text);
    }
}
