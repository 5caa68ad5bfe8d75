use css_parser::corner::{
    parse_direction_corner, CssDirectionCornerParseError, DirectionCorner,
};
use css_parser::direction::{parse_direction, AngleUnit, CssDirectionParseError, Direction};
use css_parser::shape::{parse_shape, CssShapeParseError, Shape};

const ALL: [DirectionCorner; 8] = [
    DirectionCorner::Right,
    DirectionCorner::Left,
    DirectionCorner::Top,
    DirectionCorner::Bottom,
    DirectionCorner::TopRight,
    DirectionCorner::TopLeft,
    DirectionCorner::BottomRight,
    DirectionCorner::BottomLeft,
];

fn is_edge(c: DirectionCorner) -> bool {
    matches!(c, DirectionCorner::Right | DirectionCorner::Left | DirectionCorner::Top | DirectionCorner::Bottom)
}

fn degrees(d: &Direction) -> f32 {
    match d {
        Direction::Angle(a) => {
            let n = a.number.as_str().parse::<f32>().unwrap();
            match a.unit {
                AngleUnit::Deg => n,
                AngleUnit::Rad => n * 180.0 / std::f32::consts::PI,
                AngleUnit::Grad => n / 400.0 * 360.0,
            }
        },
        other => panic!("no angle: {:?}", other),
    }
}

#[test]
fn opposite_table() {
    assert_eq!(DirectionCorner::Right.opposite(), DirectionCorner::Left);
    assert_eq!(DirectionCorner::Left.opposite(), DirectionCorner::Right);
    assert_eq!(DirectionCorner::Top.opposite(), DirectionCorner::Bottom);
    assert_eq!(DirectionCorner::Bottom.opposite(), DirectionCorner::Top);
    assert_eq!(DirectionCorner::TopRight.opposite(), DirectionCorner::BottomLeft);
    assert_eq!(DirectionCorner::BottomLeft.opposite(), DirectionCorner::TopRight);
    assert_eq!(DirectionCorner::TopLeft.opposite(), DirectionCorner::BottomRight);
    assert_eq!(DirectionCorner::BottomRight.opposite(), DirectionCorner::TopLeft);
}

#[test]
fn opposite_is_an_involution() {
    for c in ALL {
        assert_eq!(c.opposite().opposite(), c);
        assert_ne!(c.opposite(), c);
    }
}

#[test]
fn combine_table() {
    assert_eq!(DirectionCorner::Right.combine(&DirectionCorner::Top), Some(DirectionCorner::TopRight));
    assert_eq!(DirectionCorner::Top.combine(&DirectionCorner::Right), Some(DirectionCorner::TopRight));
    assert_eq!(DirectionCorner::Left.combine(&DirectionCorner::Top), Some(DirectionCorner::TopLeft));
    assert_eq!(DirectionCorner::Top.combine(&DirectionCorner::Left), Some(DirectionCorner::TopLeft));
    assert_eq!(DirectionCorner::Right.combine(&DirectionCorner::Bottom), Some(DirectionCorner::BottomRight));
    assert_eq!(DirectionCorner::Bottom.combine(&DirectionCorner::Right), Some(DirectionCorner::BottomRight));
    assert_eq!(DirectionCorner::Left.combine(&DirectionCorner::Bottom), Some(DirectionCorner::BottomLeft));
    assert_eq!(DirectionCorner::Bottom.combine(&DirectionCorner::Left), Some(DirectionCorner::BottomLeft));
}

#[test]
fn combine_is_undefined_for_every_other_pair() {
    assert_eq!(DirectionCorner::Right.combine(&DirectionCorner::Left), None);
    let mut defined = 0;
    for a in ALL {
        for b in ALL {
            let meet = is_edge(a) && is_edge(b) && a != b && a != b.opposite();
            assert_eq!(a.combine(&b).is_some(), meet, "{:?} {:?}", a, b);
            assert_eq!(a.combine(&b), b.combine(&a));
            if let Some(c) = a.combine(&b) {
                assert!(!is_edge(c));
                assert_eq!(a.opposite().combine(&b.opposite()), Some(c.opposite()));
                defined += 1;
            }
        }
        assert_eq!(a.combine(&a), None);
        assert_eq!(a.combine(&a.opposite()), None);
    }
    assert_eq!(defined, 8);
}

#[test]
fn edges_by_name() {
    assert_eq!(parse_direction_corner("right"), Ok(DirectionCorner::Right));
    assert_eq!(parse_direction_corner("left"), Ok(DirectionCorner::Left));
    assert_eq!(parse_direction_corner("top"), Ok(DirectionCorner::Top));
    assert_eq!(parse_direction_corner("bottom"), Ok(DirectionCorner::Bottom));
    for word in ["", "Right", "top-left", "center", " top", "topp"] {
        assert_eq!(
            parse_direction_corner(word),
            Err(CssDirectionCornerParseError::InvalidDirection(word))
        );
    }
}

#[test]
fn shapes_by_name() {
    assert_eq!(parse_shape("circle"), Ok(Shape::Circle));
    assert_eq!(parse_shape("ellipse"), Ok(Shape::Ellipse));
    for word in ["", "Circle", " circle", "circle ", "square", "ellipsis"] {
        assert_eq!(parse_shape(word), Err(CssShapeParseError::InvalidShape(word)));
    }
}

#[test]
fn direction_angles() {
    assert_eq!(degrees(&parse_direction("50deg").unwrap()), 50.0);
    assert_eq!(degrees(&parse_direction("  50deg ").unwrap()), 50.0);
    assert_eq!(degrees(&parse_direction("-90deg").unwrap()), -90.0);
    assert_eq!(degrees(&parse_direction("1.5e2deg").unwrap()), 150.0);
    assert_eq!(degrees(&parse_direction("200grad").unwrap()), 180.0);
    assert_eq!(degrees(&parse_direction("100grad").unwrap()), 90.0);
    assert_eq!(degrees(&parse_direction("0rad").unwrap()), 0.0);
    assert_eq!(degrees(&parse_direction("2rad").unwrap()), 2.0_f32 * 180.0 / std::f32::consts::PI);
}

#[test]
fn direction_angle_units() {
    let unit = |input: &str| match parse_direction(input).unwrap() {
        Direction::Angle(a) => (a.number.as_str().to_string(), a.unit),
        other => panic!("no angle: {:?}", other),
    };
    assert_eq!(unit("50deg"), ("50".to_string(), AngleUnit::Deg));
    assert_eq!(unit("50rad"), ("50".to_string(), AngleUnit::Rad));
    assert_eq!(unit("50grad"), ("50".to_string(), AngleUnit::Grad));
    assert_eq!(unit("infdeg"), ("inf".to_string(), AngleUnit::Deg));
}

#[test]
fn direction_angle_stands_alone() {
    for input in ["50deg to left", "50deg 60deg", "1rad x", "5grad deg", "xdeg y"] {
        assert_eq!(parse_direction(input), Err(CssDirectionParseError::InvalidArguments(input)), "{}", input);
    }
    assert_eq!(degrees(&parse_direction(" 50deg\t").unwrap()), 50.0);
}

#[test]
fn direction_angle_with_a_malformed_numeral() {
    assert_eq!(parse_direction("deg"), Err(CssDirectionParseError::ParseFloat("")));
    assert_eq!(parse_direction("xdeg"), Err(CssDirectionParseError::ParseFloat("x")));
    assert_eq!(parse_direction("5deg3deg"), Err(CssDirectionParseError::ParseFloat("5deg3")));
    assert_eq!(parse_direction("grad"), Err(CssDirectionParseError::ParseFloat("")));
    assert_eq!(parse_direction("1 rad"), Err(CssDirectionParseError::InvalidArguments("1 rad")));
    assert_eq!(parse_direction("brad"), Err(CssDirectionParseError::ParseFloat("b")));
}

#[test]
fn direction_to_an_edge() {
    assert_eq!(parse_direction("to right"), Ok(Direction::FromTo(DirectionCorner::Left, DirectionCorner::Right)));
    assert_eq!(parse_direction("to left"), Ok(Direction::FromTo(DirectionCorner::Right, DirectionCorner::Left)));
    assert_eq!(parse_direction("to top"), Ok(Direction::FromTo(DirectionCorner::Bottom, DirectionCorner::Top)));
    assert_eq!(parse_direction("to bottom"), Ok(Direction::FromTo(DirectionCorner::Top, DirectionCorner::Bottom)));
}

#[test]
fn direction_to_a_corner() {
    assert_eq!(
        parse_direction("to bottom right"),
        Ok(Direction::FromTo(DirectionCorner::TopLeft, DirectionCorner::BottomRight))
    );
    assert_eq!(
        parse_direction("to right bottom"),
        Ok(Direction::FromTo(DirectionCorner::TopLeft, DirectionCorner::BottomRight))
    );
    assert_eq!(
        parse_direction("to top left"),
        Ok(Direction::FromTo(DirectionCorner::BottomRight, DirectionCorner::TopLeft))
    );
    assert_eq!(
        parse_direction("to left bottom"),
        Ok(Direction::FromTo(DirectionCorner::TopRight, DirectionCorner::BottomLeft))
    );
    assert_eq!(
        parse_direction("to  top\tright "),
        Ok(Direction::FromTo(DirectionCorner::BottomLeft, DirectionCorner::TopRight))
    );
}

#[test]
fn direction_errors() {
    assert_eq!(parse_direction(""), Err(CssDirectionParseError::Error("")));
    assert_eq!(parse_direction("   "), Err(CssDirectionParseError::Error("   ")));
    assert_eq!(parse_direction("red"), Err(CssDirectionParseError::InvalidArguments("red")));
    assert_eq!(parse_direction("right"), Err(CssDirectionParseError::InvalidArguments("right")));
    assert_eq!(parse_direction("To right"), Err(CssDirectionParseError::InvalidArguments("To right")));
    assert_eq!(parse_direction("to"), Err(CssDirectionParseError::Error("to")));
    assert_eq!(
        parse_direction("to center"),
        Err(CssDirectionParseError::CornerError(CssDirectionCornerParseError::InvalidDirection("center")))
    );
    assert_eq!(
        parse_direction("to top middle"),
        Err(CssDirectionParseError::CornerError(CssDirectionCornerParseError::InvalidDirection("middle")))
    );
    assert_eq!(parse_direction("to top bottom"), Err(CssDirectionParseError::Error("to top bottom")));
    assert_eq!(parse_direction("to top top"), Err(CssDirectionParseError::Error("to top top")));
    assert_eq!(
        parse_direction("to top right left"),
        Err(CssDirectionParseError::InvalidArguments("to top right left"))
    );
    // The first edge is read before the words are counted.
    assert_eq!(
        parse_direction("to up right left"),
        Err(CssDirectionParseError::CornerError(CssDirectionCornerParseError::InvalidDirection("up")))
    );
}
