//! Parsers that turn the textual value of a style property into a typed
//! descriptor: colors, lengths, borders, box shadows and gradients.
//!
//! Every parser takes the value as it stands after the colon of a
//! declaration, and gives back either the descriptor or an error that holds
//! the offending part of the input. The contract of each parser states its
//! result for every input, over the characters of the input.
//!
//! The library computes with integers only. A number that a value holds is
//! kept as the numeral that was written (`number`); what the numerals are
//! worth is said in `value`.

pub mod border;
pub mod canonical;
pub mod color;
pub mod corner;
pub mod direction;
pub mod gradient;
pub mod length;
pub mod model;
pub mod number;
pub mod offset;
pub mod shadow;
pub mod shape;
pub mod stop;
pub mod text;
pub mod value;

pub use border::{
    parse_border_style, parse_css_border, parse_css_border_radius, BorderDetails, BorderRadius,
    BorderSide, BorderStyle, BorderWidths, CssBorderParseError, LayoutSize, NormalBorder,
};
pub use color::{
    parse_color_builtin, parse_color_no_hash, parse_css_color, ColorU, CssColorParseError,
};
pub use corner::{parse_direction_corner, CssDirectionCornerParseError, DirectionCorner};
pub use direction::{parse_direction, Angle, AngleUnit, CssDirectionParseError, Direction};
pub use gradient::{
    parse_css_background, CssBackgroundParseError, ExtendMode, GradientType,
    LinearGradientPreInfo, ParsedGradient, RadialGradientPreInfo,
};
pub use length::{
    parse_pixel_value, CssBorderRadiusParseError, CssMetric, PixelValue, Pixels, EM_HEIGHT,
};
pub use number::Number;
pub use offset::{normalize_offsets, Anchor, StopOffset};
pub use shadow::{
    parse_css_box_shadow, BoxShadowClipMode, BoxShadowPreDisplayItem, CssShadowParseError,
    LayoutVector2D,
};
pub use shape::{parse_shape, CssShapeParseError, Shape};
pub use stop::{
    parse_gradient_stop, parse_percentage, CssGradientStopParseError, GradientStopPre,
};
