use css_parser::color::{
    parse_color_builtin, parse_color_no_hash, parse_css_color, ColorU, CssColorParseError,
};

const NAMED: [(&str, &str, [u8; 4]); 149] = [
    ("AliceBlue", "alice-blue", [240, 248, 255, 255]),
    ("AntiqueWhite", "antique-white", [250, 235, 215, 255]),
    ("Aqua", "aqua", [0, 255, 255, 255]),
    ("Aquamarine", "aquamarine", [127, 255, 212, 255]),
    ("Azure", "azure", [240, 255, 255, 255]),
    ("Beige", "beige", [245, 245, 220, 255]),
    ("Bisque", "bisque", [255, 228, 196, 255]),
    ("Black", "black", [0, 0, 0, 255]),
    ("BlanchedAlmond", "blanched-almond", [255, 235, 205, 255]),
    ("Blue", "blue", [0, 0, 255, 255]),
    ("BlueViolet", "blue-violet", [138, 43, 226, 255]),
    ("Brown", "brown", [165, 42, 42, 255]),
    ("BurlyWood", "burly-wood", [222, 184, 135, 255]),
    ("CadetBlue", "cadet-blue", [95, 158, 160, 255]),
    ("Chartreuse", "chartreuse", [127, 255, 0, 255]),
    ("Chocolate", "chocolate", [210, 105, 30, 255]),
    ("Coral", "coral", [255, 127, 80, 255]),
    ("CornflowerBlue", "cornflower-blue", [100, 149, 237, 255]),
    ("Cornsilk", "cornsilk", [255, 248, 220, 255]),
    ("Crimson", "crimson", [220, 20, 60, 255]),
    ("Cyan", "cyan", [0, 255, 255, 255]),
    ("DarkBlue", "dark-blue", [0, 0, 139, 255]),
    ("DarkCyan", "dark-cyan", [0, 139, 139, 255]),
    ("DarkGoldenRod", "dark-golden-rod", [184, 134, 11, 255]),
    ("DarkGray", "dark-gray", [169, 169, 169, 255]),
    ("DarkGrey", "dark-grey", [169, 169, 169, 255]),
    ("DarkGreen", "dark-green", [0, 100, 0, 255]),
    ("DarkKhaki", "dark-khaki", [189, 183, 107, 255]),
    ("DarkMagenta", "dark-magenta", [139, 0, 139, 255]),
    ("DarkOliveGreen", "dark-olive-green", [85, 107, 47, 255]),
    ("DarkOrange", "dark-orange", [255, 140, 0, 255]),
    ("DarkOrchid", "dark-orchid", [153, 50, 204, 255]),
    ("DarkRed", "dark-red", [139, 0, 0, 255]),
    ("DarkSalmon", "dark-salmon", [233, 150, 122, 255]),
    ("DarkSeaGreen", "dark-sea-green", [143, 188, 143, 255]),
    ("DarkSlateBlue", "dark-slate-blue", [72, 61, 139, 255]),
    ("DarkSlateGray", "dark-slate-gray", [47, 79, 79, 255]),
    ("DarkSlateGrey", "dark-slate-grey", [47, 79, 79, 255]),
    ("DarkTurquoise", "dark-turquoise", [0, 206, 209, 255]),
    ("DarkViolet", "dark-violet", [148, 0, 211, 255]),
    ("DeepPink", "deep-pink", [255, 20, 147, 255]),
    ("DeepSkyBlue", "deep-sky-blue", [0, 191, 255, 255]),
    ("DimGray", "dim-gray", [105, 105, 105, 255]),
    ("DimGrey", "dim-grey", [105, 105, 105, 255]),
    ("DodgerBlue", "dodger-blue", [30, 144, 255, 255]),
    ("FireBrick", "fire-brick", [178, 34, 34, 255]),
    ("FloralWhite", "floral-white", [255, 250, 240, 255]),
    ("ForestGreen", "forest-green", [34, 139, 34, 255]),
    ("Fuchsia", "fuchsia", [255, 0, 255, 255]),
    ("Gainsboro", "gainsboro", [220, 220, 220, 255]),
    ("GhostWhite", "ghost-white", [248, 248, 255, 255]),
    ("Gold", "gold", [255, 215, 0, 255]),
    ("GoldenRod", "golden-rod", [218, 165, 32, 255]),
    ("Gray", "gray", [128, 128, 128, 255]),
    ("Grey", "grey", [128, 128, 128, 255]),
    ("Green", "green", [0, 128, 0, 255]),
    ("GreenYellow", "green-yellow", [173, 255, 47, 255]),
    ("HoneyDew", "honey-dew", [240, 255, 240, 255]),
    ("HotPink", "hot-pink", [255, 105, 180, 255]),
    ("IndianRed", "indian-red", [205, 92, 92, 255]),
    ("Indigo", "indigo", [75, 0, 130, 255]),
    ("Ivory", "ivory", [255, 255, 240, 255]),
    ("Khaki", "khaki", [240, 230, 140, 255]),
    ("Lavender", "lavender", [230, 230, 250, 255]),
    ("LavenderBlush", "lavender-blush", [255, 240, 245, 255]),
    ("LawnGreen", "lawn-green", [124, 252, 0, 255]),
    ("LemonChiffon", "lemon-chiffon", [255, 250, 205, 255]),
    ("LightBlue", "light-blue", [173, 216, 230, 255]),
    ("LightCoral", "light-coral", [240, 128, 128, 255]),
    ("LightCyan", "light-cyan", [224, 255, 255, 255]),
    ("LightGoldenRodYellow", "light-golden-rod-yellow", [250, 250, 210, 255]),
    ("LightGray", "light-gray", [211, 211, 211, 255]),
    ("LightGrey", "light-grey", [211, 211, 211, 255]),
    ("LightGreen", "light-green", [144, 238, 144, 255]),
    ("LightPink", "light-pink", [255, 182, 193, 255]),
    ("LightSalmon", "light-salmon", [255, 160, 122, 255]),
    ("LightSeaGreen", "light-sea-green", [32, 178, 170, 255]),
    ("LightSkyBlue", "light-sky-blue", [135, 206, 250, 255]),
    ("LightSlateGray", "light-slate-gray", [119, 136, 153, 255]),
    ("LightSlateGrey", "light-slate-grey", [119, 136, 153, 255]),
    ("LightSteelBlue", "light-steel-blue", [176, 196, 222, 255]),
    ("LightYellow", "light-yellow", [255, 255, 224, 255]),
    ("Lime", "lime", [0, 255, 0, 255]),
    ("LimeGreen", "lime-green", [50, 205, 50, 255]),
    ("Linen", "linen", [250, 240, 230, 255]),
    ("Magenta", "magenta", [255, 0, 255, 255]),
    ("Maroon", "maroon", [128, 0, 0, 255]),
    ("MediumAquaMarine", "medium-aqua-marine", [102, 205, 170, 255]),
    ("MediumBlue", "medium-blue", [0, 0, 205, 255]),
    ("MediumOrchid", "medium-orchid", [186, 85, 211, 255]),
    ("MediumPurple", "medium-purple", [147, 112, 219, 255]),
    ("MediumSeaGreen", "medium-sea-green", [60, 179, 113, 255]),
    ("MediumSlateBlue", "medium-slate-blue", [123, 104, 238, 255]),
    ("MediumSpringGreen", "medium-spring-green", [0, 250, 154, 255]),
    ("MediumTurquoise", "medium-turquoise", [72, 209, 204, 255]),
    ("MediumVioletRed", "medium-violet-red", [199, 21, 133, 255]),
    ("MidnightBlue", "midnight-blue", [25, 25, 112, 255]),
    ("MintCream", "mint-cream", [245, 255, 250, 255]),
    ("MistyRose", "misty-rose", [255, 228, 225, 255]),
    ("Moccasin", "moccasin", [255, 228, 181, 255]),
    ("NavajoWhite", "navajo-white", [255, 222, 173, 255]),
    ("Navy", "navy", [0, 0, 128, 255]),
    ("OldLace", "old-lace", [253, 245, 230, 255]),
    ("Olive", "olive", [128, 128, 0, 255]),
    ("OliveDrab", "olive-drab", [107, 142, 35, 255]),
    ("Orange", "orange", [255, 165, 0, 255]),
    ("OrangeRed", "orange-red", [255, 69, 0, 255]),
    ("Orchid", "orchid", [218, 112, 214, 255]),
    ("PaleGoldenRod", "pale-golden-rod", [238, 232, 170, 255]),
    ("PaleGreen", "pale-green", [152, 251, 152, 255]),
    ("PaleTurquoise", "pale-turquoise", [175, 238, 238, 255]),
    ("PaleVioletRed", "pale-violet-red", [219, 112, 147, 255]),
    ("PapayaWhip", "papaya-whip", [255, 239, 213, 255]),
    ("PeachPuff", "peach-puff", [255, 218, 185, 255]),
    ("Peru", "peru", [205, 133, 63, 255]),
    ("Pink", "pink", [255, 192, 203, 255]),
    ("Plum", "plum", [221, 160, 221, 255]),
    ("PowderBlue", "powder-blue", [176, 224, 230, 255]),
    ("Purple", "purple", [128, 0, 128, 255]),
    ("RebeccaPurple", "rebecca-purple", [102, 51, 153, 255]),
    ("Red", "red", [255, 0, 0, 255]),
    ("RosyBrown", "rosy-brown", [188, 143, 143, 255]),
    ("RoyalBlue", "royal-blue", [65, 105, 225, 255]),
    ("SaddleBrown", "saddle-brown", [139, 69, 19, 255]),
    ("Salmon", "salmon", [250, 128, 114, 255]),
    ("SandyBrown", "sandy-brown", [244, 164, 96, 255]),
    ("SeaGreen", "sea-green", [46, 139, 87, 255]),
    ("SeaShell", "sea-shell", [255, 245, 238, 255]),
    ("Sienna", "sienna", [160, 82, 45, 255]),
    ("Silver", "silver", [192, 192, 192, 255]),
    ("SkyBlue", "sky-blue", [135, 206, 235, 255]),
    ("SlateBlue", "slate-blue", [106, 90, 205, 255]),
    ("SlateGray", "slate-gray", [112, 128, 144, 255]),
    ("SlateGrey", "slate-grey", [112, 128, 144, 255]),
    ("Snow", "snow", [255, 250, 250, 255]),
    ("SpringGreen", "spring-green", [0, 255, 127, 255]),
    ("SteelBlue", "steel-blue", [70, 130, 180, 255]),
    ("Tan", "tan", [210, 180, 140, 255]),
    ("Teal", "teal", [0, 128, 128, 255]),
    ("Thistle", "thistle", [216, 191, 216, 255]),
    ("Tomato", "tomato", [255, 99, 71, 255]),
    ("Turquoise", "turquoise", [64, 224, 208, 255]),
    ("Violet", "violet", [238, 130, 238, 255]),
    ("Wheat", "wheat", [245, 222, 179, 255]),
    ("White", "white", [255, 255, 255, 255]),
    ("WhiteSmoke", "white-smoke", [245, 245, 245, 255]),
    ("Yellow", "yellow", [255, 255, 0, 255]),
    ("YellowGreen", "yellow-green", [154, 205, 50, 255]),
    ("Transparent", "transparent", [255, 255, 255, 255]),
];

fn color(c: [u8; 4]) -> ColorU {
    ColorU { r: c[0], g: c[1], b: c[2], a: c[3] }
}

#[test]
fn every_named_color_in_both_spellings() {
    for (camel, hyphenated, channels) in NAMED.iter() {
        assert_eq!(parse_css_color(camel), Ok(color(*channels)), "{}", camel);
        assert_eq!(parse_css_color(hyphenated), Ok(color(*channels)), "{}", hyphenated);
        assert_eq!(parse_color_builtin(camel), parse_color_builtin(hyphenated));
    }
}

#[test]
fn named_colors_are_told_apart_by_case() {
    for name in ["RED", "rEd", "aliceBlue", "Aliceblue", "ALICE-BLUE", "Alice-Blue", "alice_blue", "aliceblue", "-red", "red-", "R-ed"] {
        assert_eq!(parse_css_color(name), Err(CssColorParseError::InvalidColor(name)), "{}", name);
    }
}

#[test]
fn unknown_names_are_refused_with_the_name() {
    assert_eq!(parse_css_color("blurple"), Err(CssColorParseError::InvalidColor("blurple")));
    assert_eq!(parse_css_color(""), Err(CssColorParseError::InvalidColor("")));
    assert_eq!(parse_color_builtin("#fff"), Err(CssColorParseError::InvalidColor("#fff")));
    assert_eq!(parse_css_color(" red"), Err(CssColorParseError::InvalidColor(" red")));
}

#[test]
fn transparent_is_the_table_entry() {
    assert_eq!(parse_css_color("transparent"), Ok(ColorU { r: 255, g: 255, b: 255, a: 255 }));
    assert_eq!(parse_css_color("Transparent"), Ok(ColorU { r: 255, g: 255, b: 255, a: 255 }));
}

#[test]
fn hex_three_digits_double_each_digit() {
    assert_eq!(parse_color_no_hash("EEE"), Ok(ColorU { r: 238, g: 238, b: 238, a: 255 }));
    assert_eq!(parse_color_no_hash("1a9"), Ok(ColorU { r: 0x11, g: 0xaa, b: 0x99, a: 255 }));
    assert_eq!(parse_css_color("#000"), Ok(ColorU { r: 0, g: 0, b: 0, a: 255 }));
}

#[test]
fn hex_four_digits_double_each_digit_with_alpha() {
    assert_eq!(parse_color_no_hash("EEE8"), Ok(ColorU { r: 238, g: 238, b: 238, a: 0x88 }));
    assert_eq!(parse_css_color("#f0c1"), Ok(ColorU { r: 255, g: 0, b: 0xcc, a: 0x11 }));
}

#[test]
fn hex_six_digits() {
    assert_eq!(parse_color_no_hash("F0F8FF"), Ok(ColorU { r: 240, g: 248, b: 255, a: 255 }));
    assert_eq!(parse_color_no_hash("00ff7f"), Ok(ColorU { r: 0, g: 255, b: 127, a: 255 }));
    assert_eq!(parse_color_no_hash("aBcDeF"), Ok(ColorU { r: 0xab, g: 0xcd, b: 0xef, a: 255 }));
}

#[test]
fn hex_eight_digits() {
    assert_eq!(parse_color_no_hash("F0F8FF00"), Ok(ColorU { r: 240, g: 248, b: 255, a: 0 }));
    assert_eq!(parse_color_no_hash("01020304"), Ok(ColorU { r: 1, g: 2, b: 3, a: 4 }));
}

#[test]
fn hex_every_channel_value_round_trips() {
    for v in 0..=255u8 {
        let text = format!("#{:02X}{:02x}{:02X}{:02x}", v, 255 - v, v / 2, v);
        assert_eq!(parse_css_color(&text), Ok(ColorU { r: v, g: 255 - v, b: v / 2, a: v }));
    }
}

#[test]
fn color_written_out_and_read_again_is_the_same() {
    for input in ["#F0F8FF", "#F0F8FF00", "#EEE", "#abcd", "red", "RebeccaPurple", "light-golden-rod-yellow"] {
        let c = parse_css_color(input).unwrap();
        let text = format!("#{:02X}{:02X}{:02X}{:02X}", c.r, c.g, c.b, c.a);
        assert_eq!(parse_css_color(&text), Ok(c));
    }
}

#[test]
fn hex_of_another_length_is_refused_with_its_digits() {
    for digits in ["", "F", "FF", "FFFFF", "FFFFFFF", "FFFFFFFFF", "GG", "zzzzz"] {
        assert_eq!(parse_color_no_hash(digits), Err(CssColorParseError::InvalidColor(digits)));
    }
    assert_eq!(parse_css_color("#"), Err(CssColorParseError::InvalidColor("")));
    assert_eq!(parse_css_color("#12345"), Err(CssColorParseError::InvalidColor("12345")));
}

#[test]
fn hex_with_a_bad_digit_is_refused_with_the_first_bad_byte() {
    assert_eq!(parse_color_no_hash("GGG"), Err(CssColorParseError::InvalidColorComponent(b'G')));
    assert_eq!(parse_color_no_hash("12x4"), Err(CssColorParseError::InvalidColorComponent(b'x')));
    assert_eq!(parse_color_no_hash("12345z"), Err(CssColorParseError::InvalidColorComponent(b'z')));
    assert_eq!(parse_color_no_hash("1234 678"), Err(CssColorParseError::InvalidColorComponent(b' ')));
    assert_eq!(parse_color_no_hash("+12345"), Err(CssColorParseError::InvalidColorComponent(b'+')));
    assert_eq!(parse_color_no_hash("-1234567"), Err(CssColorParseError::InvalidColorComponent(b'-')));
    assert_eq!(parse_color_no_hash("/:@"), Err(CssColorParseError::InvalidColorComponent(b'/')));
    assert_eq!(parse_color_no_hash("9:@"), Err(CssColorParseError::InvalidColorComponent(b':')));
    assert_eq!(parse_color_no_hash("aG`"), Err(CssColorParseError::InvalidColorComponent(b'G')));
    assert_eq!(parse_color_no_hash("fg0"), Err(CssColorParseError::InvalidColorComponent(b'g')));
    assert_eq!(parse_css_color("#q00"), Err(CssColorParseError::InvalidColorComponent(b'q')));
}

#[test]
fn hex_is_measured_in_bytes() {
    // One character of three bytes has the length of three digits.
    assert_eq!(parse_color_no_hash("\u{20ac}"), Err(CssColorParseError::InvalidColorComponent(0xE2)));
    // Three characters of two bytes each have the length of six digits.
    assert_eq!(parse_color_no_hash("\u{e9}\u{e9}\u{e9}"), Err(CssColorParseError::InvalidColorComponent(0xC3)));
    // Two digits and a character of two bytes have the length of four.
    assert_eq!(parse_color_no_hash("ab\u{e9}"), Err(CssColorParseError::InvalidColorComponent(0xC3)));
    // Three characters of three bytes are nine bytes: no length of a color.
    assert_eq!(
        parse_color_no_hash("\u{20ac}\u{20ac}\u{20ac}"),
        Err(CssColorParseError::InvalidColor("\u{20ac}\u{20ac}\u{20ac}"))
    );
}
