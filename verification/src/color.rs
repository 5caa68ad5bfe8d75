//! Colors: hexadecimal literals and the named colors.

use vstd::prelude::*;
use vstd::utf8::encode_utf8;
use crate::model::outcome;
use crate::number::{lower, to_lower};
use crate::text::{chars_are, to_chars};

verus! {

/// A color: red, green, blue and opacity, eight bits each.
#[derive(Debug, PartialEq, Eq, Clone, Copy, Structural)]
pub struct ColorU {
    pub r: u8,
    pub g: u8,
    pub b: u8,
    pub a: u8,
}

impl View for ColorU {
    type V = ColorU;

    open spec fn view(&self) -> ColorU {
        *self
    }
}

impl ColorU {
    /// The opaque color of the three channels.
    pub open spec fn opaque(r: u8, g: u8, b: u8) -> ColorU {
        ColorU { r, g, b, a: 255 }
    }

    /// Opaque black.
    pub open spec fn black() -> ColorU {
        ColorU { r: 0, g: 0, b: 0, a: 255 }
    }
}

/// Why a color was not accepted.
#[derive(Debug, PartialEq, Eq, Clone, Copy)]
pub enum CssColorParseError<'a> {
    /// No color has this name, or no hexadecimal color has this many digits;
    /// holds the name or the digits.
    InvalidColor(&'a str),
    /// Holds the first byte that is no hexadecimal digit.
    InvalidColorComponent(u8),
}

/// What a `CssColorParseError` stands for.
pub ghost enum ColorError {
    InvalidColor(Seq<char>),
    InvalidColorComponent(u8),
}

impl<'a> View for CssColorParseError<'a> {
    type V = ColorError;

    open spec fn view(&self) -> ColorError {
        match *self {
            CssColorParseError::InvalidColor(s) => ColorError::InvalidColor(s@),
            CssColorParseError::InvalidColorComponent(b) => ColorError::InvalidColorComponent(b),
        }
    }
}

/// Whether the byte is a hexadecimal digit, in either case.
pub open spec fn is_hex_digit(b: u8) -> bool {
    (0x30 <= b <= 0x39) || (0x41 <= b <= 0x46) || (0x61 <= b <= 0x66)
}

/// The value of a hexadecimal digit.
pub open spec fn hex_value(b: u8) -> int {
    if 0x30 <= b <= 0x39 {
        b - 0x30
    } else if 0x41 <= b <= 0x46 {
        b - 0x41 + 10
    } else {
        b - 0x61 + 10
    }
}

/// The channel that two hexadecimal digits spell.
pub open spec fn channel(high: u8, low: u8) -> u8 {
    (16 * hex_value(high) + hex_value(low)) as u8
}

/// The first index at or after `i` that holds no hexadecimal digit, or the
/// length of `bytes`.
pub open spec fn hex_end(bytes: Seq<u8>, i: int) -> int
    decreases bytes.len() - i,
{
    if i < 0 || i >= bytes.len() || !is_hex_digit(bytes[i]) {
        i
    } else {
        hex_end(bytes, i + 1)
    }
}

/// The color that the hexadecimal digits `d` spell. Three and four digits
/// are each taken twice; without digits for it the opacity is 255.
pub open spec fn color_of_digits(d: Seq<u8>) -> ColorU {
    if d.len() == 3 {
        ColorU { r: channel(d[0], d[0]), g: channel(d[1], d[1]), b: channel(d[2], d[2]), a: 255 }
    } else if d.len() == 4 {
        ColorU {
            r: channel(d[0], d[0]),
            g: channel(d[1], d[1]),
            b: channel(d[2], d[2]),
            a: channel(d[3], d[3]),
        }
    } else if d.len() == 6 {
        ColorU { r: channel(d[0], d[1]), g: channel(d[2], d[3]), b: channel(d[4], d[5]), a: 255 }
    } else {
        ColorU {
            r: channel(d[0], d[1]),
            g: channel(d[2], d[3]),
            b: channel(d[4], d[5]),
            a: channel(d[6], d[7]),
        }
    }
}

/// The color that the hexadecimal literal `s`, written without `#`, is.
///
/// The literal is measured and read in the bytes of its UTF-8 form. It must
/// have 3, 4, 6 or 8 of them, and each must be a hexadecimal digit.
pub open spec fn hex_color(s: Seq<char>) -> Result<ColorU, ColorError> {
    let d = encode_utf8(s);
    if d.len() == 3 || d.len() == 4 || d.len() == 6 || d.len() == 8 {
        if hex_end(d, 0) < d.len() {
            Err(ColorError::InvalidColorComponent(d[hex_end(d, 0)]))
        } else {
            Ok(color_of_digits(d))
        }
    } else {
        Err(ColorError::InvalidColor(s))
    }
}

/// Whether `c` is an ASCII capital letter.
pub open spec fn is_upper(c: char) -> bool {
    'A' <= c <= 'Z'
}

/// Whether `c` is an ASCII letter.
pub open spec fn is_letter(c: char) -> bool {
    ('A' <= c <= 'Z') || ('a' <= c <= 'z')
}

/// Whether `s` is written in CamelCase: ASCII letters only, the first of them
/// a capital.
pub open spec fn is_camel_case(s: Seq<char>) -> bool {
    &&& s.len() > 0
    &&& is_upper(s[0])
    &&& forall|i: int| 0 <= i < s.len() ==> is_letter(#[trigger] s[i])
}

/// The hyphenated spelling of a CamelCase name: every letter in lower case,
/// and a hyphen before each capital but the first.
pub open spec fn hyphenated(s: Seq<char>) -> Seq<char>
    decreases s.len(),
{
    if s.len() == 0 {
        s
    } else if !is_upper(s.last()) {
        hyphenated(s.drop_last()).push(s.last())
    } else if s.len() == 1 {
        seq![lower(s.last())]
    } else {
        hyphenated(s.drop_last()).push('-').push(lower(s.last()))
    }
}

/// The spelling under which a name is looked up: a CamelCase name stands for
/// its hyphenated spelling, any other name for itself.
pub open spec fn color_key(s: Seq<char>) -> Seq<char> {
    if is_camel_case(s) {
        hyphenated(s)
    } else {
        s
    }
}

/// The opaque color of the three channels, as an entry of the table.
pub open spec fn rgb(r: u8, g: u8, b: u8) -> Option<ColorU> {
    Some(ColorU { r, g, b, a: 255 })
}

/// The color of the four channels, as an entry of the table.
pub open spec fn rgba(r: u8, g: u8, b: u8, a: u8) -> Option<ColorU> {
    Some(ColorU { r, g, b, a })
}

/// The table of the named colors, by their hyphenated spelling.
pub open spec fn named(key: Seq<char>) -> Option<ColorU> {
    if key == "alice-blue"@ { rgb(0xF0, 0xF8, 0xFF) }
    else if key == "antique-white"@ { rgb(0xFA, 0xEB, 0xD7) }
    else if key == "aqua"@ { rgb(0x00, 0xFF, 0xFF) }
    else if key == "aquamarine"@ { rgb(0x7F, 0xFF, 0xD4) }
    else if key == "azure"@ { rgb(0xF0, 0xFF, 0xFF) }
    else if key == "beige"@ { rgb(0xF5, 0xF5, 0xDC) }
    else if key == "bisque"@ { rgb(0xFF, 0xE4, 0xC4) }
    else if key == "black"@ { rgb(0x00, 0x00, 0x00) }
    else if key == "blanched-almond"@ { rgb(0xFF, 0xEB, 0xCD) }
    else if key == "blue"@ { rgb(0x00, 0x00, 0xFF) }
    else if key == "blue-violet"@ { rgb(0x8A, 0x2B, 0xE2) }
    else if key == "brown"@ { rgb(0xA5, 0x2A, 0x2A) }
    else if key == "burly-wood"@ { rgb(0xDE, 0xB8, 0x87) }
    else if key == "cadet-blue"@ { rgb(0x5F, 0x9E, 0xA0) }
    else if key == "chartreuse"@ { rgb(0x7F, 0xFF, 0x00) }
    else if key == "chocolate"@ { rgb(0xD2, 0x69, 0x1E) }
    else if key == "coral"@ { rgb(0xFF, 0x7F, 0x50) }
    else if key == "cornflower-blue"@ { rgb(0x64, 0x95, 0xED) }
    else if key == "cornsilk"@ { rgb(0xFF, 0xF8, 0xDC) }
    else if key == "crimson"@ { rgb(0xDC, 0x14, 0x3C) }
    else if key == "cyan"@ { rgb(0x00, 0xFF, 0xFF) }
    else if key == "dark-blue"@ { rgb(0x00, 0x00, 0x8B) }
    else if key == "dark-cyan"@ { rgb(0x00, 0x8B, 0x8B) }
    else if key == "dark-golden-rod"@ { rgb(0xB8, 0x86, 0x0B) }
    else if key == "dark-gray"@ { rgb(0xA9, 0xA9, 0xA9) }
    else if key == "dark-grey"@ { rgb(0xA9, 0xA9, 0xA9) }
    else if key == "dark-green"@ { rgb(0x00, 0x64, 0x00) }
    else if key == "dark-khaki"@ { rgb(0xBD, 0xB7, 0x6B) }
    else if key == "dark-magenta"@ { rgb(0x8B, 0x00, 0x8B) }
    else if key == "dark-olive-green"@ { rgb(0x55, 0x6B, 0x2F) }
    else if key == "dark-orange"@ { rgb(0xFF, 0x8C, 0x00) }
    else if key == "dark-orchid"@ { rgb(0x99, 0x32, 0xCC) }
    else if key == "dark-red"@ { rgb(0x8B, 0x00, 0x00) }
    else if key == "dark-salmon"@ { rgb(0xE9, 0x96, 0x7A) }
    else if key == "dark-sea-green"@ { rgb(0x8F, 0xBC, 0x8F) }
    else if key == "dark-slate-blue"@ { rgb(0x48, 0x3D, 0x8B) }
    else if key == "dark-slate-gray"@ { rgb(0x2F, 0x4F, 0x4F) }
    else if key == "dark-slate-grey"@ { rgb(0x2F, 0x4F, 0x4F) }
    else if key == "dark-turquoise"@ { rgb(0x00, 0xCE, 0xD1) }
    else if key == "dark-violet"@ { rgb(0x94, 0x00, 0xD3) }
    else if key == "deep-pink"@ { rgb(0xFF, 0x14, 0x93) }
    else if key == "deep-sky-blue"@ { rgb(0x00, 0xBF, 0xFF) }
    else if key == "dim-gray"@ { rgb(0x69, 0x69, 0x69) }
    else if key == "dim-grey"@ { rgb(0x69, 0x69, 0x69) }
    else if key == "dodger-blue"@ { rgb(0x1E, 0x90, 0xFF) }
    else if key == "fire-brick"@ { rgb(0xB2, 0x22, 0x22) }
    else if key == "floral-white"@ { rgb(0xFF, 0xFA, 0xF0) }
    else if key == "forest-green"@ { rgb(0x22, 0x8B, 0x22) }
    else if key == "fuchsia"@ { rgb(0xFF, 0x00, 0xFF) }
    else if key == "gainsboro"@ { rgb(0xDC, 0xDC, 0xDC) }
    else if key == "ghost-white"@ { rgb(0xF8, 0xF8, 0xFF) }
    else if key == "gold"@ { rgb(0xFF, 0xD7, 0x00) }
    else if key == "golden-rod"@ { rgb(0xDA, 0xA5, 0x20) }
    else if key == "gray"@ { rgb(0x80, 0x80, 0x80) }
    else if key == "grey"@ { rgb(0x80, 0x80, 0x80) }
    else if key == "green"@ { rgb(0x00, 0x80, 0x00) }
    else if key == "green-yellow"@ { rgb(0xAD, 0xFF, 0x2F) }
    else if key == "honey-dew"@ { rgb(0xF0, 0xFF, 0xF0) }
    else if key == "hot-pink"@ { rgb(0xFF, 0x69, 0xB4) }
    else if key == "indian-red"@ { rgb(0xCD, 0x5C, 0x5C) }
    else if key == "indigo"@ { rgb(0x4B, 0x00, 0x82) }
    else if key == "ivory"@ { rgb(0xFF, 0xFF, 0xF0) }
    else if key == "khaki"@ { rgb(0xF0, 0xE6, 0x8C) }
    else if key == "lavender"@ { rgb(0xE6, 0xE6, 0xFA) }
    else if key == "lavender-blush"@ { rgb(0xFF, 0xF0, 0xF5) }
    else if key == "lawn-green"@ { rgb(0x7C, 0xFC, 0x00) }
    else if key == "lemon-chiffon"@ { rgb(0xFF, 0xFA, 0xCD) }
    else if key == "light-blue"@ { rgb(0xAD, 0xD8, 0xE6) }
    else if key == "light-coral"@ { rgb(0xF0, 0x80, 0x80) }
    else if key == "light-cyan"@ { rgb(0xE0, 0xFF, 0xFF) }
    else if key == "light-golden-rod-yellow"@ { rgb(0xFA, 0xFA, 0xD2) }
    else if key == "light-gray"@ { rgb(0xD3, 0xD3, 0xD3) }
    else if key == "light-grey"@ { rgb(0xD3, 0xD3, 0xD3) }
    else if key == "light-green"@ { rgb(0x90, 0xEE, 0x90) }
    else if key == "light-pink"@ { rgb(0xFF, 0xB6, 0xC1) }
    else if key == "light-salmon"@ { rgb(0xFF, 0xA0, 0x7A) }
    else if key == "light-sea-green"@ { rgb(0x20, 0xB2, 0xAA) }
    else if key == "light-sky-blue"@ { rgb(0x87, 0xCE, 0xFA) }
    else if key == "light-slate-gray"@ { rgb(0x77, 0x88, 0x99) }
    else if key == "light-slate-grey"@ { rgb(0x77, 0x88, 0x99) }
    else if key == "light-steel-blue"@ { rgb(0xB0, 0xC4, 0xDE) }
    else if key == "light-yellow"@ { rgb(0xFF, 0xFF, 0xE0) }
    else if key == "lime"@ { rgb(0x00, 0xFF, 0x00) }
    else if key == "lime-green"@ { rgb(0x32, 0xCD, 0x32) }
    else if key == "linen"@ { rgb(0xFA, 0xF0, 0xE6) }
    else if key == "magenta"@ { rgb(0xFF, 0x00, 0xFF) }
    else if key == "maroon"@ { rgb(0x80, 0x00, 0x00) }
    else if key == "medium-aqua-marine"@ { rgb(0x66, 0xCD, 0xAA) }
    else if key == "medium-blue"@ { rgb(0x00, 0x00, 0xCD) }
    else if key == "medium-orchid"@ { rgb(0xBA, 0x55, 0xD3) }
    else if key == "medium-purple"@ { rgb(0x93, 0x70, 0xDB) }
    else if key == "medium-sea-green"@ { rgb(0x3C, 0xB3, 0x71) }
    else if key == "medium-slate-blue"@ { rgb(0x7B, 0x68, 0xEE) }
    else if key == "medium-spring-green"@ { rgb(0x00, 0xFA, 0x9A) }
    else if key == "medium-turquoise"@ { rgb(0x48, 0xD1, 0xCC) }
    else if key == "medium-violet-red"@ { rgb(0xC7, 0x15, 0x85) }
    else if key == "midnight-blue"@ { rgb(0x19, 0x19, 0x70) }
    else if key == "mint-cream"@ { rgb(0xF5, 0xFF, 0xFA) }
    else if key == "misty-rose"@ { rgb(0xFF, 0xE4, 0xE1) }
    else if key == "moccasin"@ { rgb(0xFF, 0xE4, 0xB5) }
    else if key == "navajo-white"@ { rgb(0xFF, 0xDE, 0xAD) }
    else if key == "navy"@ { rgb(0x00, 0x00, 0x80) }
    else if key == "old-lace"@ { rgb(0xFD, 0xF5, 0xE6) }
    else if key == "olive"@ { rgb(0x80, 0x80, 0x00) }
    else if key == "olive-drab"@ { rgb(0x6B, 0x8E, 0x23) }
    else if key == "orange"@ { rgb(0xFF, 0xA5, 0x00) }
    else if key == "orange-red"@ { rgb(0xFF, 0x45, 0x00) }
    else if key == "orchid"@ { rgb(0xDA, 0x70, 0xD6) }
    else if key == "pale-golden-rod"@ { rgb(0xEE, 0xE8, 0xAA) }
    else if key == "pale-green"@ { rgb(0x98, 0xFB, 0x98) }
    else if key == "pale-turquoise"@ { rgb(0xAF, 0xEE, 0xEE) }
    else if key == "pale-violet-red"@ { rgb(0xDB, 0x70, 0x93) }
    else if key == "papaya-whip"@ { rgb(0xFF, 0xEF, 0xD5) }
    else if key == "peach-puff"@ { rgb(0xFF, 0xDA, 0xB9) }
    else if key == "peru"@ { rgb(0xCD, 0x85, 0x3F) }
    else if key == "pink"@ { rgb(0xFF, 0xC0, 0xCB) }
    else if key == "plum"@ { rgb(0xDD, 0xA0, 0xDD) }
    else if key == "powder-blue"@ { rgb(0xB0, 0xE0, 0xE6) }
    else if key == "purple"@ { rgb(0x80, 0x00, 0x80) }
    else if key == "rebecca-purple"@ { rgb(0x66, 0x33, 0x99) }
    else if key == "red"@ { rgb(0xFF, 0x00, 0x00) }
    else if key == "rosy-brown"@ { rgb(0xBC, 0x8F, 0x8F) }
    else if key == "royal-blue"@ { rgb(0x41, 0x69, 0xE1) }
    else if key == "saddle-brown"@ { rgb(0x8B, 0x45, 0x13) }
    else if key == "salmon"@ { rgb(0xFA, 0x80, 0x72) }
    else if key == "sandy-brown"@ { rgb(0xF4, 0xA4, 0x60) }
    else if key == "sea-green"@ { rgb(0x2E, 0x8B, 0x57) }
    else if key == "sea-shell"@ { rgb(0xFF, 0xF5, 0xEE) }
    else if key == "sienna"@ { rgb(0xA0, 0x52, 0x2D) }
    else if key == "silver"@ { rgb(0xC0, 0xC0, 0xC0) }
    else if key == "sky-blue"@ { rgb(0x87, 0xCE, 0xEB) }
    else if key == "slate-blue"@ { rgb(0x6A, 0x5A, 0xCD) }
    else if key == "slate-gray"@ { rgb(0x70, 0x80, 0x90) }
    else if key == "slate-grey"@ { rgb(0x70, 0x80, 0x90) }
    else if key == "snow"@ { rgb(0xFF, 0xFA, 0xFA) }
    else if key == "spring-green"@ { rgb(0x00, 0xFF, 0x7F) }
    else if key == "steel-blue"@ { rgb(0x46, 0x82, 0xB4) }
    else if key == "tan"@ { rgb(0xD2, 0xB4, 0x8C) }
    else if key == "teal"@ { rgb(0x00, 0x80, 0x80) }
    else if key == "thistle"@ { rgb(0xD8, 0xBF, 0xD8) }
    else if key == "tomato"@ { rgb(0xFF, 0x63, 0x47) }
    else if key == "turquoise"@ { rgb(0x40, 0xE0, 0xD0) }
    else if key == "violet"@ { rgb(0xEE, 0x82, 0xEE) }
    else if key == "wheat"@ { rgb(0xF5, 0xDE, 0xB3) }
    else if key == "white"@ { rgb(0xFF, 0xFF, 0xFF) }
    else if key == "white-smoke"@ { rgb(0xF5, 0xF5, 0xF5) }
    else if key == "yellow"@ { rgb(0xFF, 0xFF, 0x00) }
    else if key == "yellow-green"@ { rgb(0x9A, 0xCD, 0x32) }
    else if key == "transparent"@ { rgba(0xFF, 0xFF, 0xFF, 0xFF) }
    else { None }
}

/// The color that the name `s` stands for. Names are told apart by case: a
/// color is known by its hyphenated lower-case name and by its CamelCase name,
/// and by no other spelling.
pub open spec fn named_color(s: Seq<char>) -> Result<ColorU, ColorError> {
    match named(color_key(s)) {
        Some(c) => Ok(c),
        None => Err(ColorError::InvalidColor(s)),
    }
}

/// The color that `s` is: a hexadecimal literal after `#`, or else a name.
pub open spec fn color_of(s: Seq<char>) -> Result<ColorU, ColorError> {
    if s.len() > 0 && s[0] == '#' {
        hex_color(s.subrange(1, s.len() as int))
    } else {
        named_color(s)
    }
}

/// The digits of a run are hexadecimal digits, and the run ends at what is
/// none or at the end of the bytes.
pub proof fn lemma_hex_end_bounds(bytes: Seq<u8>, i: int)
    requires
        0 <= i <= bytes.len(),
    ensures
        i <= hex_end(bytes, i) <= bytes.len(),
        hex_end(bytes, i) < bytes.len() ==> !is_hex_digit(bytes[hex_end(bytes, i)]),
        forall|k: int| i <= k < hex_end(bytes, i) ==> is_hex_digit(#[trigger] bytes[k]),
    decreases bytes.len() - i,
{
    if i < bytes.len() && is_hex_digit(bytes[i]) {
        lemma_hex_end_bounds(bytes, i + 1);
    }
}

/// The hyphenated spelling of a CamelCase name starts with a small letter, so
/// it is no CamelCase name itself.
pub proof fn lemma_hyphenated_starts_small(s: Seq<char>)
    requires
        s.len() > 0,
        is_upper(s[0]),
    ensures
        hyphenated(s).len() > 0,
        hyphenated(s)[0] == lower(s[0]),
        !is_camel_case(hyphenated(s)),
    decreases s.len(),
{
    if s.len() > 1 {
        lemma_hyphenated_starts_small(s.drop_last());
    }
}

/// Both spellings of a name give the same color: a CamelCase name is a color
/// exactly if its hyphenated spelling is one, and then it is that color.
pub proof fn lemma_spellings_agree(camel: Seq<char>)
    requires
        is_camel_case(camel),
    ensures
        named_color(camel) is Ok <==> named_color(hyphenated(camel)) is Ok,
        named_color(camel) is Ok ==> named_color(camel) == named_color(hyphenated(camel)),
{
    lemma_hyphenated_starts_small(camel);
}

/// Whether `c` is an ASCII small letter.
pub open spec fn is_small(c: char) -> bool {
    'a' <= c <= 'z'
}

/// An ASCII letter as a capital; any other character unchanged.
pub open spec fn upper(c: char) -> char {
    if 'a' <= c <= 'z' {
        ((c as u8) - 32) as char
    } else {
        c
    }
}

/// Whether `h` is written as the hyphenated names are: in small ASCII
/// letters, with single hyphens between them and none at either end.
pub open spec fn is_hyphenated(h: Seq<char>) -> bool {
    &&& h.len() > 0
    &&& is_small(h[0])
    &&& is_small(h.last())
    &&& forall|i: int| 0 <= i < h.len() ==> is_small(#[trigger] h[i]) || h[i] == '-'
    &&& forall|i: int| 0 <= i < h.len() - 1 ==> !(#[trigger] h[i] == '-' && h[i + 1] == '-')
}

/// The CamelCase spelling of a hyphenated name: the hyphens left out, and a
/// capital for the first letter and for each letter after a hyphen.
pub open spec fn camel_cased(h: Seq<char>) -> Seq<char>
    decreases h.len(),
{
    if h.len() == 0 {
        h
    } else if h.len() == 1 {
        seq![upper(h[0])]
    } else if h[h.len() - 2] == '-' {
        camel_cased(h.subrange(0, h.len() - 2)).push(upper(h.last()))
    } else {
        camel_cased(h.drop_last()).push(h.last())
    }
}

/// The CamelCase spelling of a hyphenated name is in CamelCase, and its
/// hyphenated spelling is the name again.
pub proof fn lemma_camel_cased(h: Seq<char>)
    requires
        is_hyphenated(h),
    ensures
        is_camel_case(camel_cased(h)),
        hyphenated(camel_cased(h)) == h,
    decreases h.len(),
{
    let c = camel_cased(h);
    if h.len() == 1 {
        assert(c.drop_last() =~= Seq::<char>::empty());
        assert(hyphenated(c) =~= h);
    } else if h[h.len() - 2] == '-' {
        let p = h.subrange(0, h.len() - 2);
        assert(is_small(h[0]));
        assert(h.len() >= 3);
        assert(!(h[h.len() - 3] == '-' && h[h.len() - 3 + 1] == '-'));
        assert(is_small(h[h.len() - 3]) || h[h.len() - 3] == '-');
        assert(p.last() == h[h.len() - 3]);
        assert(p[0] == h[0]);
        assert forall|i: int| 0 <= i < p.len() implies is_small(#[trigger] p[i]) || p[i]
            == '-' by {
            assert(p[i] == h[i]);
        }
        assert forall|i: int| 0 <= i < p.len() - 1 implies !(#[trigger] p[i] == '-' && p[i + 1]
            == '-') by {
            assert(p[i] == h[i]);
            assert(p[i + 1] == h[i + 1]);
        }
        lemma_camel_cased(p);
        let cp = camel_cased(p);
        assert(c == cp.push(upper(h.last())));
        assert(c.drop_last() =~= cp);
        assert(c[0] == cp[0]);
        assert(is_small(h.last()));
        assert(hyphenated(c) =~= p.push('-').push(h.last()));
        assert(p.push('-').push(h.last()) =~= h);
        assert forall|i: int| 0 <= i < c.len() implies is_letter(#[trigger] c[i]) by {
            if i < cp.len() {
                assert(c[i] == cp[i]);
            }
        }
    } else {
        let p = h.drop_last();
        assert(is_small(h[h.len() - 2]) || h[h.len() - 2] == '-');
        assert(p.last() == h[h.len() - 2]);
        assert(p[0] == h[0]);
        assert forall|i: int| 0 <= i < p.len() implies is_small(#[trigger] p[i]) || p[i]
            == '-' by {
            assert(p[i] == h[i]);
        }
        assert forall|i: int| 0 <= i < p.len() - 1 implies !(#[trigger] p[i] == '-' && p[i + 1]
            == '-') by {
            assert(p[i] == h[i]);
            assert(p[i + 1] == h[i + 1]);
        }
        lemma_camel_cased(p);
        let cp = camel_cased(p);
        assert(c == cp.push(h.last()));
        assert(c.drop_last() =~= cp);
        assert(c[0] == cp[0]);
        assert(is_small(h.last()));
        assert(hyphenated(c) =~= p.push(h.last()));
        assert(p.push(h.last()) =~= h);
        assert forall|i: int| 0 <= i < c.len() implies is_letter(#[trigger] c[i]) by {
            if i < cp.len() {
                assert(c[i] == cp[i]);
            }
        }
    }
}

/// Both spellings of a name give the same color, the other way round: a
/// hyphenated name is a color exactly if its CamelCase spelling is one, and
/// then it is that color.
pub proof fn lemma_spellings_agree_back(h: Seq<char>)
    requires
        is_hyphenated(h),
    ensures
        named_color(h) is Ok <==> named_color(camel_cased(h)) is Ok,
        named_color(h) is Ok ==> named_color(h) == named_color(camel_cased(h)),
{
    lemma_camel_cased(h);
    assert(!is_camel_case(h));
}

/// A literal of hexadecimal digits alone, 3, 4, 6 or 8 of them, is the color
/// that its digits spell, channel for channel.
pub proof fn lemma_hex_literal_exact(s: Seq<char>)
    requires
        ({
            let n = encode_utf8(s).len();
            n == 3 || n == 4 || n == 6 || n == 8
        }),
        forall|i: int| 0 <= i < encode_utf8(s).len() ==> is_hex_digit(#[trigger] encode_utf8(s)[i]),
    ensures
        hex_color(s) == Ok::<ColorU, ColorError>(color_of_digits(encode_utf8(s))),
{
    lemma_hex_end_bounds(encode_utf8(s), 0);
}

/// The hexadecimal digit, a capital where it is a letter, of a value below
/// 16.
pub open spec fn hex_digit(v: int) -> char {
    if v < 10 {
        (0x30 + v) as char
    } else {
        (0x41 + v - 10) as char
    }
}

/// The two hexadecimal digits of a channel.
pub open spec fn channel_text(c: u8) -> Seq<char> {
    seq![hex_digit(c as int / 16), hex_digit(c as int % 16)]
}

/// The color as a literal: `#` and the eight hexadecimal digits of its four
/// channels.
pub open spec fn color_text(c: ColorU) -> Seq<char> {
    seq!['#'] + channel_text(c.r) + channel_text(c.g) + channel_text(c.b) + channel_text(c.a)
}

/// A color that is written out as a literal and read again is the same color.
pub proof fn lemma_color_text_round_trip(c: ColorU)
    ensures
        color_of(color_text(c)) == Ok::<ColorU, ColorError>(c),
{
    let s = color_text(c);
    let digits = s.subrange(1, s.len() as int);
    assert(s.len() == 9);
    assert(s[0] == '#');
    let d = encode_utf8(digits);
    assert(vstd::utf8::is_ascii_chars(digits)) by {
        assert forall|i: int| 0 <= i < digits.len() implies 0 <= (#[trigger] digits[i]) as nat
            <= 0x7f by {
            assert(digits[i] == s[i + 1]);
        }
    }
    vstd::utf8::is_ascii_chars_encode_utf8(digits);
    assert(d.len() == 8);
    assert forall|i: int| 0 <= i < 8 implies is_hex_digit(#[trigger] d[i]) by {
        assert(d[i] == digits[i] as u8);
        assert(digits[i] == s[i + 1]);
    }
    lemma_hex_end_bounds(d, 0);
    assert(hex_end(d, 0) == 8);
    lemma_channel_round_trip(c.r, d[0], d[1]);
    lemma_channel_round_trip(c.g, d[2], d[3]);
    lemma_channel_round_trip(c.b, d[4], d[5]);
    lemma_channel_round_trip(c.a, d[6], d[7]);
}

/// The two digits of a channel spell that channel.
proof fn lemma_channel_round_trip(c: u8, high: u8, low: u8)
    requires
        high == hex_digit(c as int / 16) as u8,
        low == hex_digit(c as int % 16) as u8,
    ensures
        channel(high, low) == c,
{
}

/// The value of a hexadecimal digit, if the byte is one.
fn from_hex(b: u8) -> (v: Option<u8>)
    ensures
        v is Some <==> is_hex_digit(b),
        v matches Some(x) ==> x == hex_value(b) && x < 16,
{
    if 0x30 <= b && b <= 0x39 {
        Some(b - 0x30)
    } else if 0x41 <= b && b <= 0x46 {
        Some(b - 0x41 + 10)
    } else if 0x61 <= b && b <= 0x66 {
        Some(b - 0x61 + 10)
    } else {
        None
    }
}

/// The channel that two hexadecimal digits spell.
fn channel_of(high: u8, low: u8) -> (c: u8)
    requires
        is_hex_digit(high),
        is_hex_digit(low),
    ensures
        c == channel(high, low),
{
    match (from_hex(high), from_hex(low)) {
        (Some(h), Some(l)) => h * 16 + l,
        _ => 0,
    }
}

/// A hexadecimal color without the `#`: 3, 4, 6 or 8 digits.
pub fn parse_color_no_hash<'a>(input: &'a str) -> (r: Result<ColorU, CssColorParseError<'a>>)
    ensures
        outcome(r) == hex_color(input@),
{
    let d = input.as_bytes();
    let n = d.len();
    if !(n == 3 || n == 4 || n == 6 || n == 8) {
        return Err(CssColorParseError::InvalidColor(input));
    }
    let mut i: usize = 0;
    while i < n
        invariant
            i <= n,
            n == d@.len(),
            n == 3 || n == 4 || n == 6 || n == 8,
            d@ == encode_utf8(input@),
            hex_end(d@, 0) == hex_end(d@, i as int),
        decreases n - i,
    {
        if from_hex(d[i]).is_none() {
            return Err(CssColorParseError::InvalidColorComponent(d[i]));
        }
        i += 1;
    }
    proof {
        lemma_hex_end_bounds(d@, 0);
    }
    if n == 3 {
        Ok(ColorU { r: channel_of(d[0], d[0]), g: channel_of(d[1], d[1]), b: channel_of(d[2], d[2]), a: 255 })
    } else if n == 4 {
        Ok(ColorU {
            r: channel_of(d[0], d[0]),
            g: channel_of(d[1], d[1]),
            b: channel_of(d[2], d[2]),
            a: channel_of(d[3], d[3]),
        })
    } else if n == 6 {
        Ok(ColorU { r: channel_of(d[0], d[1]), g: channel_of(d[2], d[3]), b: channel_of(d[4], d[5]), a: 255 })
    } else {
        Ok(ColorU {
            r: channel_of(d[0], d[1]),
            g: channel_of(d[2], d[3]),
            b: channel_of(d[4], d[5]),
            a: channel_of(d[6], d[7]),
        })
    }
}

/// The spelling under which the name `chars` is looked up.
fn key_of(chars: &Vec<char>) -> (key: Vec<char>)
    ensures
        key@ == color_key(chars@),
{
    let n = chars.len();
    let mut camel = n > 0 && 'A' <= chars[0] && chars[0] <= 'Z';
    let mut i: usize = 0;
    while camel && i < n
        invariant
            i <= n,
            n == chars.len(),
            camel ==> n > 0 && is_upper(chars@[0]),
            camel ==> forall|k: int| 0 <= k < i ==> is_letter(#[trigger] chars@[k]),
            !camel ==> !is_camel_case(chars@),
        decreases n - i + (if camel { 1int } else { 0int }),
    {
        let c = chars[i];
        if ('A' <= c && c <= 'Z') || ('a' <= c && c <= 'z') {
            i += 1;
        } else {
            camel = false;
        }
    }
    if !camel {
        return chars.clone();
    }
    let mut key: Vec<char> = Vec::new();
    let mut j: usize = 0;
    assert(chars@.take(0) =~= Seq::<char>::empty());
    while j < n
        invariant
            j <= n,
            n == chars.len(),
            key@ == hyphenated(chars@.take(j as int)),
        decreases n - j,
    {
        let c = chars[j];
        proof {
            let t = chars@.take(j + 1);
            assert(t.drop_last() =~= chars@.take(j as int));
            assert(t.last() == c);
        }
        if 'A' <= c && c <= 'Z' {
            if j > 0 {
                key.push('-');
            } else {
                assert(key@ =~= Seq::<char>::empty());
            }
            key.push(to_lower(c));
        } else {
            key.push(c);
        }
        j += 1;
    }
    assert(chars@.take(n as int) =~= chars@);
    key
}

/// The opaque color of the three channels, as an entry of the table.
fn entry(r: u8, g: u8, b: u8) -> (c: Option<ColorU>)
    ensures
        c == rgb(r, g, b),
{
    Some(ColorU { r, g, b, a: 255 })
}

/// The entry of the table of named colors under `key`.
fn lookup(key: &Vec<char>) -> (c: Option<ColorU>)
    ensures
        c == named(key@),
{
    if chars_are(key, "alice-blue") { entry(0xF0, 0xF8, 0xFF) }
    else if chars_are(key, "antique-white") { entry(0xFA, 0xEB, 0xD7) }
    else if chars_are(key, "aqua") { entry(0x00, 0xFF, 0xFF) }
    else if chars_are(key, "aquamarine") { entry(0x7F, 0xFF, 0xD4) }
    else if chars_are(key, "azure") { entry(0xF0, 0xFF, 0xFF) }
    else if chars_are(key, "beige") { entry(0xF5, 0xF5, 0xDC) }
    else if chars_are(key, "bisque") { entry(0xFF, 0xE4, 0xC4) }
    else if chars_are(key, "black") { entry(0x00, 0x00, 0x00) }
    else if chars_are(key, "blanched-almond") { entry(0xFF, 0xEB, 0xCD) }
    else if chars_are(key, "blue") { entry(0x00, 0x00, 0xFF) }
    else if chars_are(key, "blue-violet") { entry(0x8A, 0x2B, 0xE2) }
    else if chars_are(key, "brown") { entry(0xA5, 0x2A, 0x2A) }
    else if chars_are(key, "burly-wood") { entry(0xDE, 0xB8, 0x87) }
    else if chars_are(key, "cadet-blue") { entry(0x5F, 0x9E, 0xA0) }
    else if chars_are(key, "chartreuse") { entry(0x7F, 0xFF, 0x00) }
    else if chars_are(key, "chocolate") { entry(0xD2, 0x69, 0x1E) }
    else if chars_are(key, "coral") { entry(0xFF, 0x7F, 0x50) }
    else if chars_are(key, "cornflower-blue") { entry(0x64, 0x95, 0xED) }
    else if chars_are(key, "cornsilk") { entry(0xFF, 0xF8, 0xDC) }
    else if chars_are(key, "crimson") { entry(0xDC, 0x14, 0x3C) }
    else if chars_are(key, "cyan") { entry(0x00, 0xFF, 0xFF) }
    else if chars_are(key, "dark-blue") { entry(0x00, 0x00, 0x8B) }
    else if chars_are(key, "dark-cyan") { entry(0x00, 0x8B, 0x8B) }
    else if chars_are(key, "dark-golden-rod") { entry(0xB8, 0x86, 0x0B) }
    else if chars_are(key, "dark-gray") { entry(0xA9, 0xA9, 0xA9) }
    else if chars_are(key, "dark-grey") { entry(0xA9, 0xA9, 0xA9) }
    else if chars_are(key, "dark-green") { entry(0x00, 0x64, 0x00) }
    else if chars_are(key, "dark-khaki") { entry(0xBD, 0xB7, 0x6B) }
    else if chars_are(key, "dark-magenta") { entry(0x8B, 0x00, 0x8B) }
    else if chars_are(key, "dark-olive-green") { entry(0x55, 0x6B, 0x2F) }
    else if chars_are(key, "dark-orange") { entry(0xFF, 0x8C, 0x00) }
    else if chars_are(key, "dark-orchid") { entry(0x99, 0x32, 0xCC) }
    else if chars_are(key, "dark-red") { entry(0x8B, 0x00, 0x00) }
    else if chars_are(key, "dark-salmon") { entry(0xE9, 0x96, 0x7A) }
    else if chars_are(key, "dark-sea-green") { entry(0x8F, 0xBC, 0x8F) }
    else if chars_are(key, "dark-slate-blue") { entry(0x48, 0x3D, 0x8B) }
    else if chars_are(key, "dark-slate-gray") { entry(0x2F, 0x4F, 0x4F) }
    else if chars_are(key, "dark-slate-grey") { entry(0x2F, 0x4F, 0x4F) }
    else if chars_are(key, "dark-turquoise") { entry(0x00, 0xCE, 0xD1) }
    else if chars_are(key, "dark-violet") { entry(0x94, 0x00, 0xD3) }
    else if chars_are(key, "deep-pink") { entry(0xFF, 0x14, 0x93) }
    else if chars_are(key, "deep-sky-blue") { entry(0x00, 0xBF, 0xFF) }
    else if chars_are(key, "dim-gray") { entry(0x69, 0x69, 0x69) }
    else if chars_are(key, "dim-grey") { entry(0x69, 0x69, 0x69) }
    else if chars_are(key, "dodger-blue") { entry(0x1E, 0x90, 0xFF) }
    else if chars_are(key, "fire-brick") { entry(0xB2, 0x22, 0x22) }
    else if chars_are(key, "floral-white") { entry(0xFF, 0xFA, 0xF0) }
    else if chars_are(key, "forest-green") { entry(0x22, 0x8B, 0x22) }
    else if chars_are(key, "fuchsia") { entry(0xFF, 0x00, 0xFF) }
    else if chars_are(key, "gainsboro") { entry(0xDC, 0xDC, 0xDC) }
    else if chars_are(key, "ghost-white") { entry(0xF8, 0xF8, 0xFF) }
    else if chars_are(key, "gold") { entry(0xFF, 0xD7, 0x00) }
    else if chars_are(key, "golden-rod") { entry(0xDA, 0xA5, 0x20) }
    else if chars_are(key, "gray") { entry(0x80, 0x80, 0x80) }
    else if chars_are(key, "grey") { entry(0x80, 0x80, 0x80) }
    else if chars_are(key, "green") { entry(0x00, 0x80, 0x00) }
    else if chars_are(key, "green-yellow") { entry(0xAD, 0xFF, 0x2F) }
    else if chars_are(key, "honey-dew") { entry(0xF0, 0xFF, 0xF0) }
    else if chars_are(key, "hot-pink") { entry(0xFF, 0x69, 0xB4) }
    else if chars_are(key, "indian-red") { entry(0xCD, 0x5C, 0x5C) }
    else if chars_are(key, "indigo") { entry(0x4B, 0x00, 0x82) }
    else if chars_are(key, "ivory") { entry(0xFF, 0xFF, 0xF0) }
    else if chars_are(key, "khaki") { entry(0xF0, 0xE6, 0x8C) }
    else if chars_are(key, "lavender") { entry(0xE6, 0xE6, 0xFA) }
    else if chars_are(key, "lavender-blush") { entry(0xFF, 0xF0, 0xF5) }
    else if chars_are(key, "lawn-green") { entry(0x7C, 0xFC, 0x00) }
    else if chars_are(key, "lemon-chiffon") { entry(0xFF, 0xFA, 0xCD) }
    else if chars_are(key, "light-blue") { entry(0xAD, 0xD8, 0xE6) }
    else if chars_are(key, "light-coral") { entry(0xF0, 0x80, 0x80) }
    else if chars_are(key, "light-cyan") { entry(0xE0, 0xFF, 0xFF) }
    else if chars_are(key, "light-golden-rod-yellow") { entry(0xFA, 0xFA, 0xD2) }
    else if chars_are(key, "light-gray") { entry(0xD3, 0xD3, 0xD3) }
    else if chars_are(key, "light-grey") { entry(0xD3, 0xD3, 0xD3) }
    else if chars_are(key, "light-green") { entry(0x90, 0xEE, 0x90) }
    else if chars_are(key, "light-pink") { entry(0xFF, 0xB6, 0xC1) }
    else if chars_are(key, "light-salmon") { entry(0xFF, 0xA0, 0x7A) }
    else if chars_are(key, "light-sea-green") { entry(0x20, 0xB2, 0xAA) }
    else if chars_are(key, "light-sky-blue") { entry(0x87, 0xCE, 0xFA) }
    else if chars_are(key, "light-slate-gray") { entry(0x77, 0x88, 0x99) }
    else if chars_are(key, "light-slate-grey") { entry(0x77, 0x88, 0x99) }
    else if chars_are(key, "light-steel-blue") { entry(0xB0, 0xC4, 0xDE) }
    else if chars_are(key, "light-yellow") { entry(0xFF, 0xFF, 0xE0) }
    else if chars_are(key, "lime") { entry(0x00, 0xFF, 0x00) }
    else if chars_are(key, "lime-green") { entry(0x32, 0xCD, 0x32) }
    else if chars_are(key, "linen") { entry(0xFA, 0xF0, 0xE6) }
    else if chars_are(key, "magenta") { entry(0xFF, 0x00, 0xFF) }
    else if chars_are(key, "maroon") { entry(0x80, 0x00, 0x00) }
    else if chars_are(key, "medium-aqua-marine") { entry(0x66, 0xCD, 0xAA) }
    else if chars_are(key, "medium-blue") { entry(0x00, 0x00, 0xCD) }
    else if chars_are(key, "medium-orchid") { entry(0xBA, 0x55, 0xD3) }
    else if chars_are(key, "medium-purple") { entry(0x93, 0x70, 0xDB) }
    else if chars_are(key, "medium-sea-green") { entry(0x3C, 0xB3, 0x71) }
    else if chars_are(key, "medium-slate-blue") { entry(0x7B, 0x68, 0xEE) }
    else if chars_are(key, "medium-spring-green") { entry(0x00, 0xFA, 0x9A) }
    else if chars_are(key, "medium-turquoise") { entry(0x48, 0xD1, 0xCC) }
    else if chars_are(key, "medium-violet-red") { entry(0xC7, 0x15, 0x85) }
    else if chars_are(key, "midnight-blue") { entry(0x19, 0x19, 0x70) }
    else if chars_are(key, "mint-cream") { entry(0xF5, 0xFF, 0xFA) }
    else if chars_are(key, "misty-rose") { entry(0xFF, 0xE4, 0xE1) }
    else if chars_are(key, "moccasin") { entry(0xFF, 0xE4, 0xB5) }
    else if chars_are(key, "navajo-white") { entry(0xFF, 0xDE, 0xAD) }
    else if chars_are(key, "navy") { entry(0x00, 0x00, 0x80) }
    else if chars_are(key, "old-lace") { entry(0xFD, 0xF5, 0xE6) }
    else if chars_are(key, "olive") { entry(0x80, 0x80, 0x00) }
    else if chars_are(key, "olive-drab") { entry(0x6B, 0x8E, 0x23) }
    else if chars_are(key, "orange") { entry(0xFF, 0xA5, 0x00) }
    else if chars_are(key, "orange-red") { entry(0xFF, 0x45, 0x00) }
    else if chars_are(key, "orchid") { entry(0xDA, 0x70, 0xD6) }
    else if chars_are(key, "pale-golden-rod") { entry(0xEE, 0xE8, 0xAA) }
    else if chars_are(key, "pale-green") { entry(0x98, 0xFB, 0x98) }
    else if chars_are(key, "pale-turquoise") { entry(0xAF, 0xEE, 0xEE) }
    else if chars_are(key, "pale-violet-red") { entry(0xDB, 0x70, 0x93) }
    else if chars_are(key, "papaya-whip") { entry(0xFF, 0xEF, 0xD5) }
    else if chars_are(key, "peach-puff") { entry(0xFF, 0xDA, 0xB9) }
    else if chars_are(key, "peru") { entry(0xCD, 0x85, 0x3F) }
    else if chars_are(key, "pink") { entry(0xFF, 0xC0, 0xCB) }
    else if chars_are(key, "plum") { entry(0xDD, 0xA0, 0xDD) }
    else if chars_are(key, "powder-blue") { entry(0xB0, 0xE0, 0xE6) }
    else if chars_are(key, "purple") { entry(0x80, 0x00, 0x80) }
    else if chars_are(key, "rebecca-purple") { entry(0x66, 0x33, 0x99) }
    else if chars_are(key, "red") { entry(0xFF, 0x00, 0x00) }
    else if chars_are(key, "rosy-brown") { entry(0xBC, 0x8F, 0x8F) }
    else if chars_are(key, "royal-blue") { entry(0x41, 0x69, 0xE1) }
    else if chars_are(key, "saddle-brown") { entry(0x8B, 0x45, 0x13) }
    else if chars_are(key, "salmon") { entry(0xFA, 0x80, 0x72) }
    else if chars_are(key, "sandy-brown") { entry(0xF4, 0xA4, 0x60) }
    else if chars_are(key, "sea-green") { entry(0x2E, 0x8B, 0x57) }
    else if chars_are(key, "sea-shell") { entry(0xFF, 0xF5, 0xEE) }
    else if chars_are(key, "sienna") { entry(0xA0, 0x52, 0x2D) }
    else if chars_are(key, "silver") { entry(0xC0, 0xC0, 0xC0) }
    else if chars_are(key, "sky-blue") { entry(0x87, 0xCE, 0xEB) }
    else if chars_are(key, "slate-blue") { entry(0x6A, 0x5A, 0xCD) }
    else if chars_are(key, "slate-gray") { entry(0x70, 0x80, 0x90) }
    else if chars_are(key, "slate-grey") { entry(0x70, 0x80, 0x90) }
    else if chars_are(key, "snow") { entry(0xFF, 0xFA, 0xFA) }
    else if chars_are(key, "spring-green") { entry(0x00, 0xFF, 0x7F) }
    else if chars_are(key, "steel-blue") { entry(0x46, 0x82, 0xB4) }
    else if chars_are(key, "tan") { entry(0xD2, 0xB4, 0x8C) }
    else if chars_are(key, "teal") { entry(0x00, 0x80, 0x80) }
    else if chars_are(key, "thistle") { entry(0xD8, 0xBF, 0xD8) }
    else if chars_are(key, "tomato") { entry(0xFF, 0x63, 0x47) }
    else if chars_are(key, "turquoise") { entry(0x40, 0xE0, 0xD0) }
    else if chars_are(key, "violet") { entry(0xEE, 0x82, 0xEE) }
    else if chars_are(key, "wheat") { entry(0xF5, 0xDE, 0xB3) }
    else if chars_are(key, "white") { entry(0xFF, 0xFF, 0xFF) }
    else if chars_are(key, "white-smoke") { entry(0xF5, 0xF5, 0xF5) }
    else if chars_are(key, "yellow") { entry(0xFF, 0xFF, 0x00) }
    else if chars_are(key, "yellow-green") { entry(0x9A, 0xCD, 0x32) }
    else if chars_are(key, "transparent") { Some(ColorU { r: 0xFF, g: 0xFF, b: 0xFF, a: 0xFF }) }
    else { None }
}

/// A named color, such as `red`, `alice-blue` or `AliceBlue`.
pub fn parse_color_builtin<'a>(input: &'a str) -> (r: Result<ColorU, CssColorParseError<'a>>)
    ensures
        outcome(r) == named_color(input@),
{
    let chars = to_chars(input);
    let key = key_of(&chars);
    match lookup(&key) {
        Some(c) => Ok(c),
        None => Err(CssColorParseError::InvalidColor(input)),
    }
}

/// A color: a hexadecimal literal with its `#`, or a named color.
pub fn parse_css_color<'a>(input: &'a str) -> (r: Result<ColorU, CssColorParseError<'a>>)
    ensures
        outcome(r) == color_of(input@),
{
    let chars = to_chars(input);
    let n = chars.len();
    if n > 0 && chars[0] == '#' {
        parse_color_no_hash(input.substring_char(1, n))
    } else {
        parse_color_builtin(input)
    }
}

} // verus!
