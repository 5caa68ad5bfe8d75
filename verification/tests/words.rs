use css_parser::text::{
    char_is_digit, char_is_whitespace, chars_are, find_char, find_last_char, split_char,
    split_whitespace, str_eq, strip_suffix, to_chars,
};

#[test]
fn white_space_is_what_the_standard_library_says() {
    for code in 0..=0x10FFFFu32 {
        if let Some(c) = char::from_u32(code) {
            assert_eq!(char_is_whitespace(c), c.is_whitespace(), "{:x}", code);
            assert_eq!(char_is_digit(c), c.is_ascii_digit(), "{:x}", code);
        }
    }
}

#[test]
fn words_are_what_the_standard_library_says() {
    for text in [
        "",
        " ",
        "a",
        " a",
        "a ",
        "a b",
        "  5px \t 10px\n#888888   inset ",
        "a\u{a0}b\u{2003}c\u{3000}d\u{85}e\u{1680}f\u{2028}g\u{2029}h\u{202f}i\u{205f}j",
        "a\u{200b}b\u{feff}c",
        "\u{e9}t\u{e9} \u{20ac}",
        "\r\n\u{b}\u{c}x",
    ] {
        let expected: Vec<&str> = text.split_whitespace().collect();
        assert_eq!(split_whitespace(text), expected, "{:?}", text);
    }
}

#[test]
fn fields_are_what_the_standard_library_says() {
    for text in ["", ",", "a", "a,b", ",a", "a,", "a,,b", " red , blue 5% ", ",,,", "\u{e9},\u{20ac}"] {
        let expected: Vec<&str> = text.split(',').collect();
        assert_eq!(split_char(text, ','), expected, "{:?}", text);
    }
}

#[test]
fn characters_of_a_string() {
    assert_eq!(to_chars(""), Vec::<char>::new());
    assert_eq!(to_chars("a\u{e9}\u{20ac}"), vec!['a', '\u{e9}', '\u{20ac}']);
}

#[test]
fn strings_are_compared_by_their_characters() {
    assert!(str_eq("", ""));
    assert!(str_eq("inset", "inset"));
    assert!(!str_eq("inset", "inse"));
    assert!(!str_eq("inse", "inset"));
    assert!(!str_eq("inset", "insex"));
    assert!(!str_eq("Inset", "inset"));
    assert!(chars_are(&vec!['p', 'x'], "px"));
    assert!(!chars_are(&vec!['p', 'x'], "em"));
    assert!(!chars_are(&vec![], "em"));
}

#[test]
fn finding_characters() {
    let chars = to_chars("a(b(c)d)e");
    assert_eq!(find_char(&chars, '(', 0), 1);
    assert_eq!(find_char(&chars, '(', 2), 3);
    assert_eq!(find_char(&chars, '(', 4), 9);
    assert_eq!(find_char(&chars, 'x', 0), 9);
    assert_eq!(find_char(&chars, 'a', 9), 9);
    assert_eq!(find_last_char(&chars, ')'), Some(7));
    assert_eq!(find_last_char(&chars, 'a'), Some(0));
    assert_eq!(find_last_char(&chars, 'x'), None);
    assert_eq!(find_last_char(&Vec::new(), 'x'), None);
}

#[test]
fn stripping_a_suffix() {
    assert_eq!(strip_suffix("50deg", "deg"), Some("50"));
    assert_eq!(strip_suffix("deg", "deg"), Some(""));
    assert_eq!(strip_suffix("eg", "deg"), None);
    assert_eq!(strip_suffix("50deg ", "deg"), None);
    assert_eq!(strip_suffix("50%", "%"), Some("50"));
    assert_eq!(strip_suffix("\u{20ac}%", "%"), Some("\u{20ac}"));
    assert_eq!(strip_suffix("abc", ""), Some("abc"));
}
