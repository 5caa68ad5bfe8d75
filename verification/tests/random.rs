use css_parser::number::Number;
use css_parser::text::{split_char, split_whitespace, strip_suffix};

struct Lcg(u64);

impl Lcg {
    fn next(&mut self) -> u64 {
        self.0 = self.0.wrapping_mul(6364136223846793005).wrapping_add(1442695040888963407);
        self.0 >> 33
    }

    fn text(&mut self, alphabet: &[char], longest: u64) -> String {
        let len = self.next() % (longest + 1);
        (0..len).map(|_| alphabet[(self.next() % alphabet.len() as u64) as usize]).collect()
    }
}

#[test]
fn numerals_are_what_parses_as_a_float() {
    let alphabet = [
        '0', '1', '9', '.', '+', '-', 'e', 'E', 'i', 'n', 'f', 'a', 't', 'y', 'I', 'N', 'F', 'A',
        ' ', 'x',
    ];
    let mut random = Lcg(1);
    let mut accepted = 0;
    for _ in 0..200_000 {
        let text = random.text(&alphabet, 6);
        let parsed = text.parse::<f32>();
        assert_eq!(Number::new(&text).is_some(), parsed.is_ok(), "{:?}", text);
        assert_eq!(parsed.is_ok(), text.parse::<f64>().is_ok(), "{:?}", text);
        if parsed.is_ok() {
            accepted += 1;
        }
    }
    assert!(accepted > 1000);
    for word in ["infinity", "INFINITY", "Infinity", "+infinity", "-iNfInItY", "infinit", "infinityy"] {
        assert_eq!(Number::new(word).is_some(), word.parse::<f32>().is_ok(), "{:?}", word);
    }
}

#[test]
fn splitting_is_what_the_standard_library_does() {
    let alphabet = ['a', 'b', ',', ' ', '\t', '\n', '\u{a0}', '\u{3000}', '\u{e9}', '\u{20ac}', '%', '('];
    let mut random = Lcg(2);
    for _ in 0..20_000 {
        let text = random.text(&alphabet, 12);
        let words: Vec<&str> = text.split_whitespace().collect();
        assert_eq!(split_whitespace(&text), words, "{:?}", text);
        let fields: Vec<&str> = text.split(',').collect();
        assert_eq!(split_char(&text, ','), fields, "{:?}", text);
        for suffix in ["%", "a", "ab", "\u{e9}", " ", ""] {
            assert_eq!(strip_suffix(&text, suffix), text.strip_suffix(suffix), "{:?} {:?}", text, suffix);
        }
    }
}
