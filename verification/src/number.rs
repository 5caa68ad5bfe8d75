//! Numerals.
//!
//! The library never rounds a number. A number that a value holds is kept as
//! the numeral that was written, a slice of the input, once it is known to be
//! well formed. Whoever needs a machine number converts the numeral in the
//! precision they want.
//!
//! A numeral is well formed if it follows this grammar, letters in either
//! case:
//!
//! ```text
//! Float  ::= Sign? ( 'inf' | 'infinity' | 'nan' | Number )
//! Number ::= ( Digit+ | Digit+ '.' Digit* | Digit* '.' Digit+ ) Exp?
//! Exp    ::= 'e' Sign? Digit+
//! Sign   ::= [+-]
//! Digit  ::= [0-9]
//! ```

use vstd::prelude::*;
use crate::text::{is_digit, char_is_digit, to_chars};

verus! {

/// The first index at or after `i` that does not hold a digit, or the length
/// of `s`.
pub open spec fn digits_end(s: Seq<char>, i: int) -> int
    decreases s.len() - i,
{
    if i < 0 || i >= s.len() || !is_digit(s[i]) {
        i
    } else {
        digits_end(s, i + 1)
    }
}

/// An ASCII letter in lower case; any other character unchanged.
pub open spec fn lower(c: char) -> char {
    if 'A' <= c <= 'Z' {
        ((c as u8) + 32) as char
    } else {
        c
    }
}

/// 1 if `s` holds a sign at index `i`, else 0.
pub open spec fn sign_len(s: Seq<char>, i: int) -> int {
    if 0 <= i < s.len() && (s[i] == '+' || s[i] == '-') {
        1
    } else {
        0
    }
}

/// Whether `s` from index `i` on spells `word`, which is in lower case,
/// letters compared without regard to case.
pub open spec fn spells_from(s: Seq<char>, i: int, word: Seq<char>) -> bool {
    &&& 0 <= i
    &&& s.len() - i == word.len()
    &&& forall|k: int| 0 <= k < word.len() ==> lower(#[trigger] s[i + k]) == word[k]
}

/// Whether `s` from index `i` on is one of the words for infinity or the word
/// for "not a number".
pub open spec fn is_special_from(s: Seq<char>, i: int) -> bool {
    ||| spells_from(s, i, seq!['i', 'n', 'f'])
    ||| spells_from(s, i, seq!['n', 'a', 'n'])
    ||| spells_from(s, i, seq!['i', 'n', 'f', 'i', 'n', 'i', 't', 'y'])
}

/// Whether `s` from index `i` on is an exponent: the letter `e`, an optional
/// sign, and one digit or more up to the end.
pub open spec fn is_exponent_from(s: Seq<char>, i: int) -> bool {
    &&& 0 <= i < s.len()
    &&& (s[i] == 'e' || s[i] == 'E')
    &&& i + 1 + sign_len(s, i + 1) < s.len()
    &&& digits_end(s, i + 1 + sign_len(s, i + 1)) == s.len()
}

/// Where the digits before the point end, for a number that starts at `i`.
pub open spec fn integer_end(s: Seq<char>, i: int) -> int {
    digits_end(s, i)
}

/// Where the digits after the point end, for a number that starts at `i`; the
/// same as `integer_end` if there is no point.
pub open spec fn fraction_end(s: Seq<char>, i: int) -> int {
    let a = integer_end(s, i);
    if 0 <= a < s.len() && s[a] == '.' {
        digits_end(s, a + 1)
    } else {
        a
    }
}

/// How many digits the number that starts at `i` has, before and after the
/// point.
pub open spec fn digit_count(s: Seq<char>, i: int) -> int {
    let a = integer_end(s, i);
    let b = fraction_end(s, i);
    if b > a {
        (a - i) + (b - a - 1)
    } else {
        a - i
    }
}

/// Whether `s` from index `i` on is a number without sign: digits with at
/// most one point among them, at least one digit, and an optional exponent.
pub open spec fn is_number_from(s: Seq<char>, i: int) -> bool {
    &&& 0 <= i <= s.len()
    &&& digit_count(s, i) > 0
    &&& (fraction_end(s, i) == s.len() || is_exponent_from(s, fraction_end(s, i)))
}

/// Whether `s` is a well-formed numeral.
pub open spec fn is_float_literal(s: Seq<char>) -> bool {
    is_special_from(s, sign_len(s, 0)) || is_number_from(s, sign_len(s, 0))
}

/// The digits of a run are digits, and the run ends at what is no digit or
/// at the end of the text.
pub proof fn lemma_digits_end_bounds(s: Seq<char>, i: int)
    requires
        0 <= i <= s.len(),
    ensures
        i <= digits_end(s, i) <= s.len(),
        digits_end(s, i) < s.len() ==> !is_digit(s[digits_end(s, i)]),
        forall|k: int| i <= k < digits_end(s, i) ==> is_digit(#[trigger] s[k]),
    decreases s.len() - i,
{
    if i < s.len() && is_digit(s[i]) {
        lemma_digits_end_bounds(s, i + 1);
    }
}

/// Whether `c` can stand in a numeral: a digit, a point, a sign, or one of
/// the letters of the exponent and of the words, in either case.
pub open spec fn is_numeral_char(c: char) -> bool {
    ||| is_digit(c)
    ||| c == '.'
    ||| c == '+'
    ||| c == '-'
    ||| c == 'e' || c == 'E'
    ||| c == 'i' || c == 'I'
    ||| c == 'n' || c == 'N'
    ||| c == 'f' || c == 'F'
    ||| c == 't' || c == 'T'
    ||| c == 'y' || c == 'Y'
    ||| c == 'a' || c == 'A'
}

/// A well-formed numeral is not empty, and every character of it can stand
/// in a numeral.
pub proof fn lemma_float_literal_chars(s: Seq<char>)
    requires
        is_float_literal(s),
    ensures
        s.len() > 0,
        forall|i: int| 0 <= i < s.len() ==> is_numeral_char(#[trigger] s[i]),
{
    let start = sign_len(s, 0);
    if is_special_from(s, start) {
        assert forall|i: int| 0 <= i < s.len() implies is_numeral_char(#[trigger] s[i]) by {
            if i >= start {
                let k = i - start;
                assert(s[start + k] == s[i]);
                lemma_lower_letter(s[i]);
            }
        }
    } else {
        let a = integer_end(s, start);
        lemma_digits_end_bounds(s, start);
        let b = fraction_end(s, start);
        if a < s.len() && s[a] == '.' {
            lemma_digits_end_bounds(s, a + 1);
        }
        if b < s.len() {
            let j = b + 1 + sign_len(s, b + 1);
            lemma_digits_end_bounds(s, j);
        }
        assert forall|i: int| 0 <= i < s.len() implies is_numeral_char(#[trigger] s[i]) by {
            if i < start {
            } else if i < a {
            } else if i < b {
            } else if i == b {
            } else if i < b + 1 + sign_len(s, b + 1) {
            } else {
            }
        }
    }
}

/// Which characters become the letters of the exponent and of the words
/// in lower case.
proof fn lemma_lower_letter(c: char)
    ensures
        lower(c) == 'e' ==> c == 'e' || c == 'E',
        lower(c) == 'i' ==> c == 'i' || c == 'I',
        lower(c) == 'n' ==> c == 'n' || c == 'N',
        lower(c) == 'f' ==> c == 'f' || c == 'F',
        lower(c) == 't' ==> c == 't' || c == 'T',
        lower(c) == 'y' ==> c == 'y' || c == 'Y',
        lower(c) == 'a' ==> c == 'a' || c == 'A',
{
}

/// A well-formed numeral, as it was written.
#[derive(Clone, Copy, Debug, PartialEq, Eq)]
pub struct Number<'a> {
    text: &'a str,
}

impl<'a> View for Number<'a> {
    type V = Seq<char>;

    /// The characters of the numeral.
    closed spec fn view(&self) -> Seq<char> {
        self.text@
    }
}

impl<'a> Number<'a> {
    /// Every numeral follows the grammar.
    #[verifier::type_invariant]
    closed spec fn well_formed(self) -> bool {
        is_float_literal(self.text@)
    }

    /// The numeral `text`, if it is well formed.
    pub fn new(text: &'a str) -> (r: Option<Number<'a>>)
        ensures
            r is Some <==> is_float_literal(text@),
            r matches Some(n) ==> n@ == text@,
    {
        let chars = to_chars(text);
        if is_float(&chars) {
            Some(Number { text })
        } else {
            None
        }
    }

    /// The numeral 0.
    pub fn zero() -> (r: Number<'static>)
        ensures
            r@ == seq!['0'],
    {
        proof {
            reveal_strlit("0");
            lemma_is_float_one_digit("0"@);
        }
        Number { text: "0" }
    }

    /// The numeral 1.
    pub fn one() -> (r: Number<'static>)
        ensures
            r@ == seq!['1'],
    {
        proof {
            reveal_strlit("1");
            lemma_is_float_one_digit("1"@);
        }
        Number { text: "1" }
    }

    /// The numeral as it was written.
    pub fn as_str(&self) -> (r: &'a str)
        ensures
            r@ == self@,
            is_float_literal(r@),
    {
        proof {
            use_type_invariant(self);
        }
        self.text
    }
}

/// A single digit is a well-formed numeral.
proof fn lemma_is_float_one_digit(s: Seq<char>)
    requires
        s.len() == 1,
        is_digit(s[0]),
    ensures
        is_float_literal(s),
{
    reveal_with_fuel(digits_end, 3);
    assert(digits_end(s, 0) == 1);
}

/// An ASCII letter in lower case; any other character unchanged.
pub fn to_lower(c: char) -> (l: char)
    ensures
        l == lower(c),
{
    if 'A' <= c && c <= 'Z' {
        let b: u8 = c as u8;
        (b + 32) as char
    } else {
        c
    }
}

/// The first index at or after `from` that does not hold a digit; `from`
/// itself if it lies beyond the characters.
pub fn scan_digits(chars: &Vec<char>, from: usize) -> (end: usize)
    ensures
        end == digits_end(chars@, from as int),
        from <= end,
        from <= chars.len() ==> end <= chars.len(),
{
    let mut i: usize = from;
    while i < chars.len() && char_is_digit(chars[i])
        invariant
            from <= i,
            from <= chars.len() ==> i <= chars.len(),
            digits_end(chars@, from as int) == digits_end(chars@, i as int),
        decreases chars.len() - i,
    {
        i += 1;
    }
    i
}

/// Whether `chars` from index `from` on spells `word`, letters compared
/// without regard to case.
fn spells(chars: &Vec<char>, from: usize, word: &Vec<char>) -> (b: bool)
    requires
        from <= chars.len(),
    ensures
        b == spells_from(chars@, from as int, word@),
{
    if chars.len() - from != word.len() {
        return false;
    }
    let mut k: usize = 0;
    while k < word.len()
        invariant
            from <= chars.len(),
            chars.len() - from == word.len(),
            k <= word.len(),
            forall|j: int| 0 <= j < k ==> lower(#[trigger] chars@[from + j]) == word@[j],
        decreases word.len() - k,
    {
        if to_lower(chars[from + k]) != word[k] {
            return false;
        }
        k += 1;
    }
    true
}

/// Whether `chars` from index `from` on is one of the words for infinity or
/// the word for "not a number".
fn is_special(chars: &Vec<char>, from: usize) -> (b: bool)
    requires
        from <= chars.len(),
    ensures
        b == is_special_from(chars@, from as int),
{
    let inf: Vec<char> = vec!['i', 'n', 'f'];
    let nan: Vec<char> = vec!['n', 'a', 'n'];
    let infinity: Vec<char> = vec!['i', 'n', 'f', 'i', 'n', 'i', 't', 'y'];
    assert(inf@ =~= seq!['i', 'n', 'f']);
    assert(nan@ =~= seq!['n', 'a', 'n']);
    assert(infinity@ =~= seq!['i', 'n', 'f', 'i', 'n', 'i', 't', 'y']);
    spells(chars, from, &inf) || spells(chars, from, &nan) || spells(chars, from, &infinity)
}

/// Whether `chars` from index `from` on is an exponent.
fn is_exponent(chars: &Vec<char>, from: usize) -> (b: bool)
    requires
        from <= chars.len(),
    ensures
        b == is_exponent_from(chars@, from as int),
{
    let n = chars.len();
    if from >= n || (chars[from] != 'e' && chars[from] != 'E') {
        return false;
    }
    let mut j: usize = from + 1;
    if j < n && (chars[j] == '+' || chars[j] == '-') {
        j += 1;
    }
    if j >= n {
        return false;
    }
    scan_digits(chars, j) == n
}

/// Whether `chars` is a well-formed numeral.
pub fn is_float(chars: &Vec<char>) -> (b: bool)
    ensures
        b == is_float_literal(chars@),
{
    let n = chars.len();
    let start: usize = if n > 0 && (chars[0] == '+' || chars[0] == '-') {
        1
    } else {
        0
    };
    if is_special(chars, start) {
        return true;
    }
    let a = scan_digits(chars, start);
    let b = if a < n && chars[a] == '.' {
        scan_digits(chars, a + 1)
    } else {
        a
    };
    let count: usize = if b > a {
        (a - start) + (b - a - 1)
    } else {
        a - start
    };
    if count == 0 {
        return false;
    }
    b == n || is_exponent(chars, b)
}

} // verus!
