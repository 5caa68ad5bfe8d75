//! Characters, words and fields: the lexical layer under every parser.
//!
//! A property value is read as a sequence of characters. Words are its maximal
//! runs of characters that are not whitespace; fields are what lies between
//! the occurrences of a separator character.

use vstd::prelude::*;

verus! {

/// Whether `c` is white space: one of the characters that carry the Unicode
/// property `White_Space`.
pub open spec fn is_whitespace(c: char) -> bool {
    let u = c as u32;
    ||| 0x09 <= u <= 0x0D
    ||| u == 0x20
    ||| u == 0x85
    ||| u == 0xA0
    ||| u == 0x1680
    ||| 0x2000 <= u <= 0x200A
    ||| u == 0x2028
    ||| u == 0x2029
    ||| u == 0x202F
    ||| u == 0x205F
    ||| u == 0x3000
}

/// Whether `c` is an ASCII decimal digit.
pub open spec fn is_digit(c: char) -> bool {
    '0' <= c <= '9'
}

/// The first index at or after `i` that holds white space, or the length of
/// `s` if there is none: where the word that covers `i` ends.
pub open spec fn word_end(s: Seq<char>, i: int) -> int
    decreases s.len() - i,
{
    if i < 0 || i >= s.len() || is_whitespace(s[i]) {
        i
    } else {
        word_end(s, i + 1)
    }
}

/// The words of `s` that start at or after `i`.
pub open spec fn words_from(s: Seq<char>, i: int) -> Seq<Seq<char>>
    decreases s.len() - i,
{
    if i < 0 || i >= s.len() {
        Seq::empty()
    } else if is_whitespace(s[i]) {
        words_from(s, i + 1)
    } else {
        proof {
            lemma_word_end_bounds(s, i);
        }
        seq![s.subrange(i, word_end(s, i))] + words_from(s, word_end(s, i))
    }
}

/// The words of `s`: its maximal runs of characters that are not white space,
/// in order.
pub open spec fn words(s: Seq<char>) -> Seq<Seq<char>> {
    words_from(s, 0)
}

/// The first index at or after `i` that holds `c`, or the length of `s` if
/// there is none.
pub open spec fn find_from(s: Seq<char>, c: char, i: int) -> int
    decreases s.len() - i,
{
    if i < 0 || i >= s.len() || s[i] == c {
        i
    } else {
        find_from(s, c, i + 1)
    }
}

/// The last index below `i` that holds `c`, or -1 if there is none.
pub open spec fn find_last_below(s: Seq<char>, c: char, i: int) -> int
    decreases i,
{
    if i <= 0 || i > s.len() {
        -1
    } else if s[i - 1] == c {
        i - 1
    } else {
        find_last_below(s, c, i - 1)
    }
}

/// The fields of `s` from index `i` on, separated by `c`.
pub open spec fn fields_from(s: Seq<char>, c: char, i: int) -> Seq<Seq<char>>
    decreases s.len() - i,
{
    if i < 0 || i > s.len() {
        Seq::empty()
    } else if find_from(s, c, i) >= s.len() {
        seq![s.subrange(i, s.len() as int)]
    } else {
        proof {
            lemma_find_from_bounds(s, c, i);
        }
        seq![s.subrange(i, find_from(s, c, i))] + fields_from(s, c, find_from(s, c, i) + 1)
    }
}

/// The fields of `s` separated by `c`. There is always at least one; a field
/// is empty where two separators meet or where `s` starts or ends with one.
pub open spec fn fields(s: Seq<char>, c: char) -> Seq<Seq<char>> {
    fields_from(s, c, 0)
}

/// Whether `s` ends with `suffix`.
pub open spec fn ends_with(s: Seq<char>, suffix: Seq<char>) -> bool {
    s.len() >= suffix.len() && s.subrange(s.len() - suffix.len(), s.len() as int) == suffix
}

/// What stands before the last `suffix.len()` characters of `s`.
pub open spec fn without_suffix(s: Seq<char>, suffix: Seq<char>) -> Seq<char> {
    s.subrange(0, s.len() - suffix.len())
}

/// The character sequences of a sequence of string slices.
pub open spec fn texts(v: Seq<&str>) -> Seq<Seq<char>> {
    v.map_values(|t: &str| t@)
}

/// A word ends at or after where it is entered, at white space or at the end
/// of the text, and holds no white space.
pub proof fn lemma_word_end_bounds(s: Seq<char>, i: int)
    requires
        0 <= i <= s.len(),
    ensures
        i <= word_end(s, i) <= s.len(),
        i < s.len() && !is_whitespace(s[i]) ==> i < word_end(s, i),
        word_end(s, i) < s.len() ==> is_whitespace(s[word_end(s, i)]),
        forall|k: int| i <= k < word_end(s, i) ==> !is_whitespace(#[trigger] s[k]),
    decreases s.len() - i,
{
    if i < s.len() && !is_whitespace(s[i]) {
        lemma_word_end_bounds(s, i + 1);
    }
}

/// A character is found at or after where the search starts, and not before
/// where it is found.
pub proof fn lemma_find_from_bounds(s: Seq<char>, c: char, i: int)
    requires
        0 <= i <= s.len(),
    ensures
        i <= find_from(s, c, i) <= s.len(),
        find_from(s, c, i) < s.len() ==> s[find_from(s, c, i)] == c,
        forall|k: int| i <= k < find_from(s, c, i) ==> #[trigger] s[k] != c,
    decreases s.len() - i,
{
    if i < s.len() && s[i] != c {
        lemma_find_from_bounds(s, c, i + 1);
    }
}

/// Where a character is last found, it stands, and below the end of the
/// search.
pub proof fn lemma_find_last_below(s: Seq<char>, c: char, i: int)
    requires
        0 <= i <= s.len(),
    ensures
        -1 <= find_last_below(s, c, i) < i,
        find_last_below(s, c, i) >= 0 ==> s[find_last_below(s, c, i)] == c,
        forall|k: int| find_last_below(s, c, i) < k < i ==> #[trigger] s[k] != c,
    decreases i,
{
    if i > 0 && s[i - 1] != c {
        lemma_find_last_below(s, c, i - 1);
    }
}

/// The texts `parts` in a row, with `sep` between each two of them.
pub open spec fn joined(parts: Seq<Seq<char>>, sep: char) -> Seq<char>
    decreases parts.len(),
{
    if parts.len() == 0 {
        Seq::empty()
    } else if parts.len() == 1 {
        parts[0]
    } else {
        parts[0] + seq![sep] + joined(parts.drop_first(), sep)
    }
}

/// Whether `t` can be a word: it is not empty and holds no white space.
pub open spec fn is_word(t: Seq<char>) -> bool {
    t.len() > 0 && forall|i: int| 0 <= i < t.len() ==> !is_whitespace(#[trigger] t[i])
}

/// Whether `t` is free of the character `c`.
pub open spec fn free_of(t: Seq<char>, c: char) -> bool {
    forall|i: int| 0 <= i < t.len() ==> #[trigger] t[i] != c
}

/// What follows a prefix of a text has the words that it has by itself.
pub proof fn lemma_words_after_prefix(a: Seq<char>, b: Seq<char>, j: int)
    requires
        0 <= j <= b.len(),
    ensures
        word_end(a + b, a.len() + j) == a.len() + word_end(b, j),
        words_from(a + b, a.len() + j) == words_from(b, j),
    decreases b.len() - j,
{
    let s = a + b;
    if j < b.len() {
        assert(s[a.len() + j] == b[j]);
        lemma_word_end_bounds(b, j);
        if is_whitespace(b[j]) {
            lemma_words_after_prefix(a, b, j + 1);
        } else {
            lemma_word_end_after_prefix(a, b, j);
            let e = word_end(b, j);
            lemma_words_after_prefix(a, b, e);
            assert(s.subrange(a.len() + j, a.len() + e) =~= b.subrange(j, e));
        }
    }
}

/// What follows a prefix of a text has its words end where they end by
/// themselves.
proof fn lemma_word_end_after_prefix(a: Seq<char>, b: Seq<char>, j: int)
    requires
        0 <= j <= b.len(),
    ensures
        word_end(a + b, a.len() + j) == a.len() + word_end(b, j),
    decreases b.len() - j,
{
    let s = a + b;
    if j < b.len() {
        assert(s[a.len() + j] == b[j]);
        if !is_whitespace(b[j]) {
            lemma_word_end_after_prefix(a, b, j + 1);
        }
    }
}

/// A word ends where it is over: at white space, or at the end of the text.
pub proof fn lemma_word_end_of_word(t: Seq<char>, rest: Seq<char>, i: int)
    requires
        is_word(t),
        rest.len() == 0 || is_whitespace(rest[0]),
        0 <= i <= t.len(),
    ensures
        word_end(t + rest, i) == t.len(),
    decreases t.len() - i,
{
    let s = t + rest;
    if i < t.len() {
        assert(s[i] == t[i]);
        lemma_word_end_of_word(t, rest, i + 1);
    } else if rest.len() > 0 {
        assert(s[i] == rest[0]);
    }
}

/// Words that are joined by spaces are the words of what comes out.
pub proof fn lemma_words_of_joined(parts: Seq<Seq<char>>)
    requires
        forall|i: int| 0 <= i < parts.len() ==> is_word(#[trigger] parts[i]),
    ensures
        words(joined(parts, ' ')) == parts,
    decreases parts.len(),
{
    if parts.len() == 0 {
        assert(words(joined(parts, ' ')) =~= parts);
    } else {
        let t = parts[0];
        assert(is_word(t));
        if parts.len() == 1 {
            let none = Seq::<char>::empty();
            assert(t + none =~= t);
            lemma_word_end_of_word(t, none, 0);
            assert(t.subrange(0, t.len() as int) =~= t);
            assert(!is_whitespace(t[0]));
            assert(word_end(t, 0) == t.len());
            assert(words_from(t, t.len() as int) =~= Seq::<Seq<char>>::empty());
            assert(words(t) =~= seq![t]);
            assert(seq![t] =~= parts);
        } else {
            let tail = parts.drop_first();
            assert forall|i: int| 0 <= i < tail.len() implies is_word(#[trigger] tail[i]) by {
                assert(tail[i] == parts[i + 1]);
            }
            lemma_words_of_joined(tail);
            let r = joined(tail, ' ');
            let rest = seq![' '] + r;
            let s = joined(parts, ' ');
            assert(s =~= t + rest);
            assert(s =~= (t + seq![' ']) + r);
            lemma_word_end_of_word(t, rest, 0);
            assert(s[0] == t[0]);
            assert(!is_whitespace(t[0]));
            assert(s.subrange(0, t.len() as int) =~= t);
            assert(s[t.len() as int] == ' ');
            lemma_words_after_prefix(t + seq![' '], r, 0);
            assert(words_from(s, t.len() as int) == words_from(s, t.len() as int + 1));
            assert(words(s) =~= seq![t] + words(r));
            assert(seq![t] + tail =~= parts);
        }
    }
}

/// What follows a prefix of a text has the fields that it has by itself.
pub proof fn lemma_fields_after_prefix(a: Seq<char>, b: Seq<char>, c: char, j: int)
    requires
        0 <= j <= b.len(),
    ensures
        find_from(a + b, c, a.len() + j) == a.len() + find_from(b, c, j),
        fields_from(a + b, c, a.len() + j) == fields_from(b, c, j),
    decreases b.len() - j,
{
    let s = a + b;
    lemma_find_after_prefix(a, b, c, j);
    lemma_find_from_bounds(b, c, j);
    let e = find_from(b, c, j);
    if e >= b.len() {
        assert(s.subrange(a.len() + j, s.len() as int) =~= b.subrange(j, b.len() as int));
    } else {
        lemma_fields_after_prefix(a, b, c, e + 1);
        assert(s.subrange(a.len() + j, a.len() + e) =~= b.subrange(j, e));
    }
}

/// In what follows a prefix of a text, a character is found where it is
/// found there by itself.
proof fn lemma_find_after_prefix(a: Seq<char>, b: Seq<char>, c: char, j: int)
    requires
        0 <= j <= b.len(),
    ensures
        find_from(a + b, c, a.len() + j) == a.len() + find_from(b, c, j),
    decreases b.len() - j,
{
    let s = a + b;
    if j < b.len() {
        assert(s[a.len() + j] == b[j]);
        if b[j] != c {
            lemma_find_after_prefix(a, b, c, j + 1);
        }
    }
}

/// In a text that is free of `c` and followed by `c` or by nothing, `c` is
/// first found where the text is over.
pub proof fn lemma_find_after_free(t: Seq<char>, rest: Seq<char>, c: char, i: int)
    requires
        free_of(t, c),
        rest.len() == 0 || rest[0] == c,
        0 <= i <= t.len(),
    ensures
        find_from(t + rest, c, i) == t.len(),
    decreases t.len() - i,
{
    let s = t + rest;
    if i < t.len() {
        assert(s[i] == t[i]);
        lemma_find_after_free(t, rest, c, i + 1);
    } else if rest.len() > 0 {
        assert(s[i] == rest[0]);
    }
}

/// Texts that are free of a character and joined by it are the fields of
/// what comes out.
pub proof fn lemma_fields_of_joined(parts: Seq<Seq<char>>, c: char)
    requires
        parts.len() >= 1,
        forall|i: int| 0 <= i < parts.len() ==> free_of(#[trigger] parts[i], c),
    ensures
        fields(joined(parts, c), c) == parts,
    decreases parts.len(),
{
    let t = parts[0];
    assert(free_of(t, c));
    if parts.len() == 1 {
        let none = Seq::<char>::empty();
        assert(t + none =~= t);
        lemma_find_after_free(t, none, c, 0);
        assert(t.subrange(0, t.len() as int) =~= t);
        assert(fields(t, c) =~= seq![t]);
        assert(seq![t] =~= parts);
    } else {
        let tail = parts.drop_first();
        assert forall|i: int| 0 <= i < tail.len() implies free_of(#[trigger] tail[i], c) by {
            assert(tail[i] == parts[i + 1]);
        }
        lemma_fields_of_joined(tail, c);
        let r = joined(tail, c);
        let rest = seq![c] + r;
        let s = joined(parts, c);
        assert(s =~= t + rest);
        assert(s =~= (t + seq![c]) + r);
        lemma_find_after_free(t, rest, c, 0);
        assert(s.subrange(0, t.len() as int) =~= t);
        lemma_fields_after_prefix(t + seq![c], r, c, 0);
        assert(fields(s, c) =~= seq![t] + fields(r, c));
        assert(seq![t] + tail =~= parts);
    }
}

/// Texts that are free of a character stay free of it when they are joined
/// by another.
pub proof fn lemma_joined_free_of(parts: Seq<Seq<char>>, sep: char, c: char)
    requires
        sep != c,
        forall|i: int| 0 <= i < parts.len() ==> free_of(#[trigger] parts[i], c),
    ensures
        free_of(joined(parts, sep), c),
    decreases parts.len(),
{
    if parts.len() == 1 {
        assert(free_of(parts[0], c));
    } else if parts.len() >= 2 {
        let tail = parts.drop_first();
        assert forall|i: int| 0 <= i < tail.len() implies free_of(#[trigger] tail[i], c) by {
            assert(tail[i] == parts[i + 1]);
        }
        lemma_joined_free_of(tail, sep, c);
        let t = parts[0];
        assert(free_of(t, c));
        let r = joined(tail, sep);
        let s = joined(parts, sep);
        assert forall|i: int| 0 <= i < s.len() implies #[trigger] s[i] != c by {
            if i < t.len() {
                assert(s[i] == t[i]);
            } else if i == t.len() {
                assert(s[i] == sep);
            } else {
                assert(s[i] == r[i - t.len() - 1]);
            }
        }
    }
}

/// Whether `c` is white space.
pub fn char_is_whitespace(c: char) -> (b: bool)
    ensures
        b == is_whitespace(c),
{
    let u: u32 = c as u32;
    (0x09 <= u && u <= 0x0D) || u == 0x20 || u == 0x85 || u == 0xA0 || u == 0x1680 || (0x2000 <= u
        && u <= 0x200A) || u == 0x2028 || u == 0x2029 || u == 0x202F || u == 0x205F || u == 0x3000
}

/// Whether `c` is an ASCII decimal digit.
pub fn char_is_digit(c: char) -> (b: bool)
    ensures
        b == is_digit(c),
{
    '0' <= c && c <= '9'
}

/// The characters of a string, in order.
pub fn to_chars(s: &str) -> (v: Vec<char>)
    ensures
        v@ == s@,
{
    let mut v: Vec<char> = Vec::new();
    for c in it: s.chars()
        invariant
            it.seq() == s@,
            v@ == it.seq().take(it.index() as int),
    {
        v.push(c);
    }
    v
}

/// Whether two strings hold the same characters.
pub fn str_eq(a: &str, b: &str) -> (same: bool)
    ensures
        same == (a@ == b@),
{
    let va = to_chars(a);
    chars_are(&va, b)
}

/// Whether `chars` spells `word`.
pub fn chars_are(chars: &Vec<char>, word: &str) -> (same: bool)
    ensures
        same == (chars@ == word@),
{
    let other = to_chars(word);
    if chars.len() != other.len() {
        return false;
    }
    let mut i: usize = 0;
    while i < chars.len()
        invariant
            chars.len() == other.len(),
            other@ == word@,
            i <= chars.len(),
            chars@.take(i as int) == other@.take(i as int),
        decreases chars.len() - i,
    {
        if chars[i] != other[i] {
            return false;
        }
        assert(chars@.take(i + 1) =~= chars@.take(i as int).push(chars@[i as int]));
        assert(other@.take(i + 1) =~= other@.take(i as int).push(other@[i as int]));
        i += 1;
    }
    assert(chars@ =~= chars@.take(i as int));
    assert(other@ =~= other@.take(i as int));
    true
}

/// The index of the first `c` at or after `from`; if there is none, the
/// length of `chars`, or `from` if that is more.
pub fn find_char(chars: &Vec<char>, c: char, from: usize) -> (at: usize)
    ensures
        at == find_from(chars@, c, from as int),
        from <= at,
        from <= chars.len() ==> at <= chars.len(),
{
    let mut i: usize = from;
    while i < chars.len() && chars[i] != c
        invariant
            from <= i,
            from <= chars.len() ==> i <= chars.len(),
            find_from(chars@, c, from as int) == find_from(chars@, c, i as int),
        decreases chars.len() - i,
    {
        i += 1;
    }
    i
}

/// The index of the last `c` in `chars`, if there is one.
pub fn find_last_char(chars: &Vec<char>, c: char) -> (at: Option<usize>)
    ensures
        match at {
            Some(k) => k == find_last_below(chars@, c, chars@.len() as int) && k < chars.len(),
            None => find_last_below(chars@, c, chars@.len() as int) == -1,
        },
{
    let mut i: usize = chars.len();
    while i > 0
        invariant
            i <= chars.len(),
            find_last_below(chars@, c, chars@.len() as int) == find_last_below(chars@, c, i as int),
        decreases i,
    {
        if chars[i - 1] == c {
            return Some(i - 1);
        }
        i -= 1;
    }
    None
}

/// What stands before `suffix` in `word`, if `word` ends with it.
pub fn strip_suffix<'a>(word: &'a str, suffix: &str) -> (rest: Option<&'a str>)
    ensures
        rest is Some <==> ends_with(word@, suffix@),
        rest matches Some(t) ==> t@ == without_suffix(word@, suffix@),
{
    let chars = to_chars(word);
    let tail = to_chars(suffix);
    let n = chars.len();
    let m = tail.len();
    if n < m {
        return None;
    }
    let start = n - m;
    let mut k: usize = 0;
    while k < m
        invariant
            n == chars.len(),
            m == tail.len(),
            start + m == n,
            k <= m,
            chars@ == word@,
            tail@ == suffix@,
            forall|j: int| 0 <= j < k ==> chars@[start + j] == tail@[j],
        decreases m - k,
    {
        if chars[start + k] != tail[k] {
            assert(word@.subrange(n - m, n as int)[k as int] != suffix@[k as int]);
            return None;
        }
        k += 1;
    }
    assert(word@.subrange(n - m, n as int) =~= suffix@);
    Some(word.substring_char(0, start))
}

/// The words of `input`, each as a slice of it.
pub fn split_whitespace<'a>(input: &'a str) -> (v: Vec<&'a str>)
    ensures
        texts(v@) == words(input@),
{
    let chars = to_chars(input);
    let n = chars.len();
    let mut v: Vec<&'a str> = Vec::new();
    let mut i: usize = 0;
    assert(texts(v@) =~= Seq::<Seq<char>>::empty());
    while i < n
        invariant
            chars@ == input@,
            n == chars.len(),
            i <= n,
            words(input@) == texts(v@) + words_from(input@, i as int),
        decreases n - i,
    {
        if char_is_whitespace(chars[i]) {
            i += 1;
        } else {
            let mut j: usize = i + 1;
            while j < n && !char_is_whitespace(chars[j])
                invariant
                    chars@ == input@,
                    n == chars.len(),
                    i < j <= n,
                    word_end(input@, i as int) == word_end(input@, j as int),
                decreases n - j,
            {
                j += 1;
            }
            let word = input.substring_char(i, j);
            proof {
                let ghost before = texts(v@);
                assert(texts(v@.push(word)) =~= before + seq![word@]);
                assert((before + seq![word@]) + words_from(input@, j as int) =~= before + (seq![
                    word@,
                ] + words_from(input@, j as int)));
            }
            v.push(word);
            i = j;
        }
    }
    assert(texts(v@) + Seq::<Seq<char>>::empty() =~= texts(v@));
    v
}

/// The fields of `input` separated by `c`, each as a slice of it.
pub fn split_char<'a>(input: &'a str, c: char) -> (v: Vec<&'a str>)
    ensures
        texts(v@) == fields(input@, c),
        v@.len() >= 1,
{
    let chars = to_chars(input);
    let n = chars.len();
    let mut v: Vec<&'a str> = Vec::new();
    let mut i: usize = 0;
    assert(texts(v@) =~= Seq::<Seq<char>>::empty());
    loop
        invariant_except_break
            chars@ == input@,
            n == chars.len(),
            i <= n,
            fields(input@, c) == texts(v@) + fields_from(input@, c, i as int),
        ensures
            texts(v@) == fields(input@, c),
            v@.len() >= 1,
        decreases n - i,
    {
        let e = find_char(&chars, c, i);
        let field = input.substring_char(i, e);
        proof {
            let ghost before = texts(v@);
            assert(texts(v@.push(field)) =~= before + seq![field@]);
            if e < n {
                assert((before + seq![field@]) + fields_from(input@, c, e + 1) =~= before + (seq![
                    field@,
                ] + fields_from(input@, c, e + 1)));
            }
        }
        v.push(field);
        if e >= n {
            break ;
        }
        i = e + 1;
    }
    v
}

} // verus!
