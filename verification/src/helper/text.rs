//! Character classes, runs of characters, and decimal numerals.

use vstd::prelude::*;

verus! {

/// `String::push` of the standard library: the character is appended at the
/// end of the string and nothing else changes.
pub assume_specification[ std::string::String::push ](s: &mut std::string::String, c: char)
    ensures
        final(s)@ == old(s)@.push(c),
;

/// Equality of string slices in the standard library: two slices are equal
/// exactly when they hold the same characters in the same order.
pub assume_specification[ <str as PartialEq>::eq ](a: &str, b: &str) -> (r: bool)
    ensures
        r == (a@ == b@),
;

/// Space, tab, line feed, form feed and carriage return.
pub open spec fn is_whitespace(c: char) -> bool {
    c == ' ' || c == '\t' || c == '\n' || c == '\x0C' || c == '\r'
}

/// The characters with the Unicode property `White_Space`.
pub open spec fn is_unicode_whitespace(c: char) -> bool {
    ('\u{9}' <= c && c <= '\u{d}') || c == ' ' || c == '\u{85}' || c == '\u{a0}' || c == '\u{1680}'
        || ('\u{2000}' <= c && c <= '\u{200a}') || c == '\u{2028}' || c == '\u{2029}' || c
        == '\u{202f}' || c == '\u{205f}' || c == '\u{3000}'
}

/// The digits `0` to `9`.
pub open spec fn is_digit(c: char) -> bool {
    '0' <= c && c <= '9'
}

/// The letters `a` to `z`.
pub open spec fn is_lowercase(c: char) -> bool {
    'a' <= c && c <= 'z'
}

/// The letters `A` to `Z`.
pub open spec fn is_uppercase(c: char) -> bool {
    'A' <= c && c <= 'Z'
}

/// The letters `a` to `z` and `A` to `Z`.
pub open spec fn is_alphabetic(c: char) -> bool {
    is_lowercase(c) || is_uppercase(c)
}

/// A set of characters that a run may be made of.
#[derive(Clone, Copy, Debug, PartialEq, Eq)]
pub enum CharClass {
    /// Space, tab, line feed, form feed, carriage return.
    Whitespace,
    /// `a` to `z`.
    Lowercase,
    /// `A` to `Z`.
    Uppercase,
    /// ASCII letters.
    Alphabetic,
    /// ASCII letters and digits.
    Alphanumeric,
    /// `0` to `9`.
    Digit,
    /// Every character that Unicode counts as white space.
    AnyWhitespace,
    /// Everything but space, tab, line feed, form feed, carriage return.
    NonWhitespace,
    /// Everything but the line feed.
    LineBody,
    /// Everything but the double quote.
    StringBody,
    /// The underscore alone.
    Underscore,
}

impl CharClass {
    /// Whether `c` belongs to the class.
    pub open spec fn has(self, c: char) -> bool {
        match self {
            CharClass::Whitespace => is_whitespace(c),
            CharClass::Lowercase => is_lowercase(c),
            CharClass::Uppercase => is_uppercase(c),
            CharClass::Alphabetic => is_alphabetic(c),
            CharClass::Alphanumeric => is_alphabetic(c) || is_digit(c),
            CharClass::Digit => is_digit(c),
            CharClass::AnyWhitespace => is_unicode_whitespace(c),
            CharClass::NonWhitespace => !is_whitespace(c),
            CharClass::LineBody => c != '\n',
            CharClass::StringBody => c != '"',
            CharClass::Underscore => c == '_',
        }
    }

    /// Whether `c` belongs to the class.
    pub fn contains(&self, c: char) -> (b: bool)
        ensures
            b == self.has(c),
    {
        match self {
            CharClass::Whitespace => c == ' ' || c == '\t' || c == '\n' || c == '\x0C' || c == '\r',
            CharClass::Lowercase => 'a' <= c && c <= 'z',
            CharClass::Uppercase => 'A' <= c && c <= 'Z',
            CharClass::Alphabetic => ('a' <= c && c <= 'z') || ('A' <= c && c <= 'Z'),
            CharClass::Alphanumeric => ('a' <= c && c <= 'z') || ('A' <= c && c <= 'Z') || ('0'
                <= c && c <= '9'),
            CharClass::Digit => '0' <= c && c <= '9',
            CharClass::AnyWhitespace => ('\u{9}' <= c && c <= '\u{d}') || c == ' ' || c == '\u{85}'
                || c == '\u{a0}' || c == '\u{1680}' || ('\u{2000}' <= c && c <= '\u{200a}') || c
                == '\u{2028}' || c == '\u{2029}' || c == '\u{202f}' || c == '\u{205f}' || c
                == '\u{3000}',
            CharClass::NonWhitespace => !(c == ' ' || c == '\t' || c == '\n' || c == '\x0C' || c
                == '\r'),
            CharClass::LineBody => c != '\n',
            CharClass::StringBody => c != '"',
            CharClass::Underscore => c == '_',
        }
    }
}

/// The length of the longest prefix of `s` made of characters of `class`.
pub open spec fn run_len(s: Seq<char>, class: CharClass) -> nat
    decreases s.len(),
{
    if s.len() > 0 && class.has(s[0]) {
        1 + run_len(s.drop_first(), class)
    } else {
        0
    }
}

/// A run is a prefix: it is no longer than the text, it is made of
/// characters of the class, and the character after it is not one.
pub proof fn lemma_run_len(s: Seq<char>, class: CharClass)
    ensures
        run_len(s, class) <= s.len(),
        forall|i: int| 0 <= i < run_len(s, class) ==> class.has(#[trigger] s[i]),
        run_len(s, class) < s.len() ==> !class.has(s[run_len(s, class) as int]),
    decreases s.len(),
{
    if s.len() > 0 && class.has(s[0]) {
        let rest = s.drop_first();
        lemma_run_len(rest, class);
        assert forall|i: int| 0 <= i < run_len(s, class) implies class.has(#[trigger] s[i]) by {
            if i > 0 {
                assert(s[i] == rest[i - 1]);
            }
        }
        if run_len(s, class) < s.len() {
            assert(s[run_len(s, class) as int] == rest[run_len(rest, class) as int]);
        }
    }
}

/// The number that a string of decimal digits denotes.
pub open spec fn decimal_value(digits: Seq<char>) -> nat
    decreases digits.len(),
{
    if digits.len() == 0 {
        0
    } else {
        decimal_value(digits.drop_last()) * 10 + ((digits.last() as int) - ('0' as int)) as nat
    }
}

/// A non-empty string of decimal digits.
pub open spec fn is_decimal(digits: Seq<char>) -> bool {
    digits.len() > 0 && forall|i: int| 0 <= i < digits.len() ==> is_digit(#[trigger] digits[i])
}

/// What a decimal numeral denotes as a `u32`: `None` when the text is not a
/// numeral or the number does not fit.
pub open spec fn decimal_u32(digits: Seq<char>) -> Option<u32> {
    if is_decimal(digits) && decimal_value(digits) <= u32::MAX {
        Some(decimal_value(digits) as u32)
    } else {
        None
    }
}

/// Appending digits never makes a numeral smaller.
pub proof fn lemma_decimal_value_monotonic(digits: Seq<char>, n: int)
    requires
        0 <= n <= digits.len(),
    ensures
        decimal_value(digits.take(n)) <= decimal_value(digits),
    decreases digits.len() - n,
{
    if n < digits.len() {
        lemma_decimal_value_monotonic(digits.drop_last(), n);
        assert(digits.drop_last().take(n) =~= digits.take(n));
    } else {
        assert(digits.take(n) =~= digits);
    }
}

/// The characters of a text.
pub fn chars_of(text: &str) -> (r: Vec<char>)
    ensures
        r@ == text@,
{
    let mut chars: Vec<char> = Vec::new();
    for c in iter: text.chars()
        invariant
            iter.seq() == text@,
            chars@ == text@.take(iter.index() as int),
    {
        chars.push(c);
        assert(chars@ =~= text@.take(iter.index() + 1));
    }
    assert(text@.take(text@.len() as int) =~= text@);
    chars
}

/// The text made of the characters of `chars` from `from` up to `to`.
pub fn string_of(chars: &Vec<char>, from: usize, to: usize) -> (r: String)
    requires
        from <= to <= chars@.len(),
    ensures
        r@ == chars@.subrange(from as int, to as int),
{
    let mut text = String::new();
    let mut i: usize = from;
    assert(text@ =~= chars@.subrange(from as int, from as int));
    while i < to
        invariant
            from <= i <= to <= chars@.len(),
            text@ == chars@.subrange(from as int, i as int),
        decreases to - i,
    {
        text.push(chars[i]);
        i = i + 1;
        assert(text@ =~= chars@.subrange(from as int, i as int));
    }
    text
}

/// Where the run of characters of `class` that starts at `from` ends.
pub fn run_end(chars: &Vec<char>, from: usize, to: usize, class: CharClass) -> (r: usize)
    requires
        from <= to <= chars@.len(),
    ensures
        from <= r <= to,
        r - from == run_len(chars@.subrange(from as int, to as int), class),
{
    let ghost part = chars@.subrange(from as int, to as int);
    let mut i: usize = from;
    assert(part.skip(0) =~= part);
    while i < to && class.contains(chars[i])
        invariant
            from <= i <= to <= chars@.len(),
            part == chars@.subrange(from as int, to as int),
            run_len(part, class) == (i - from) + run_len(part.skip(i - from), class),
        decreases to - i,
    {
        assert(part.skip(i - from)[0] == chars@[i as int]);
        assert(part.skip(i - from).drop_first() =~= part.skip(i - from + 1));
        i = i + 1;
    }
    proof {
        if i < to {
            assert(part.skip(i - from)[0] == chars@[i as int]);
        }
    }
    i
}

/// What a decimal numeral with or without a sign denotes as an `i32`:
/// `None` when the text is not such a numeral or the number does not fit.
pub open spec fn signed_decimal_i32(text: Seq<char>) -> Option<i32> {
    if text.len() > 0 && text[0] == '-' {
        let digits = text.drop_first();
        if is_decimal(digits) && decimal_value(digits) <= 0x8000_0000 {
            Some((0 - decimal_value(digits)) as i32)
        } else {
            None
        }
    } else {
        let digits = if text.len() > 0 && text[0] == '+' {
            text.drop_first()
        } else {
            text
        };
        if is_decimal(digits) && decimal_value(digits) <= i32::MAX {
            Some(decimal_value(digits) as i32)
        } else {
            None
        }
    }
}

/// The number that the digits of `chars` from `from` up to `to` denote,
/// where they are a numeral of at most `limit`.
fn parse_digits(chars: &Vec<char>, from: usize, to: usize, limit: u64) -> (r: Option<u64>)
    requires
        from <= to <= chars@.len(),
        limit <= 0xffff_ffff,
    ensures
        r == (if is_decimal(chars@.subrange(from as int, to as int)) && decimal_value(
            chars@.subrange(from as int, to as int),
        ) <= limit {
            Some(decimal_value(chars@.subrange(from as int, to as int)) as u64)
        } else {
            None
        }),
{
    let ghost digits = chars@.subrange(from as int, to as int);
    if from == to {
        return None;
    }
    let mut value: u64 = 0;
    let mut i: usize = from;
    assert(digits.take(0) =~= Seq::<char>::empty());
    while i < to
        invariant
            from <= i <= to <= chars@.len(),
            digits == chars@.subrange(from as int, to as int),
            value == decimal_value(digits.take(i - from)),
            value <= limit <= 0xffff_ffff,
            forall|j: int| 0 <= j < i - from ==> is_digit(#[trigger] digits[j]),
        decreases to - i,
    {
        let c = chars[i];
        assert(digits[i - from] == c);
        if !('0' <= c && c <= '9') {
            return None;
        }
        let digit: u64 = (c as u64) - ('0' as u64);
        assert(digits.take(i - from + 1).drop_last() =~= digits.take(i - from));
        assert(digits.take(i - from + 1).last() == c);
        value = value * 10 + digit;
        i = i + 1;
        if value > limit {
            proof {
                lemma_decimal_value_monotonic(digits, i - from);
            }
            return None;
        }
    }
    assert(digits.take(to - from) =~= digits);
    Some(value)
}

/// Reads a decimal numeral.
pub fn parse_u32(text: &str) -> (r: Option<u32>)
    ensures
        r == decimal_u32(text@),
{
    let chars = chars_of(text);
    assert(chars@.subrange(0, chars@.len() as int) =~= text@);
    match parse_digits(&chars, 0, chars.len(), 0xffff_ffff) {
        Some(value) => Some(value as u32),
        None => None,
    }
}

/// Reads a decimal numeral with or without a sign off the characters of
/// `chars` from `from` up to `to`.
pub fn parse_i32_at(chars: &Vec<char>, from: usize, to: usize) -> (r: Option<i32>)
    requires
        from <= to <= chars@.len(),
    ensures
        r == signed_decimal_i32(chars@.subrange(from as int, to as int)),
{
    let ghost text = chars@.subrange(from as int, to as int);
    if from < to && chars[from] == '-' {
        assert(text[0] == '-');
        assert(text.drop_first() =~= chars@.subrange(from + 1, to as int));
        match parse_digits(chars, from + 1, to, 0x8000_0000) {
            Some(magnitude) => Some((0 - (magnitude as i64)) as i32),
            None => None,
        }
    } else if from < to && chars[from] == '+' {
        assert(text[0] == '+');
        assert(text.drop_first() =~= chars@.subrange(from + 1, to as int));
        match parse_digits(chars, from + 1, to, 0x7fff_ffff) {
            Some(magnitude) => Some(magnitude as i32),
            None => None,
        }
    } else {
        proof {
            if from < to {
                assert(text[0] == chars@[from as int]);
            }
        }
        match parse_digits(chars, from, to, 0x7fff_ffff) {
            Some(magnitude) => Some(magnitude as i32),
            None => None,
        }
    }
}

} // verus!
