use chem_expr::chem_data::parser::{next_chars_which, Token, TokenIter};
use chem_expr::helper::peek_iter::{CharSource, PeekIter, Source};
use chem_expr::helper::text::{parse_u32, CharClass};

#[test]
fn parser_tokenizes_properly() {
    let formula = "     H2 Bee10 xpNe zt10 0 (No p)2  ?  ";
    let mut tokens_are = TokenIter::from_char_iter(CharSource::new(formula));
    let tokens_should_be = vec![
        Token::Symbol("H".to_string()),
        Token::Number(2),
        Token::Symbol("Bee".to_string()),
        Token::Number(10),
        Token::Unknown("x".to_string()),
        Token::Unknown("p".to_string()),
        Token::Symbol("Ne".to_string()),
        Token::Unknown("z".to_string()),
        Token::Unknown("t".to_string()),
        Token::Number(10),
        Token::Number(0),
        Token::LeftParen,
        Token::Symbol("No".to_string()),
        Token::Unknown("p".to_string()),
        Token::RightParen,
        Token::Number(2),
        Token::Unknown("?".to_string()),
    ];

    let mut should_be = tokens_should_be.iter();
    while let (Some(token_is), Some(token_should_be)) = (tokens_are.next(), should_be.next()) {
        assert_eq!(token_is, *token_should_be);
    }
}

#[test]
fn formula_tokens_end_with_the_text() {
    let mut tokens = TokenIter::from_char_iter(CharSource::new(" H \u{a0}\u{2003} "));
    assert_eq!(tokens.next(), Some(Token::Symbol("H".to_string())));
    assert_eq!(tokens.next(), None);
    assert_eq!(tokens.next(), None);
}

#[test]
fn number_beyond_the_range_is_unknown() {
    let mut tokens = TokenIter::from_char_iter(CharSource::new("2147483647 2147483648"));
    assert_eq!(tokens.next(), Some(Token::Number(2147483647)));
    assert_eq!(tokens.next(), Some(Token::Unknown("2147483648".to_string())));
    assert_eq!(tokens.next(), None);
}

#[test]
fn next_chars_which_takes_the_longest_run() {
    let mut chars = PeekIter::new(CharSource::new("Hello there!"));
    assert_eq!(next_chars_which(&mut chars, CharClass::Alphabetic), "Hello");
    assert_eq!(next_chars_which(&mut chars, CharClass::Alphabetic), "");
    assert_eq!(next_chars_which(&mut chars, CharClass::Whitespace), " ");
    assert_eq!(next_chars_which(&mut chars, CharClass::Lowercase), "there");
    assert_eq!(chars.next(), Some('!'));
    assert_eq!(next_chars_which(&mut chars, CharClass::StringBody), "");
}

#[test]
fn char_classes() {
    assert!(CharClass::Whitespace.contains(' '));
    assert!(CharClass::Whitespace.contains('\t'));
    assert!(CharClass::Whitespace.contains('\n'));
    assert!(CharClass::Whitespace.contains('\r'));
    assert!(CharClass::Whitespace.contains('\u{c}'));
    assert!(!CharClass::Whitespace.contains('\u{b}'));
    assert!(CharClass::AnyWhitespace.contains('\u{b}'));
    assert!(CharClass::AnyWhitespace.contains('\u{3000}'));
    assert!(!CharClass::AnyWhitespace.contains('x'));
    assert!(CharClass::Lowercase.contains('a') && CharClass::Lowercase.contains('z'));
    assert!(!CharClass::Lowercase.contains('A') && !CharClass::Lowercase.contains('{'));
    assert!(CharClass::Uppercase.contains('A') && CharClass::Uppercase.contains('Z'));
    assert!(!CharClass::Uppercase.contains('a') && !CharClass::Uppercase.contains('['));
    assert!(CharClass::Alphabetic.contains('q') && CharClass::Alphabetic.contains('Q'));
    assert!(!CharClass::Alphabetic.contains('1') && !CharClass::Alphabetic.contains('é'));
    assert!(CharClass::Alphanumeric.contains('7') && CharClass::Alphanumeric.contains('g'));
    assert!(!CharClass::Alphanumeric.contains('_'));
    assert!(CharClass::Digit.contains('0') && CharClass::Digit.contains('9'));
    assert!(!CharClass::Digit.contains('/') && !CharClass::Digit.contains(':'));
    assert!(CharClass::StringBody.contains('a') && !CharClass::StringBody.contains('"'));
    assert!(CharClass::Underscore.contains('_') && !CharClass::Underscore.contains('-'));
}

#[test]
fn decimal_numerals() {
    assert_eq!(parse_u32("0"), Some(0));
    assert_eq!(parse_u32("007"), Some(7));
    assert_eq!(parse_u32("4294967295"), Some(4294967295));
    assert_eq!(parse_u32("4294967296"), None);
    assert_eq!(parse_u32("99999999999999999999999999"), None);
    assert_eq!(parse_u32(""), None);
    assert_eq!(parse_u32("+5"), None);
    assert_eq!(parse_u32("12a"), None);
}
