use chem_expr::helper::peek_iter::{CharSource, Source};
use chem_expr::parse::tokens::{IntoTokenIter, Token, Tokens};

fn all_tokens(input: &str) -> Vec<Token> {
    let mut tokens = CharSource::new(input).into_token_iter();
    let mut found = Vec::new();
    while let Some(token) = tokens.next() {
        found.push(token);
    }
    found
}

fn source_text(token: &Token) -> String {
    match token {
        Token::Unknown(text) => text.clone(),
        Token::Whitespace => " ".to_string(),
        Token::Identifier(text) => text.clone(),
        Token::StringLiteral(text) => format!("\"{}\"", text),
        Token::Integer(text) => text.clone(),
        Token::Real(text) => text.clone(),
        Token::LParen => "(".to_string(),
        Token::RParen => ")".to_string(),
        Token::LBrack => "[".to_string(),
        Token::RBrack => "]".to_string(),
        Token::LCurly => "{".to_string(),
        Token::RCurly => "}".to_string(),
        Token::Dot => ".".to_string(),
        Token::Bang => "!".to_string(),
        Token::Cash => "$".to_string(),
        Token::CashCash => "$$".to_string(),
        Token::EqualSign => "=".to_string(),
        Token::PlusSign => "+".to_string(),
        Token::MinusSign => "-".to_string(),
        Token::MulSign => "*".to_string(),
        Token::DivSign => "/".to_string(),
        Token::PowSign => "^".to_string(),
        Token::Comma => ",".to_string(),
        Token::Colon => ":".to_string(),
        Token::Arrow => "->".to_string(),
        Token::Ellipse => "...".to_string(),
    }
}

#[test]
fn tokens_tokenizes_properly() {
    let input = "'notregu1ar_idEnt1-fier*=-->(< ....caLiFor_ni-aGur!$$$123 .56.4e2 1.234.a ? ";
    let tokens_are: Vec<Token> = all_tokens(input);
    let tokens_should_be = vec![
        Token::Identifier("notregu1ar".to_string()),
        Token::Identifier("id".to_string()),
        Token::Identifier("Ent".to_string()),
        Token::Integer("1".to_string()),
        Token::MinusSign,
        Token::Identifier("fier".to_string()),
        Token::MulSign,
        Token::EqualSign,
        Token::MinusSign,
        Token::Arrow,
        Token::LParen,
        Token::Unknown("<".to_string()),
        Token::Whitespace,
        Token::Ellipse,
        Token::Dot,
        Token::Identifier("ca".to_string()),
        Token::Identifier("Li".to_string()),
        Token::Identifier("For".to_string()),
        Token::Identifier("ni".to_string()),
        Token::MinusSign,
        Token::Identifier("a".to_string()),
        Token::Identifier("Gur".to_string()),
        Token::Bang,
        Token::CashCash,
        Token::Cash,
        Token::Integer("123".to_string()),
        Token::Whitespace,
        Token::Dot,
        Token::Real("56.4e2".to_string()),
        Token::Whitespace,
        Token::Real("1.234".to_string()),
        Token::Dot,
        Token::Identifier("a".to_string()),
        Token::Whitespace,
        Token::Unknown("?".to_string()),
        Token::Whitespace,
    ];

    assert_eq!(tokens_are, tokens_should_be);
}

#[test]
fn letter_run_stops_at_a_digit() {
    assert_eq!(
        all_tokens("A1B2"),
        vec![
            Token::Identifier("A".to_string()),
            Token::Integer("1".to_string()),
            Token::Identifier("B".to_string()),
            Token::Integer("2".to_string()),
        ]
    );
}

#[test]
fn longer_structural_token_wins() {
    assert_eq!(all_tokens("$$"), vec![Token::CashCash]);
    assert_eq!(all_tokens("$"), vec![Token::Cash]);
    assert_eq!(all_tokens("$$$"), vec![Token::CashCash, Token::Cash]);
    assert_eq!(all_tokens("->"), vec![Token::Arrow]);
    assert_eq!(all_tokens("-"), vec![Token::MinusSign]);
    assert_eq!(all_tokens("-->"), vec![Token::MinusSign, Token::Arrow]);
    assert_eq!(all_tokens("..."), vec![Token::Ellipse]);
    assert_eq!(all_tokens(".."), vec![Token::Dot, Token::Dot]);
    assert_eq!(all_tokens("...."), vec![Token::Ellipse, Token::Dot]);
}

#[test]
fn every_structural_token_is_recognized() {
    assert_eq!(
        all_tokens("()[]{}.!$=+-*/^,:"),
        vec![
            Token::LParen,
            Token::RParen,
            Token::LBrack,
            Token::RBrack,
            Token::LCurly,
            Token::RCurly,
            Token::Dot,
            Token::Bang,
            Token::Cash,
            Token::EqualSign,
            Token::PlusSign,
            Token::MinusSign,
            Token::MulSign,
            Token::DivSign,
            Token::PowSign,
            Token::Comma,
            Token::Colon,
        ]
    );
}

#[test]
fn source_texts_give_the_input_back() {
    let input = "(alpha + Beta2) -> $H2O ... \"text\" 3.25e7 ? x";
    let mut rebuilt = String::new();
    for token in all_tokens(input) {
        rebuilt.push_str(&source_text(&token));
    }
    assert_eq!(rebuilt, input);
}

#[test]
fn whitespace_run_is_one_token() {
    assert_eq!(
        all_tokens("a \t\r\n b"),
        vec![
            Token::Identifier("a".to_string()),
            Token::Whitespace,
            Token::Identifier("b".to_string()),
        ]
    );
}

#[test]
fn underscores_separate_and_vanish() {
    assert_eq!(
        all_tokens("ab_cd"),
        vec![Token::Identifier("ab".to_string()), Token::Identifier("cd".to_string())]
    );
    assert_eq!(all_tokens("a_"), vec![Token::Identifier("a".to_string())]);
    assert_eq!(all_tokens("___"), Vec::<Token>::new());
}

#[test]
fn empty_text_has_no_tokens() {
    assert_eq!(all_tokens(""), Vec::<Token>::new());
}

#[test]
fn quoted_identifier_takes_letters_and_digits() {
    assert_eq!(
        all_tokens("'Ab1C2-x"),
        vec![
            Token::Identifier("Ab1C2".to_string()),
            Token::MinusSign,
            Token::Identifier("x".to_string()),
        ]
    );
    assert_eq!(all_tokens("'"), vec![Token::Identifier(String::new())]);
}

#[test]
fn string_literal_loses_its_quotes() {
    assert_eq!(
        all_tokens("\"a b_c\"x"),
        vec![Token::StringLiteral("a b_c".to_string()), Token::Identifier("x".to_string())]
    );
    assert_eq!(all_tokens("\"\""), vec![Token::StringLiteral(String::new())]);
}

#[test]
fn unterminated_string_literal_runs_to_the_end() {
    assert_eq!(all_tokens("\"abc"), vec![Token::StringLiteral("abc".to_string())]);
}

#[test]
fn real_needs_digits_after_the_point() {
    assert_eq!(all_tokens("12"), vec![Token::Integer("12".to_string())]);
    assert_eq!(all_tokens("1.5"), vec![Token::Real("1.5".to_string())]);
    assert_eq!(all_tokens("1."), vec![Token::Integer("1".to_string()), Token::Dot]);
    assert_eq!(
        all_tokens("1.a"),
        vec![Token::Integer("1".to_string()), Token::Dot, Token::Identifier("a".to_string())]
    );
    assert_eq!(
        all_tokens("1.2.3"),
        vec![Token::Real("1.2".to_string()), Token::Dot, Token::Integer("3".to_string())]
    );
}

#[test]
fn exponent_needs_a_point_and_digits() {
    assert_eq!(all_tokens("1.5e10"), vec![Token::Real("1.5e10".to_string())]);
    assert_eq!(
        all_tokens("1.5e"),
        vec![Token::Real("1.5".to_string()), Token::Identifier("e".to_string())]
    );
    assert_eq!(
        all_tokens("15e3"),
        vec![
            Token::Integer("15".to_string()),
            Token::Identifier("e".to_string()),
            Token::Integer("3".to_string()),
        ]
    );
}

#[test]
fn marked_literal_is_always_real() {
    assert_eq!(all_tokens("#12"), vec![Token::Real("12".to_string())]);
    assert_eq!(all_tokens("#1.234a"), vec![
        Token::Real("1.234".to_string()),
        Token::Identifier("a".to_string()),
    ]);
    assert_eq!(all_tokens("#"), vec![Token::Real(String::new())]);
}

#[test]
fn unknown_character_is_one_token() {
    assert_eq!(
        all_tokens("<é"),
        vec![Token::Unknown("<".to_string()), Token::Unknown("é".to_string())]
    );
}

#[test]
fn tokens_can_start_from_a_vector_of_chars() {
    let mut tokens = Tokens::new(CharSource::from_vec(vec!['H', '2']));
    assert_eq!(tokens.next(), Some(Token::Identifier("H".to_string())));
    assert_eq!(tokens.next(), Some(Token::Integer("2".to_string())));
    assert_eq!(tokens.next(), None);
    assert_eq!(tokens.next(), None);
}

#[test]
fn cloned_token_is_equal() {
    let token = Token::Real("2.5".to_string());
    assert_eq!(token.clone(), token);
    assert_eq!(Token::Arrow.clone(), Token::Arrow);
}
