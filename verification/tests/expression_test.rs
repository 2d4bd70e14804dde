use chem_expr::helper::peek_iter::CharSource;
use chem_expr::parse::expression::parser::{
    create_new_expression, lookup_special_syntax_builder, parse_str, parse_tokens, wrap_in_infix,
    CondensedFormulaExprBuilder, ExpressionBuilder, IdentifierExprBuilder,
    InfixOperationsExprBuilder, IntegerLiteralExprBuilder, MolecularFormulaExprBuilder,
    ParseError, RealLiteralExprBuilder, SpecialSyntaxExprBuilder, StringLiteralExprBuilder,
    TupleExprBuilder, WrapperExprBuilder,
};
use chem_expr::parse::expression::{
    Expression, Identifier, InfixOperationsExpr, InfixOperator, IntegerLiteral,
    MolecularFormulaExpr, RealLiteral, StringLiteral, TupleExpr,
};
use chem_expr::parse::tokens::{Token, Tokens};

fn identifier(name: &str) -> Expression {
    Expression::Identifier(Identifier { name: name.to_string() })
}

fn integer(value: u32) -> Expression {
    Expression::IntegerLiteral(IntegerLiteral { value })
}

fn identifier_token(name: &str) -> Token {
    Token::Identifier(name.to_string())
}

#[test]
fn three_identifiers_and_two_plus_signs_are_one_chain() {
    let expected = Expression::InfixOperations(InfixOperationsExpr {
        operands: vec![identifier("a"), identifier("b"), identifier("c")],
        operators: vec![InfixOperator::Plus, InfixOperator::Plus],
    });
    assert_eq!(parse_str("a+b+c"), Ok(expected));
}

#[test]
fn chain_from_tokens_given_one_by_one() {
    let mut builder = WrapperExprBuilder::new();
    assert_eq!(builder.add_token(identifier_token("a")), Ok(None));
    assert_eq!(builder.add_token(Token::PlusSign), Ok(None));
    assert_eq!(builder.add_token(identifier_token("b")), Ok(None));
    assert_eq!(builder.add_token(Token::PlusSign), Ok(None));
    assert_eq!(builder.add_token(identifier_token("c")), Ok(None));
    match builder.finish() {
        Ok(Expression::InfixOperations(chain)) => {
            assert_eq!(chain.operands.len(), 3);
            assert_eq!(chain.operators, vec![InfixOperator::Plus, InfixOperator::Plus]);
            assert_eq!(chain.operands[0], identifier("a"));
            assert_eq!(chain.operands[1], identifier("b"));
            assert_eq!(chain.operands[2], identifier("c"));
        },
        other => panic!("not a chain: {:?}", other),
    }
}

#[test]
fn chain_keeps_every_operator_in_order() {
    let expected = Expression::InfixOperations(InfixOperationsExpr {
        operands: vec![
            identifier("a"),
            integer(2),
            identifier("c"),
            identifier("d"),
            identifier("e"),
            identifier("f"),
            identifier("g"),
        ],
        operators: vec![
            InfixOperator::Minus,
            InfixOperator::Mul,
            InfixOperator::Div,
            InfixOperator::Pow,
            InfixOperator::FunctionCall,
            InfixOperator::Plus,
        ],
    });
    assert_eq!(parse_str("a - 2 * c / d ^ e . f + g"), Ok(expected));
}

#[test]
fn blank_space_around_a_chain_is_passed_over() {
    let expected = Expression::InfixOperations(InfixOperationsExpr {
        operands: vec![identifier("a"), identifier("b")],
        operators: vec![InfixOperator::Plus],
    });
    assert_eq!(parse_str("  a  +  b  "), Ok(expected));
}

#[test]
fn unclosed_tuple_expects_tokens() {
    assert_eq!(parse_str("(a"), Err(ParseError::ExpectedTokens));
    let mut builder = WrapperExprBuilder::new();
    assert_eq!(builder.add_token(Token::LParen), Ok(None));
    assert_eq!(builder.add_token(identifier_token("a")), Ok(None));
    assert_eq!(builder.finish(), Err(ParseError::ExpectedTokens));
}

#[test]
fn unclosed_tuples_of_any_shape_expect_tokens() {
    assert_eq!(parse_str("("), Err(ParseError::ExpectedTokens));
    assert_eq!(parse_str("(a,"), Err(ParseError::ExpectedTokens));
    assert_eq!(parse_str("(a, b"), Err(ParseError::ExpectedTokens));
    assert_eq!(parse_str("((a)"), Err(ParseError::ExpectedTokens));
}

#[test]
fn no_tokens_is_an_error() {
    assert_eq!(parse_str(""), Err(ParseError::NoTokens));
    assert_eq!(WrapperExprBuilder::new().finish(), Err(ParseError::NoTokens));
    assert_eq!(parse_tokens(Tokens::new(CharSource::new(""))), Err(ParseError::NoTokens));
}

#[test]
fn blank_text_is_no_expression() {
    assert_eq!(parse_str("   "), Err(ParseError::NoTokens));
    assert_eq!(parse_str("___"), Err(ParseError::NoTokens));
}

#[test]
fn single_literals() {
    assert_eq!(parse_str("name"), Ok(identifier("name")));
    assert_eq!(parse_str("42"), Ok(integer(42)));
    assert_eq!(parse_str("0"), Ok(integer(0)));
    assert_eq!(parse_str("4294967295"), Ok(integer(4294967295)));
    assert_eq!(
        parse_str("\"some text\""),
        Ok(Expression::StringLiteral(StringLiteral { content: "some text".to_string() }))
    );
    assert_eq!(
        parse_str("1.23e4"),
        Ok(Expression::RealLiteral(RealLiteral { value: "1.23e4".to_string() }))
    );
}

#[test]
fn integer_beyond_the_range_is_unexpected() {
    assert_eq!(
        parse_str("4294967296"),
        Err(ParseError::UnexpectedToken(Token::Integer("4294967296".to_string())))
    );
    assert_eq!(
        create_new_expression(Token::Integer("12x".to_string())).err(),
        Some(ParseError::UnexpectedToken(Token::Integer("12x".to_string())))
    );
}

#[test]
fn bare_operator_is_unexpected() {
    assert_eq!(parse_str("+"), Err(ParseError::UnexpectedToken(Token::PlusSign)));
    assert_eq!(parse_str(" * a"), Err(ParseError::UnexpectedToken(Token::MulSign)));
}

#[test]
fn two_adjacent_literals_are_an_error() {
    assert_eq!(parse_str("a b"), Err(ParseError::UnexpectedToken(identifier_token("b"))));
    assert_eq!(
        parse_str("1\"x\""),
        Err(ParseError::UnexpectedToken(Token::StringLiteral("x".to_string())))
    );
    assert_eq!(parse_str("a + b c"), Err(ParseError::UnexpectedToken(identifier_token("c"))));
}

#[test]
fn operator_without_operand_expects_tokens() {
    assert_eq!(parse_str("a +"), Err(ParseError::ExpectedTokens));
    assert_eq!(parse_str("a + + b"), Err(ParseError::UnexpectedToken(Token::PlusSign)));
}

#[test]
fn tuples() {
    assert_eq!(parse_str("()"), Err(ParseError::UnexpectedToken(Token::RParen)));
    assert_eq!(parse_str("(a)"), Ok(Expression::Tuple(TupleExpr { values: vec![identifier("a")] })));
    assert_eq!(
        parse_str("( a , 2 ,c)"),
        Ok(Expression::Tuple(TupleExpr { values: vec![identifier("a"), integer(2), identifier("c")] }))
    );
    assert_eq!(
        parse_str("((a), (b,c))"),
        Ok(Expression::Tuple(TupleExpr {
            values: vec![
                Expression::Tuple(TupleExpr { values: vec![identifier("a")] }),
                Expression::Tuple(TupleExpr { values: vec![identifier("b"), identifier("c")] }),
            ],
        }))
    );
    assert_eq!(
        parse_str("(a,)"),
        Err(ParseError::UnexpectedToken(Token::RParen))
    );
}

#[test]
fn chain_inside_a_tuple_and_tuple_inside_a_chain() {
    let chain = Expression::InfixOperations(InfixOperationsExpr {
        operands: vec![identifier("a"), identifier("b")],
        operators: vec![InfixOperator::Plus],
    });
    assert_eq!(
        parse_str("(a + b, c)"),
        Ok(Expression::Tuple(TupleExpr { values: vec![chain, identifier("c")] }))
    );
    assert_eq!(
        parse_str("f.(x, y)"),
        Ok(Expression::InfixOperations(InfixOperationsExpr {
            operands: vec![
                identifier("f"),
                Expression::Tuple(TupleExpr { values: vec![identifier("x"), identifier("y")] }),
            ],
            operators: vec![InfixOperator::FunctionCall],
        }))
    );
}

#[test]
fn token_that_a_tuple_cannot_place_is_an_error() {
    assert_eq!(parse_str("(a b)"), Err(ParseError::UnexpectedToken(identifier_token("b"))));
    assert_eq!(parse_str("(a]"), Err(ParseError::UnexpectedToken(Token::RBrack)));
    assert_eq!(parse_str("(,"), Err(ParseError::UnexpectedToken(Token::Comma)));
    assert_eq!(parse_str(")"), Err(ParseError::UnexpectedToken(Token::RParen)));
    assert_eq!(parse_str("(a))"), Err(ParseError::UnexpectedToken(Token::RParen)));
}

#[test]
fn molecular_formulas() {
    assert_eq!(
        parse_str("$"),
        Ok(Expression::MolecularFormula(MolecularFormulaExpr {
            symbols_and_subscripts: vec![],
            charge: None,
        }))
    );
    assert_eq!(
        parse_str("$H2O"),
        Ok(Expression::MolecularFormula(MolecularFormulaExpr {
            symbols_and_subscripts: vec![identifier("H"), integer(2), identifier("O")],
            charge: None,
        }))
    );
    assert_eq!(
        parse_str("$CO3-2"),
        Ok(Expression::MolecularFormula(MolecularFormulaExpr {
            symbols_and_subscripts: vec![identifier("C"), identifier("O"), integer(3)],
            charge: Some((false, Box::new(integer(2)))),
        }))
    );
    assert_eq!(
        parse_str("$Na+1 "),
        Ok(Expression::MolecularFormula(MolecularFormulaExpr {
            symbols_and_subscripts: vec![identifier("Na")],
            charge: Some((true, Box::new(integer(1)))),
        }))
    );
}

#[test]
fn formula_that_ends_in_a_sign_expects_tokens() {
    assert_eq!(parse_str("$CO3+"), Err(ParseError::ExpectedTokens));
    assert_eq!(parse_str("$CO3+ 2"), Err(ParseError::UnexpectedToken(Token::Whitespace)));
}

#[test]
fn closed_formula_becomes_an_operand() {
    let h2 = Expression::MolecularFormula(MolecularFormulaExpr {
        symbols_and_subscripts: vec![identifier("H"), integer(2)],
        charge: None,
    });
    let o = Expression::MolecularFormula(MolecularFormulaExpr {
        symbols_and_subscripts: vec![identifier("O")],
        charge: None,
    });
    assert_eq!(
        parse_str("$H2 + $O"),
        Ok(Expression::InfixOperations(InfixOperationsExpr {
            operands: vec![h2, o],
            operators: vec![InfixOperator::Plus],
        }))
    );
}

#[test]
fn syntax_without_a_builder_is_unsupported() {
    assert_eq!(parse_str("$$"), Err(ParseError::UnsupportedSyntax));
    assert_eq!(parse_str("$$A"), Err(ParseError::UnsupportedSyntax));
    assert_eq!(parse_str("name!"), Err(ParseError::UnsupportedSyntax));
    assert_eq!(parse_str("name!{x}"), Err(ParseError::UnsupportedSyntax));
    assert!(lookup_special_syntax_builder("name").is_none());
    assert!(SpecialSyntaxExprBuilder::new("name").is_none());
}

#[test]
fn bang_after_anything_but_an_identifier_is_unexpected() {
    assert_eq!(parse_str("1!"), Err(ParseError::UnexpectedToken(Token::Bang)));
    assert_eq!(parse_str("(a)!"), Err(ParseError::UnexpectedToken(Token::Bang)));
    assert_eq!(parse_str("!"), Err(ParseError::UnexpectedToken(Token::Bang)));
}

#[test]
fn literal_builders_hand_every_token_back() {
    let mut identifier = IdentifierExprBuilder::new("a".to_string());
    assert_eq!(identifier.add_token(Token::PlusSign), Ok(Some(Token::PlusSign)));
    assert_eq!(identifier.add_token(Token::Whitespace), Ok(Some(Token::Whitespace)));
    assert_eq!(identifier.parsing_time_identifier(), "a");
    let mut string = StringLiteralExprBuilder::new("s".to_string());
    assert_eq!(string.add_token(Token::Comma), Ok(Some(Token::Comma)));
    let mut integer_builder = IntegerLiteralExprBuilder::new(5);
    assert_eq!(integer_builder.add_token(identifier_token("x")), Ok(Some(identifier_token("x"))));
    assert_eq!(integer_builder.finish(), Ok(integer(5)));
    let mut real = RealLiteralExprBuilder::new("1.5".to_string());
    assert_eq!(real.add_token(Token::Dot), Ok(Some(Token::Dot)));
    assert_eq!(
        real.finish(),
        Ok(Expression::RealLiteral(RealLiteral { value: "1.5".to_string() }))
    );
}

#[test]
fn closed_tuple_rejects_every_later_token() {
    let mut tuple = TupleExprBuilder::new();
    assert_eq!(tuple.add_token(identifier_token("a")), Ok(None));
    assert_eq!(tuple.add_token(Token::RParen), Ok(None));
    assert_eq!(tuple.add_token(Token::RParen), Ok(Some(Token::RParen)));
    assert_eq!(tuple.add_token(Token::Whitespace), Ok(Some(Token::Whitespace)));
    assert_eq!(tuple.add_token(identifier_token("b")), Ok(Some(identifier_token("b"))));
    assert_eq!(tuple.add_token(Token::PlusSign), Ok(Some(Token::PlusSign)));
    assert_eq!(tuple.finish(), Ok(Expression::Tuple(TupleExpr { values: vec![identifier("a")] })));
}

#[test]
fn closed_chain_rejects_every_later_token() {
    let mut chain = InfixOperationsExprBuilder::new(
        ExpressionBuilder::Identifier(IdentifierExprBuilder::new("a".to_string())),
        InfixOperator::Plus,
    );
    assert_eq!(chain.add_token(identifier_token("b")), Ok(None));
    assert_eq!(chain.add_token(Token::Whitespace), Ok(None));
    assert_eq!(chain.add_token(Token::RParen), Ok(Some(Token::RParen)));
    assert_eq!(chain.add_token(Token::PlusSign), Ok(Some(Token::PlusSign)));
    assert_eq!(chain.add_token(Token::Whitespace), Ok(Some(Token::Whitespace)));
    assert_eq!(chain.add_token(identifier_token("c")), Ok(Some(identifier_token("c"))));
    assert_eq!(
        chain.finish(),
        Ok(Expression::InfixOperations(InfixOperationsExpr {
            operands: vec![identifier("a"), identifier("b")],
            operators: vec![InfixOperator::Plus],
        }))
    );
}

#[test]
fn closed_formula_rejects_every_later_token() {
    let mut formula = MolecularFormulaExprBuilder::new();
    assert_eq!(formula.add_token(identifier_token("H")), Ok(None));
    assert_eq!(formula.add_token(Token::Integer("2".to_string())), Ok(None));
    assert_eq!(formula.add_token(Token::Whitespace), Ok(Some(Token::Whitespace)));
    assert_eq!(formula.add_token(identifier_token("O")), Ok(Some(identifier_token("O"))));
    assert_eq!(formula.add_token(Token::PlusSign), Ok(Some(Token::PlusSign)));
    assert_eq!(
        formula.finish(),
        Ok(Expression::MolecularFormula(MolecularFormulaExpr {
            symbols_and_subscripts: vec![identifier("H"), integer(2)],
            charge: None,
        }))
    );
}

#[test]
fn closed_wrapper_rejects_every_later_token() {
    let mut wrapper = WrapperExprBuilder::new();
    assert_eq!(wrapper.add_token(identifier_token("a")), Ok(None));
    assert_eq!(wrapper.add_token(identifier_token("b")), Ok(Some(identifier_token("b"))));
    assert_eq!(wrapper.add_token(Token::PlusSign), Ok(Some(Token::PlusSign)));
    assert_eq!(wrapper.add_token(Token::Whitespace), Ok(Some(Token::Whitespace)));
    assert_eq!(wrapper.finish(), Ok(identifier("a")));
}

#[test]
fn condensed_formula_builder_fails() {
    let mut condensed = CondensedFormulaExprBuilder::new();
    assert_eq!(condensed.add_token(identifier_token("a")), Err(ParseError::UnsupportedSyntax));
    assert_eq!(condensed.finish(), Err(ParseError::UnsupportedSyntax));
}

#[test]
fn wrap_in_infix_builds_on_operators_only() {
    let a = ExpressionBuilder::Identifier(IdentifierExprBuilder::new("a".to_string()));
    match wrap_in_infix(a, Token::MinusSign) {
        Ok((ExpressionBuilder::InfixOperations(_), None)) => {},
        _ => panic!("an operator should start a chain"),
    }
    let b = ExpressionBuilder::Identifier(IdentifierExprBuilder::new("b".to_string()));
    match wrap_in_infix(b, Token::Comma) {
        Ok((ExpressionBuilder::Identifier(builder), Some(Token::Comma))) => {
            assert_eq!(builder.parsing_time_identifier(), "b");
        },
        _ => panic!("a comma should come back with the builder"),
    }
    let five = ExpressionBuilder::IntegerLiteral(IntegerLiteralExprBuilder::new(5));
    assert_eq!(five.parsing_time_identifier(), None);
    match wrap_in_infix(five, Token::Bang) {
        Ok((ExpressionBuilder::IntegerLiteral(_), Some(Token::Bang))) => {},
        _ => panic!("a bang after a number should come back with the builder"),
    }
}

#[test]
fn operator_of_each_token() {
    assert_eq!(InfixOperator::try_from(Token::Dot), Ok(InfixOperator::FunctionCall));
    assert_eq!(InfixOperator::try_from(Token::PlusSign), Ok(InfixOperator::Plus));
    assert_eq!(InfixOperator::try_from(Token::MinusSign), Ok(InfixOperator::Minus));
    assert_eq!(InfixOperator::try_from(Token::MulSign), Ok(InfixOperator::Mul));
    assert_eq!(InfixOperator::try_from(Token::DivSign), Ok(InfixOperator::Div));
    assert_eq!(InfixOperator::try_from(Token::PowSign), Ok(InfixOperator::Pow));
    assert_eq!(InfixOperator::try_from(Token::Comma), Err(Token::Comma));
    assert_eq!(InfixOperator::try_from(identifier_token("x")), Err(identifier_token("x")));
}
