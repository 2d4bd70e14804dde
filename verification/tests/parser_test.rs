use chem_expr::chem_data::dictionary::{Dictionary, Value};
use chem_expr::chem_data::elements::{Element, PeriodicTable};
use chem_expr::chem_data::formulas::MolecularFormula;
use chem_expr::helper::peek_iter::CharSource;
use chem_expr::parse::parse_with_dict::{parse_element_with_dict, parse_molecular_formula_with_dict};
use chem_expr::parse::parser::{ParseError, Parser};
use chem_expr::parse::tokens::{Token, Tokens};
use chem_expr::parse::try_from_str_with_dict::FromStrWithDict;

#[test]
fn parses_elements_correctly() {
    let p_table = PeriodicTable::new_alphabetic();
    let mut dict = Dictionary::new();
    dict.load_elements(&p_table);

    let element = |sym| p_table.get_element(sym).unwrap();

    let mut parser = Parser::from("AlBo Ch;Dv");
    assert_eq!(parser.parse_element(&dict), Ok(element("Al")));
    assert_eq!(parser.parse_element(&dict), Ok(element("Bo")));
    parser.skip_leading_whitespace();
    assert_eq!(parser.parse_element(&dict), Ok(element("Ch")));
    assert_eq!(
        parser.parse_element(&dict),
        Err(ParseError::UnexpectedSyntax(Token::Unknown(
            ";".to_string()
        )))
    );
    parser.get_raw_token();
    assert_eq!(parser.parse_element(&dict), Ok(element("Dv")));
}

#[test]
fn parses_molecular_formulas_correctly() {
    let p_table = PeriodicTable::new_alphabetic();
    let mut dict = Dictionary::new();
    dict.load_elements(&p_table);

    let element = |sym| p_table.get_element(sym).unwrap();

    let mut formula_a = MolecularFormula::new();
    formula_a.set_subscr(&element("Al"), 1);
    formula_a.set_subscr(&element("Ch"), 3);
    formula_a.set_subscr(&element("Bo"), 1);

    let mut formula_b = MolecularFormula::new();
    formula_b.set_subscr(&element("Dv"), 2);
    formula_b.set_subscr(&element("Er"), 4);

    let formula_c = MolecularFormula::new();

    let mut parser = Parser::from(".AlCh3Bo .Dv2Er4 . hey.Al2C");
    assert_eq!(parser.parse_molecular_formula(&dict), Ok(formula_a));
    parser.skip_leading_whitespace();
    assert_eq!(parser.parse_molecular_formula(&dict), Ok(formula_b));
    parser.skip_leading_whitespace();
    assert_eq!(parser.parse_molecular_formula(&dict), Ok(formula_c));
    parser.skip_leading_whitespace();
    assert_eq!(
        parser.parse_molecular_formula(&dict),
        Err(ParseError::InvalidIdentifier(Token::Identifier(
            "hey".to_string()
        )))
    );
    parser.get_raw_token();
    assert_eq!(
        parser.parse_molecular_formula(&dict),
        Err(ParseError::InvalidIdentifier(Token::Identifier(
            "C".to_string()
        )))
    );
    assert_eq!(
        parser.get_raw_token().unwrap(),
        Token::Identifier("C".to_string())
    );
}

#[test]
fn element_at_the_end_of_the_stream() {
    let p_table = PeriodicTable::new_alphabetic();
    let mut dict = Dictionary::new();
    dict.load_elements(&p_table);
    let mut parser = Parser::new(Tokens::new(CharSource::new("")));
    assert_eq!(parser.parse_element(&dict), Err(ParseError::EndOfStream));
    assert_eq!(parser.parse_integer(&dict), Err(ParseError::EndOfStream));
    assert_eq!(parser.parse_molecular_formula(&dict), Err(ParseError::EndOfStream));
    assert_eq!(parser.get_raw_token(), None);
}

#[test]
fn identifier_that_is_no_element_is_invalid() {
    let p_table = PeriodicTable::new_alphabetic();
    let mut dict = Dictionary::new();
    dict.load_elements(&p_table);
    dict.assign_value("n", Value::Integer(5));
    let mut parser = Parser::from("n Xy");
    assert_eq!(
        parser.parse_element(&dict),
        Err(ParseError::InvalidIdentifier(Token::Identifier("n".to_string())))
    );
    assert_eq!(parser.get_raw_token(), Some(Token::Identifier("n".to_string())));
    parser.skip_leading_whitespace();
    assert_eq!(
        parser.parse_element(&dict),
        Err(ParseError::InvalidIdentifier(Token::Identifier("Xy".to_string())))
    );
}

#[test]
fn expect_element_consumes_only_elements() {
    let p_table = PeriodicTable::new_alphabetic();
    let mut dict = Dictionary::new();
    dict.load_elements(&p_table);
    let mut parser = Parser::from("Al3");
    assert_eq!(parser.expect_element(&dict), Some(p_table.get_element("Al").unwrap()));
    assert_eq!(parser.expect_element(&dict), None);
    assert_eq!(parser.get_raw_token(), Some(Token::Integer("3".to_string())));
    assert_eq!(parser.expect_element(&dict), None);
}

#[test]
fn integers_from_numerals_and_names() {
    let mut dict = Dictionary::new();
    dict.assign_value("n", Value::Integer(5));
    dict.assign_value("s", Value::String("five".to_string()));
    let mut parser = Parser::from("12 n s 4294967296 4294967295(");
    assert_eq!(parser.parse_integer(&dict), Ok(12));
    assert_eq!(parser.parse_integer(&dict), Err(ParseError::UnexpectedSyntax(Token::Whitespace)));
    parser.skip_leading_whitespace();
    assert_eq!(parser.parse_integer(&dict), Ok(5));
    parser.skip_leading_whitespace();
    assert_eq!(
        parser.parse_integer(&dict),
        Err(ParseError::InvalidIdentifier(Token::Identifier("s".to_string())))
    );
    parser.get_raw_token();
    parser.skip_leading_whitespace();
    assert_eq!(
        parser.parse_integer(&dict),
        Err(ParseError::UnexpectedSyntax(Token::Integer("4294967296".to_string())))
    );
    parser.get_raw_token();
    parser.skip_leading_whitespace();
    assert_eq!(parser.parse_integer(&dict), Ok(4294967295));
    assert_eq!(parser.parse_integer(&dict), Err(ParseError::UnexpectedSyntax(Token::LParen)));
}

#[test]
fn skip_leading_whitespace_drops_every_blank_token() {
    let dict = Dictionary::new();
    let mut parser = Parser::from("  _ \t x");
    parser.skip_leading_whitespace();
    assert_eq!(parser.get_raw_token(), Some(Token::Identifier("x".to_string())));
    parser.skip_leading_whitespace();
    assert_eq!(parser.parse_element(&dict), Err(ParseError::EndOfStream));
}

#[test]
fn formula_behind_a_name() {
    let p_table = PeriodicTable::new_alphabetic();
    let mut dict = Dictionary::new();
    dict.load_elements(&p_table);
    let mut water = MolecularFormula::new();
    water.set_subscr(p_table.get_element("He").unwrap(), 2);
    water.set_subscr(p_table.get_element("Os").unwrap(), 1);
    dict.assign_value("water", Value::MolecularFormula(water.clone()));
    let mut parser = Parser::from("water+");
    assert_eq!(parser.parse_molecular_formula(&dict), Ok(water));
    assert_eq!(
        parser.parse_molecular_formula(&dict),
        Err(ParseError::UnexpectedSyntax(Token::PlusSign))
    );
    assert_eq!(parser.get_raw_token(), Some(Token::PlusSign));
}

#[test]
fn later_subscript_replaces_the_earlier_one() {
    let p_table = PeriodicTable::new_alphabetic();
    let mut dict = Dictionary::new();
    dict.load_elements(&p_table);
    let al = p_table.get_element("Al").unwrap();
    let mut expected = MolecularFormula::new();
    expected.set_subscr(al, 5);
    assert_eq!(parse_molecular_formula_with_dict(&dict, ".Al2Al5"), Ok(expected));
    assert_eq!(parse_molecular_formula_with_dict(&dict, ".Al2Al0"), Ok(MolecularFormula::new()));
}

#[test]
fn subscript_beyond_the_range_is_left_unread() {
    let p_table = PeriodicTable::new_alphabetic();
    let mut dict = Dictionary::new();
    dict.load_elements(&p_table);
    let al = p_table.get_element("Al").unwrap();
    let mut expected = MolecularFormula::new();
    expected.set_subscr(al, 1);
    let mut parser = Parser::from(".Al2147483648");
    assert_eq!(parser.parse_molecular_formula(&dict), Ok(expected));
    assert_eq!(parser.get_raw_token(), Some(Token::Integer("2147483648".to_string())));
    let mut largest = MolecularFormula::new();
    largest.set_subscr(al, 2147483647);
    assert_eq!(parse_molecular_formula_with_dict(&dict, ".Al2147483647"), Ok(largest));
}

#[test]
fn parsing_off_the_front_of_a_text() {
    let p_table = PeriodicTable::new_alphabetic();
    let mut dict = Dictionary::new();
    dict.load_elements(&p_table);
    let bo = p_table.get_element("Bo").unwrap();
    assert_eq!(parse_element_with_dict(&dict, "Bo2"), Ok(bo));
    assert_eq!(
        parse_element_with_dict(&dict, " Bo"),
        Err(ParseError::UnexpectedSyntax(Token::Whitespace))
    );
    assert_eq!(parse_element_with_dict(&dict, ""), Err(ParseError::EndOfStream));
    let mut expected = MolecularFormula::new();
    expected.set_subscr(bo, 2);
    assert_eq!(parse_molecular_formula_with_dict(&dict, ".Bo2 rest"), Ok(expected.clone()));
    assert_eq!(<&Element>::from_str_w_dict(&dict, "Bo"), Ok(bo));
    assert_eq!(MolecularFormula::from_str_w_dict(&dict, ".Bo2"), Ok(expected));
    assert_eq!(
        MolecularFormula::from_str_w_dict(&dict, "Bo"),
        Err(ParseError::InvalidIdentifier(Token::Identifier("Bo".to_string())))
    );
}
