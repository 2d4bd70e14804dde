use chem_expr::chem_data::dictionary::{
    BadTypeError, DataType, Dictionary, UndefinedIdentifierError, Value,
};
use chem_expr::chem_data::elements::{Element, PeriodicTable};
use chem_expr::chem_data::formulas::MolecularFormula;
use chem_expr::parse::expression::parser::parse_str;
use chem_expr::parse::expression::{
    formula_from_values, CondensedFormulaExpr, EvaluationError, Expression, Identifier,
    IntegerLiteral, MolecularFormulaExpr, SpecialSyntaxExpr,
};

fn table_with_hydrogen_and_oxygen() -> PeriodicTable {
    let mut table = PeriodicTable::new();
    table.add_element(Element::new(1, "H", "hydrogen"));
    table.add_element(Element::new(8, "O", "oxygen"));
    table
}

fn subscript_of_hydrogen(text: &str) -> u32 {
    let table = table_with_hydrogen_and_oxygen();
    let mut dict = Dictionary::new();
    dict.load_elements(&table);
    let hydrogen = table.get_element("H").unwrap();
    match parse_str(text).unwrap().evaluate(&dict) {
        Ok(Value::MolecularFormula(formula)) => formula.get_subscr(hydrogen),
        other => panic!("not a formula: {:?}", other),
    }
}

#[test]
fn subscript_defaults_to_one() {
    assert_eq!(subscript_of_hydrogen("$H"), 1);
}

#[test]
fn subscript_is_the_integer_that_follows() {
    assert_eq!(subscript_of_hydrogen("$H2"), 2);
}

#[test]
fn subscripts_of_a_repeated_element_add_up() {
    assert_eq!(subscript_of_hydrogen("$HH2"), 3);
    assert_eq!(subscript_of_hydrogen("$H2OH"), 3);
}

#[test]
fn formula_lists_elements_in_order_of_first_occurrence() {
    let table = table_with_hydrogen_and_oxygen();
    let mut dict = Dictionary::new();
    dict.load_elements(&table);
    let hydrogen = table.get_element("H").unwrap();
    let oxygen = table.get_element("O").unwrap();
    let mut expected = MolecularFormula::new();
    expected.set_subscr(oxygen, 1);
    expected.set_subscr(hydrogen, 3);
    assert_eq!(
        parse_str("$OH2H").unwrap().evaluate(&dict),
        Ok(Value::MolecularFormula(expected))
    );
    assert_eq!(
        parse_str("$").unwrap().evaluate(&dict),
        Ok(Value::MolecularFormula(MolecularFormula::new()))
    );
}

#[test]
fn zero_subscript_leaves_the_element_out() {
    let table = table_with_hydrogen_and_oxygen();
    let mut dict = Dictionary::new();
    dict.load_elements(&table);
    assert_eq!(
        parse_str("$H0").unwrap().evaluate(&dict),
        Ok(Value::MolecularFormula(MolecularFormula::new()))
    );
}

#[test]
fn integer_behind_a_name_is_a_subscript() {
    let table = table_with_hydrogen_and_oxygen();
    let mut dict = Dictionary::new();
    dict.load_elements(&table);
    dict.assign_value("n", Value::Integer(4));
    let hydrogen = table.get_element("H").unwrap();
    let mut expected = MolecularFormula::new();
    expected.set_subscr(hydrogen, 4);
    assert_eq!(
        parse_str("$H'n").unwrap().evaluate(&dict),
        Ok(Value::MolecularFormula(expected))
    );
}

#[test]
fn undefined_identifier_carries_its_name() {
    let dict = Dictionary::new();
    assert_eq!(
        parse_str("nothing").unwrap().evaluate(&dict),
        Err(EvaluationError::UndefinedIdentifier(UndefinedIdentifierError {
            name: "nothing".to_string(),
        }))
    );
    let table = table_with_hydrogen_and_oxygen();
    let mut loaded = Dictionary::new();
    loaded.load_elements(&table);
    assert_eq!(
        parse_str("$HXe").unwrap().evaluate(&loaded),
        Err(EvaluationError::UndefinedIdentifier(UndefinedIdentifierError {
            name: "Xe".to_string(),
        }))
    );
}

#[test]
fn identifier_evaluates_to_a_copy_of_its_value() {
    let table = table_with_hydrogen_and_oxygen();
    let mut dict = Dictionary::new();
    dict.load_elements(&table);
    dict.assign_value("n", Value::Integer(4));
    assert_eq!(parse_str("n").unwrap().evaluate(&dict), Ok(Value::Integer(4)));
    assert_eq!(
        parse_str("O").unwrap().evaluate(&dict),
        Ok(Value::ElementRef(table.get_element("O").unwrap()))
    );
    assert_eq!(dict.get_value("n"), Ok(&Value::Integer(4)));
}

#[test]
fn literals_evaluate_to_their_values() {
    let dict = Dictionary::new();
    assert_eq!(parse_str("17").unwrap().evaluate(&dict), Ok(Value::Integer(17)));
    assert_eq!(
        parse_str("\"hello\"").unwrap().evaluate(&dict),
        Ok(Value::String("hello".to_string()))
    );
}

#[test]
fn value_where_an_element_is_due_is_a_bad_type() {
    let table = table_with_hydrogen_and_oxygen();
    let mut dict = Dictionary::new();
    dict.load_elements(&table);
    dict.assign_value("x", Value::String("text".to_string()));
    assert_eq!(
        parse_str("$2").unwrap().evaluate(&dict),
        Err(EvaluationError::BadType(BadTypeError {
            expected_type: DataType::ElementRef,
            found_value: Value::Integer(2),
        }))
    );
    assert_eq!(
        parse_str("$H'x").unwrap().evaluate(&dict),
        Err(EvaluationError::BadType(BadTypeError {
            expected_type: DataType::ElementRef,
            found_value: Value::String("text".to_string()),
        }))
    );
    let hydrogen = table.get_element("H").unwrap();
    assert_eq!(
        formula_from_values(vec![
            Value::ElementRef(hydrogen),
            Value::Integer(2),
            Value::Integer(3),
        ]),
        Err(EvaluationError::BadType(BadTypeError {
            expected_type: DataType::ElementRef,
            found_value: Value::Integer(3),
        }))
    );
}

#[test]
fn subscript_total_beyond_the_range_is_unsupported() {
    let table = table_with_hydrogen_and_oxygen();
    let hydrogen = table.get_element("H").unwrap();
    assert_eq!(
        formula_from_values(vec![Value::ElementRef(hydrogen), Value::Integer(2147483648)]),
        Err(EvaluationError::Unsupported)
    );
    assert_eq!(
        formula_from_values(vec![
            Value::ElementRef(hydrogen),
            Value::Integer(2147483647),
            Value::ElementRef(hydrogen),
        ]),
        Err(EvaluationError::Unsupported)
    );
    let mut largest = MolecularFormula::new();
    largest.set_subscr(hydrogen, 2147483647);
    assert_eq!(
        formula_from_values(vec![Value::ElementRef(hydrogen), Value::Integer(2147483647)]),
        Ok(largest)
    );
}

#[test]
fn expressions_without_a_value_are_unsupported() {
    let table = table_with_hydrogen_and_oxygen();
    let mut dict = Dictionary::new();
    dict.load_elements(&table);
    dict.assign_value("a", Value::Integer(1));
    assert_eq!(parse_str("a + a").unwrap().evaluate(&dict), Err(EvaluationError::Unsupported));
    assert_eq!(parse_str("(a, a)").unwrap().evaluate(&dict), Err(EvaluationError::Unsupported));
    assert_eq!(parse_str("1.5").unwrap().evaluate(&dict), Err(EvaluationError::Unsupported));
    assert_eq!(parse_str("$H+1").unwrap().evaluate(&dict), Err(EvaluationError::Unsupported));
    let condensed = Expression::CondensedFormula(CondensedFormulaExpr {
        subformulas_and_subscripts: vec![],
        charge: None,
    });
    assert_eq!(condensed.evaluate(&dict), Err(EvaluationError::Unsupported));
    let special = Expression::SpecialSyntax(SpecialSyntaxExpr {
        syntax_name: Identifier { name: "a".to_string() },
        inner_expr: Box::new(Expression::IntegerLiteral(IntegerLiteral { value: 1 })),
    });
    assert_eq!(special.evaluate(&dict), Err(EvaluationError::Unsupported));
}

#[test]
fn errors_in_the_parts_come_before_the_charge() {
    let dict = Dictionary::new();
    let formula = MolecularFormulaExpr {
        symbols_and_subscripts: vec![Expression::Identifier(Identifier { name: "H".to_string() })],
        charge: Some((true, Box::new(Expression::IntegerLiteral(IntegerLiteral { value: 1 })))),
    };
    assert_eq!(
        formula.evaluate(&dict),
        Err(EvaluationError::UndefinedIdentifier(UndefinedIdentifierError {
            name: "H".to_string(),
        }))
    );
}

#[test]
fn evaluation_errors_from_their_causes() {
    assert_eq!(
        EvaluationError::from(UndefinedIdentifierError { name: "x".to_string() }),
        EvaluationError::UndefinedIdentifier(UndefinedIdentifierError { name: "x".to_string() })
    );
    assert_eq!(
        EvaluationError::from(BadTypeError {
            expected_type: DataType::Integer,
            found_value: Value::Integer(1),
        }),
        EvaluationError::BadType(BadTypeError {
            expected_type: DataType::Integer,
            found_value: Value::Integer(1),
        })
    );
}
