use chem_expr::chem_data::chem_eqn::ChemEqn;
use chem_expr::chem_data::dictionary::{
    BadTypeError, DataType, DictAccessError, Dictionary, UndefinedIdentifierError, Value,
};
use chem_expr::chem_data::elements::{Element, PeriodicTable};
use chem_expr::chem_data::formulas::MolecularFormula;
use chem_expr::chem_data::real_number::RealNumber;

#[test]
fn assigned_values_can_be_read() {
    let mut dict = Dictionary::new();
    dict.assign_value("n", Value::Integer(3));
    dict.assign_value("s", Value::String("text".to_string()));
    assert_eq!(dict.get_value("n"), Ok(&Value::Integer(3)));
    assert_eq!(dict.get_value("s"), Ok(&Value::String("text".to_string())));
    dict.assign_value("n", Value::Integer(4));
    assert_eq!(dict.get_value("n"), Ok(&Value::Integer(4)));
}

#[test]
fn missing_name_is_an_undefined_identifier() {
    let dict = Dictionary::new();
    assert_eq!(
        dict.get_value("nothing"),
        Err(UndefinedIdentifierError { name: "nothing".to_string() })
    );
}

#[test]
fn cleared_value_is_returned_and_gone() {
    let mut dict = Dictionary::new();
    dict.assign_value("n", Value::Integer(3));
    assert_eq!(dict.clear_value("n"), Some(Value::Integer(3)));
    assert_eq!(dict.clear_value("n"), None);
    assert_eq!(dict.get_value("n"), Err(UndefinedIdentifierError { name: "n".to_string() }));
}

#[test]
fn loaded_elements_stand_under_their_symbols() {
    let table = PeriodicTable::new_alphabetic();
    let mut dict = Dictionary::new();
    dict.load_elements(&table);
    let os = table.get_element("Os").unwrap();
    assert_eq!(os.atomic_number, 15);
    assert_eq!(os.name, "oscarinium");
    assert_eq!(dict.get_value("Os"), Ok(&Value::ElementRef(os)));
    assert_eq!(dict.get_value("Al"), Ok(&Value::ElementRef(table.get_element("Al").unwrap())));
    assert!(dict.get_value("alicium").is_err());
}

#[test]
fn later_element_with_the_same_symbol_stays() {
    let mut table = PeriodicTable::new();
    table.add_element(Element::new(1, "X", "first"));
    table.add_element(Element::new(2, "X", "second"));
    assert_eq!(table.len(), 2);
    assert_eq!(table.get_element("X").unwrap().name, "first");
    let mut dict = Dictionary::new();
    dict.load_elements(&table);
    assert_eq!(dict.get_value("X"), Ok(&Value::ElementRef(table.element_at(1))));
}

#[test]
fn unknown_symbol_is_not_in_the_table() {
    let table = PeriodicTable::new_alphabetic();
    assert_eq!(table.len(), 15);
    assert_eq!(table.get_element("A"), None);
    assert_eq!(table.get_element("al"), None);
    assert_eq!(table.get_element("Ch").unwrap().atomic_number, 3);
}

#[test]
fn as_type_unwraps_the_matching_type() {
    let table = PeriodicTable::new_alphabetic();
    let al = table.get_element("Al").unwrap();
    assert_eq!(Value::String("s".to_string()).as_type::<String>(), Ok("s".to_string()));
    assert_eq!(Value::Integer(7).as_type::<u32>(), Ok(7));
    assert_eq!(
        Value::RealNumber(RealNumber::new("1.5".to_string())).as_type::<RealNumber>(),
        Ok(RealNumber { digits: "1.5".to_string() })
    );
    assert_eq!(Value::ElementRef(al).as_type::<&Element>(), Ok(al));
    assert_eq!(
        Value::MolecularFormula(MolecularFormula::new()).as_type::<MolecularFormula>(),
        Ok(MolecularFormula::new())
    );
    assert_eq!(Value::ChemEqn(ChemEqn::new()).as_type::<ChemEqn>(), Ok(ChemEqn::new()));
}

#[test]
fn as_type_fails_with_expected_and_found() {
    let table = PeriodicTable::new_alphabetic();
    let al = table.get_element("Al").unwrap();
    assert_eq!(
        Value::Integer(7).as_type::<String>(),
        Err(BadTypeError { expected_type: DataType::String, found_value: Value::Integer(7) })
    );
    assert_eq!(
        Value::String("s".to_string()).as_type::<u32>(),
        Err(BadTypeError {
            expected_type: DataType::Integer,
            found_value: Value::String("s".to_string()),
        })
    );
    assert_eq!(
        Value::Integer(1).as_type::<RealNumber>(),
        Err(BadTypeError { expected_type: DataType::RealNumber, found_value: Value::Integer(1) })
    );
    assert_eq!(
        Value::Integer(1).as_type::<&Element>(),
        Err(BadTypeError { expected_type: DataType::ElementRef, found_value: Value::Integer(1) })
    );
    assert_eq!(
        Value::ElementRef(al).as_type::<MolecularFormula>(),
        Err(BadTypeError {
            expected_type: DataType::MolecularFormula,
            found_value: Value::ElementRef(al),
        })
    );
    assert_eq!(
        Value::ElementRef(al).as_type::<ChemEqn>(),
        Err(BadTypeError { expected_type: DataType::ChemEqn, found_value: Value::ElementRef(al) })
    );
}

#[test]
fn data_type_of_each_value() {
    let table = PeriodicTable::new_alphabetic();
    let al = table.get_element("Al").unwrap();
    assert_eq!(DataType::from(&Value::String(String::new())), DataType::String);
    assert_eq!(DataType::from(&Value::Integer(0)), DataType::Integer);
    assert_eq!(
        DataType::from(&Value::RealNumber(RealNumber::new("0.5".to_string()))),
        DataType::RealNumber
    );
    assert_eq!(DataType::from(&Value::ElementRef(al)), DataType::ElementRef);
    assert_eq!(
        DataType::from(&Value::MolecularFormula(MolecularFormula::new())),
        DataType::MolecularFormula
    );
    assert_eq!(DataType::from(&Value::ChemEqn(ChemEqn::new())), DataType::ChemEqn);
}

#[test]
fn cloned_value_is_equal() {
    let table = PeriodicTable::new_alphabetic();
    let al = table.get_element("Al").unwrap();
    let mut formula = MolecularFormula::new();
    formula.set_subscr(al, 2);
    let value = Value::MolecularFormula(formula);
    assert_eq!(value.clone(), value);
}

#[test]
fn dictionary_errors_wrap_their_causes() {
    let undefined = DictAccessError::UndefinedId(UndefinedIdentifierError { name: "x".to_string() });
    let bad_type = DictAccessError::BadType(BadTypeError {
        expected_type: DataType::Integer,
        found_value: Value::String("s".to_string()),
    });
    assert_ne!(undefined, bad_type);
    assert!(matches!(undefined, DictAccessError::UndefinedId(_)));
    assert!(matches!(bad_type, DictAccessError::BadType(_)));
}

#[test]
fn values_from_their_contents() {
    let table = PeriodicTable::new_alphabetic();
    let al = table.get_element("Al").unwrap();
    assert_eq!(Value::from("s".to_string()), Value::String("s".to_string()));
    assert_eq!(Value::from(7u32), Value::Integer(7));
    assert_eq!(
        Value::from(RealNumber::new("2.5".to_string())),
        Value::RealNumber(RealNumber { digits: "2.5".to_string() })
    );
    assert_eq!(Value::from(al), Value::ElementRef(al));
    assert_eq!(Value::from(MolecularFormula::new()), Value::MolecularFormula(MolecularFormula::new()));
    assert_eq!(Value::from(ChemEqn::new()), Value::ChemEqn(ChemEqn::new()));
    let mut dict = Dictionary::new();
    dict.assign_value("n", Value::from(9u32));
    assert_eq!(dict.get_value("n"), Ok(&Value::Integer(9)));
}

#[test]
fn dictionary_errors_from_their_causes() {
    assert_eq!(
        DictAccessError::from(UndefinedIdentifierError { name: "x".to_string() }),
        DictAccessError::UndefinedId(UndefinedIdentifierError { name: "x".to_string() })
    );
    assert_eq!(
        DictAccessError::from(BadTypeError {
            expected_type: DataType::String,
            found_value: Value::Integer(1),
        }),
        DictAccessError::BadType(BadTypeError {
            expected_type: DataType::String,
            found_value: Value::Integer(1),
        })
    );
}
