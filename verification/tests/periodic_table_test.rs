use chem_expr::chem_data::elements::{Element, PeriodicTable};
use chem_expr::helper::text::{chars_of, parse_i32_at, run_end, string_of, CharClass};

fn alphabetic_text() -> String {
    "\
            1 Al alicium
            2 Bo bobbium
            3 Ch charlium
            4 Dv davidium
            5 Er erinium
            6 Fr frankium
            7 Gr gracium
            8 He heidium
            9 Iv ivanine
            10 Js joshine
            11 Kv kevinium
            12 Ll lilium
            13 Mk mikine
            14 Nc nancium
            15 Os oscarinium"
        .to_string()
}

fn same_elements(left: &PeriodicTable, right: &PeriodicTable) -> bool {
    if left.len() != right.len() {
        return false;
    }
    for i in 0..left.len() {
        if left.element_at(i) != right.element_at(i) {
            return false;
        }
    }
    true
}

#[test]
fn alphabetic_table_is_what_its_text_describes() {
    let from_text = PeriodicTable::from(alphabetic_text());
    let built = PeriodicTable::new_alphabetic();
    assert_eq!(from_text.len(), 15);
    assert!(same_elements(&from_text, &built));
    assert_eq!(
        *built.element_at(9),
        Element { atomic_number: 10, symbol: "Js".to_string(), name: "joshine".to_string() }
    );
}

#[test]
fn table_text_with_every_sort_of_line_ending() {
    let table = PeriodicTable::parse("1 H hydrogen\r\n-2\tX\tanti extra fields\n+3 Li lithium\n").unwrap();
    assert_eq!(table.len(), 3);
    assert_eq!(*table.element_at(0), Element::new(1, "H", "hydrogen"));
    assert_eq!(*table.element_at(1), Element::new(-2, "X", "anti"));
    assert_eq!(*table.element_at(2), Element::new(3, "Li", "lithium"));
    assert_eq!(PeriodicTable::parse("").unwrap().len(), 0);
    assert_eq!(PeriodicTable::parse("8 O oxygen").unwrap().len(), 1);
}

#[test]
fn table_text_with_a_bad_line_describes_no_table() {
    assert!(PeriodicTable::parse("1 H").is_none());
    assert!(PeriodicTable::parse("1").is_none());
    assert!(PeriodicTable::parse("\n").is_none());
    assert!(PeriodicTable::parse("1 H hydrogen\n\n2 He helium").is_none());
    assert!(PeriodicTable::parse("one H hydrogen").is_none());
    assert!(PeriodicTable::parse("2147483648 H hydrogen").is_none());
    assert!(PeriodicTable::parse("1.5 H hydrogen").is_none());
    assert!(PeriodicTable::parse("- H hydrogen").is_none());
    assert!(PeriodicTable::parse("1 H hydrogen\n   ").is_none());
}

#[test]
fn signed_numerals() {
    let chars = chars_of("x-2147483648 +17 2147483647 -2147483649 +");
    assert_eq!(parse_i32_at(&chars, 1, 12), Some(-2147483648));
    assert_eq!(parse_i32_at(&chars, 13, 16), Some(17));
    assert_eq!(parse_i32_at(&chars, 14, 16), Some(17));
    assert_eq!(parse_i32_at(&chars, 17, 27), Some(2147483647));
    assert_eq!(parse_i32_at(&chars, 28, 39), None);
    assert_eq!(parse_i32_at(&chars, 40, 41), None);
    assert_eq!(parse_i32_at(&chars, 0, 3), None);
    assert_eq!(parse_i32_at(&chars, 5, 5), None);
    assert_eq!(parse_i32_at(&chars, 1, 2), None);
}

#[test]
fn runs_and_strings_of_characters() {
    let chars = chars_of("  abc12 ");
    assert_eq!(chars.len(), 8);
    assert_eq!(run_end(&chars, 0, 8, CharClass::Whitespace), 2);
    assert_eq!(run_end(&chars, 2, 8, CharClass::Lowercase), 5);
    assert_eq!(run_end(&chars, 2, 4, CharClass::Lowercase), 4);
    assert_eq!(run_end(&chars, 2, 8, CharClass::NonWhitespace), 7);
    assert_eq!(run_end(&chars, 2, 8, CharClass::Digit), 2);
    assert_eq!(run_end(&chars, 0, 8, CharClass::LineBody), 8);
    assert_eq!(string_of(&chars, 2, 7), "abc12");
    assert_eq!(string_of(&chars, 3, 3), "");
}
