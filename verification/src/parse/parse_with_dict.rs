//! Reading an element or a formula off the front of a text.

use crate::chem_data::dictionary::Dictionary;
use crate::chem_data::elements::Element;
use crate::chem_data::formulas::MolecularFormula;
use crate::parse::parser::{element_at_front, formula_at_front, ParseError, Parser};
use crate::parse::tokens::tokens_of;
use vstd::prelude::*;

verus! {

/// The element that the text starts with.
pub fn parse_element_with_dict<'d>(dict: &Dictionary<'d>, string: &str) -> (r: Result<
    &'d Element,
    ParseError,
>)
    ensures
        match element_at_front(tokens_of(string@), dict@) {
            Ok(element) => r matches Ok(read) && read@ == element,
            Err(failure) => r matches Err(error) && error@ == failure,
        },
{
    let mut parser = Parser::from(string);
    parser.parse_element(dict)
}

/// The molecular formula that the text starts with.
pub fn parse_molecular_formula_with_dict<'d>(dict: &Dictionary<'d>, string: &str) -> (r: Result<
    MolecularFormula<'d>,
    ParseError,
>)
    ensures
        match formula_at_front(tokens_of(string@), dict@).outcome {
            Ok(formula) => r matches Ok(read) && read@ == formula,
            Err(failure) => r matches Err(error) && error@ == failure,
        },
{
    let mut parser = Parser::from(string);
    parser.parse_molecular_formula(dict)
}

} // verus!
