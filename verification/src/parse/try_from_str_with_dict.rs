//! Values that can be read off a text, given a dictionary.

use crate::chem_data::dictionary::{Dictionary, ValueView};
use crate::chem_data::elements::Element;
use crate::chem_data::formulas::MolecularFormula;
use crate::parse::parse_with_dict::{parse_element_with_dict, parse_molecular_formula_with_dict};
use crate::parse::parser::{element_at_front, formula_at_front, ParseError};
use crate::parse::tokens::tokens_of;
use vstd::prelude::*;

verus! {

/// A sort of value that a text can start with.
pub trait FromStrWithDict<'d>: Sized {
    /// Whether `r` is what reading a `Self` off the front of `text` comes
    /// to.
    spec fn reads_as(dict: Map<Seq<char>, ValueView>, text: Seq<char>, r: Result<Self, ParseError>) -> bool;

    /// Reads a `Self` off the front of `string`.
    fn from_str_w_dict(dict: &Dictionary<'d>, string: &str) -> (r: Result<Self, ParseError>)
        ensures
            Self::reads_as(dict@, string@, r),
    ;
}

impl<'d> FromStrWithDict<'d> for &'d Element {
    open spec fn reads_as(
        dict: Map<Seq<char>, ValueView>,
        text: Seq<char>,
        r: Result<Self, ParseError>,
    ) -> bool {
        match element_at_front(tokens_of(text), dict) {
            Ok(element) => r matches Ok(read) && read@ == element,
            Err(failure) => r matches Err(error) && error@ == failure,
        }
    }

    fn from_str_w_dict(dict: &Dictionary<'d>, string: &str) -> (r: Result<Self, ParseError>) {
        parse_element_with_dict(dict, string)
    }
}

impl<'d> FromStrWithDict<'d> for MolecularFormula<'d> {
    open spec fn reads_as(
        dict: Map<Seq<char>, ValueView>,
        text: Seq<char>,
        r: Result<Self, ParseError>,
    ) -> bool {
        match formula_at_front(tokens_of(text), dict).outcome {
            Ok(formula) => r matches Ok(read) && read@ == formula,
            Err(failure) => r matches Err(error) && error@ == failure,
        }
    }

    fn from_str_w_dict(dict: &Dictionary<'d>, string: &str) -> (r: Result<Self, ParseError>) {
        parse_molecular_formula_with_dict(dict, string)
    }
}

} // verus!
