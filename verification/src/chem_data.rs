//! What the language talks about: elements, formulas, equations, and the
//! dictionary of named values.

pub mod chem_eqn;
pub mod dictionary;
pub mod elements;
pub mod equations;
pub mod formulas;
pub mod parser;
pub mod real_number;
