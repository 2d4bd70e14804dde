//! Equations under their shorter name.

use crate::chem_data::chem_eqn::ChemEqn;
use vstd::prelude::*;

verus! {

pub use crate::helper::coeff_vec::Num;

/// A chemical equation.
pub type Equation<'a> = ChemEqn<'a>;

} // verus!
