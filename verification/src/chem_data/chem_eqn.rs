//! Chemical equations: species with signed coefficients.

use crate::chem_data::elements::ElementView;
use crate::chem_data::formulas::MolecularFormula;
use crate::helper::coeff_vec::{coeff_of, coeffs_wf, with_coeff, CoeffVec};
use vstd::prelude::*;

verus! {

pub use crate::helper::coeff_vec::Num;

/// A species as the view of an equation shows it: its elements with their
/// subscripts.
pub type SpeciesView = Seq<(ElementView, Num)>;

/// A chemical equation. A species with a positive coefficient is a product,
/// one with a negative coefficient is a reactant.
#[derive(Debug, PartialEq)]
pub struct ChemEqn<'a> {
    specieses: CoeffVec<MolecularFormula<'a>>,
}

impl<'a> View for ChemEqn<'a> {
    type V = Seq<(SpeciesView, Num)>;

    closed spec fn view(&self) -> Self::V {
        self.specieses@
    }
}

impl<'a> ChemEqn<'a> {
    /// No species occurs twice and no coefficient is zero.
    pub open spec fn wf(&self) -> bool {
        coeffs_wf(self@)
    }

    /// The equation without species.
    pub fn new() -> (r: Self)
        ensures
            r.wf(),
            r@ == Seq::<(SpeciesView, Num)>::empty(),
    {
        ChemEqn { specieses: CoeffVec::new() }
    }

    /// Sets the coefficient of `species`; with 0 the species leaves the
    /// equation.
    pub fn set_coeff(&mut self, species: &MolecularFormula<'a>, new_coeff: Num)
        requires
            old(self).wf(),
        ensures
            final(self).wf(),
            final(self)@ == with_coeff(old(self)@, species@, new_coeff),
    {
        self.specieses.set_coeff(species, new_coeff);
    }

    /// The coefficient of `species`: 0 where the equation does not hold it.
    pub fn get_coeff(&self, species: &MolecularFormula<'a>) -> (r: Num)
        ensures
            r == coeff_of(self@, species@),
    {
        self.specieses.get_coeff(species)
    }
}

impl<'a> Clone for ChemEqn<'a> {
    fn clone(&self) -> (r: Self)
        ensures
            r@ == self@,
    {
        ChemEqn { specieses: self.specieses.clone() }
    }
}

impl<'a> Default for ChemEqn<'a> {
    fn default() -> (r: Self)
        ensures
            r.wf(),
            r@ == Seq::<(SpeciesView, Num)>::empty(),
    {
        Self::new()
    }
}

} // verus!
