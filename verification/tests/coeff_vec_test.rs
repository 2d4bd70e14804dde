use chem_expr::chem_data::chem_eqn::ChemEqn;
use chem_expr::chem_data::elements::{Element, PeriodicTable};
use chem_expr::chem_data::equations::Equation;
use chem_expr::chem_data::formulas::MolecularFormula;
use chem_expr::helper::coeff_vec::CoeffVec;

#[test]
fn coefficient_of_an_absent_key_is_zero() {
    let table = PeriodicTable::new_alphabetic();
    let al = table.get_element("Al").unwrap();
    let coeffs: CoeffVec<&Element> = CoeffVec::new();
    assert_eq!(coeffs.get_coeff(&al), 0);
    assert_eq!(coeffs.len(), 0);
}

#[test]
fn set_coeff_replaces_in_place_and_appends_new_keys() {
    let table = PeriodicTable::new_alphabetic();
    let al = table.get_element("Al").unwrap();
    let bo = table.get_element("Bo").unwrap();
    let ch = table.get_element("Ch").unwrap();
    let mut coeffs: CoeffVec<&Element> = CoeffVec::new();
    coeffs.set_coeff(&al, 1);
    coeffs.set_coeff(&bo, -2);
    coeffs.set_coeff(&ch, 3);
    coeffs.set_coeff(&al, 7);
    assert_eq!(coeffs.len(), 3);
    assert_eq!(coeffs.pair_at(0), (&al, 7));
    assert_eq!(coeffs.pair_at(1), (&bo, -2));
    assert_eq!(coeffs.pair_at(2), (&ch, 3));
    assert_eq!(coeffs.get_coeff(&bo), -2);
}

#[test]
fn zero_coefficient_removes_the_key() {
    let table = PeriodicTable::new_alphabetic();
    let al = table.get_element("Al").unwrap();
    let bo = table.get_element("Bo").unwrap();
    let mut coeffs: CoeffVec<&Element> = CoeffVec::new();
    coeffs.set_coeff(&al, 1);
    coeffs.set_coeff(&bo, 2);
    coeffs.set_coeff(&al, 0);
    assert_eq!(coeffs.len(), 1);
    assert_eq!(coeffs.get_coeff(&al), 0);
    assert_eq!(coeffs.pair_at(0), (&bo, 2));
    coeffs.set_coeff(&al, 0);
    assert_eq!(coeffs.len(), 1);
}

#[test]
fn addition_sums_key_by_key() {
    let table = PeriodicTable::new_alphabetic();
    let al = table.get_element("Al").unwrap();
    let bo = table.get_element("Bo").unwrap();
    let ch = table.get_element("Ch").unwrap();
    let mut left: CoeffVec<&Element> = CoeffVec::new();
    left.set_coeff(&al, 1);
    left.set_coeff(&bo, 2);
    let mut right: CoeffVec<&Element> = CoeffVec::new();
    right.set_coeff(&ch, 4);
    right.set_coeff(&al, 3);
    right.set_coeff(&bo, -2);
    let sum = left.add(right);
    assert_eq!(sum.len(), 2);
    assert_eq!(sum.pair_at(0), (&al, 4));
    assert_eq!(sum.pair_at(1), (&ch, 4));
    assert_eq!(sum.get_coeff(&bo), 0);
}

#[test]
fn multiplication_scales_and_zero_clears() {
    let table = PeriodicTable::new_alphabetic();
    let al = table.get_element("Al").unwrap();
    let bo = table.get_element("Bo").unwrap();
    let mut coeffs: CoeffVec<&Element> = CoeffVec::new();
    coeffs.set_coeff(&al, 1);
    coeffs.set_coeff(&bo, -2);
    coeffs.mul_assign(3);
    assert_eq!(coeffs.get_coeff(&al), 3);
    assert_eq!(coeffs.get_coeff(&bo), -6);
    let cleared = coeffs.mul(0);
    assert_eq!(cleared.len(), 0);
    assert_eq!(cleared.get_coeff(&al), 0);
}

#[test]
fn clone_and_same_agree() {
    let table = PeriodicTable::new_alphabetic();
    let al = table.get_element("Al").unwrap();
    let mut coeffs: CoeffVec<&Element> = CoeffVec::new();
    coeffs.set_coeff(&al, 5);
    let copy = coeffs.clone();
    assert!(coeffs.same(&copy));
    assert_eq!(coeffs, copy);
    let mut other = copy.clone();
    other.set_coeff(&al, 6);
    assert!(!coeffs.same(&other));
}

#[test]
fn formula_subscripts() {
    let table = PeriodicTable::new_alphabetic();
    let al = table.get_element("Al").unwrap();
    let bo = table.get_element("Bo").unwrap();
    let mut formula = MolecularFormula::new();
    assert_eq!(formula.get_subscr(al), 0);
    formula.set_subscr(al, 2);
    formula.set_subscr(bo, 3);
    assert_eq!(formula.get_subscr(al), 2);
    assert_eq!(formula.get_subscr(bo), 3);
    formula.set_subscr(al, 0);
    assert_eq!(formula.get_subscr(al), 0);
    assert_eq!(formula.len(), 1);
    assert_eq!(formula.pair_at(0), (bo, 3));
    assert_eq!(MolecularFormula::default(), MolecularFormula::new());
}

#[test]
fn formulas_add_and_multiply() {
    let table = PeriodicTable::new_alphabetic();
    let al = table.get_element("Al").unwrap();
    let bo = table.get_element("Bo").unwrap();
    let ch = table.get_element("Ch").unwrap();
    let mut left = MolecularFormula::new();
    left.set_subscr(al, 1);
    left.set_subscr(bo, 2);
    let mut right = MolecularFormula::new();
    right.set_subscr(al, 3);
    right.set_subscr(ch, 4);
    let sum = left.add(right);
    let mut expected = MolecularFormula::new();
    expected.set_subscr(al, 4);
    expected.set_subscr(bo, 2);
    expected.set_subscr(ch, 4);
    assert_eq!(sum, expected);
    let doubled = sum.mul(2);
    assert_eq!(doubled.get_subscr(al), 8);
    assert_eq!(doubled.get_subscr(bo), 4);
    assert_eq!(doubled.get_subscr(ch), 8);
    assert_eq!(doubled.mul(0), MolecularFormula::new());
}

#[test]
fn equation_coefficients() {
    let table = PeriodicTable::new_alphabetic();
    let al = table.get_element("Al").unwrap();
    let bo = table.get_element("Bo").unwrap();
    let mut reactant = MolecularFormula::new();
    reactant.set_subscr(al, 2);
    let mut product = MolecularFormula::new();
    product.set_subscr(al, 1);
    product.set_subscr(bo, 1);
    let mut eqn = ChemEqn::new();
    eqn.set_coeff(&reactant, -1);
    eqn.set_coeff(&product, 2);
    assert_eq!(eqn.get_coeff(&reactant), -1);
    assert_eq!(eqn.get_coeff(&product), 2);
    assert_eq!(eqn.get_coeff(&MolecularFormula::new()), 0);
    eqn.set_coeff(&reactant, 0);
    assert_eq!(eqn.get_coeff(&reactant), 0);
    assert_eq!(eqn.clone(), eqn);
    let mut other: Equation = Equation::new();
    other.set_coeff(&product, 2);
    assert_eq!(other, eqn);
    assert_eq!(ChemEqn::default(), ChemEqn::new());
}
