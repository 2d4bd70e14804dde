//! Molecular formulas: how many atoms of which element.

use crate::chem_data::elements::{Element, ElementView};
use crate::helper::coeff_vec::{
    coeff_of, coeffs_wf, fits, index_of, lemma_index_of, lemma_with_coeff, products_fit, scaled,
    sum_of, sums_fit, with_coeff, CoeffKey, CoeffVec, Num,
};
use vstd::prelude::*;

verus! {

/// Every coefficient is positive.
pub open spec fn all_positive<K>(pairs: Seq<(K, Num)>) -> bool {
    forall|i: int| 0 <= i < pairs.len() ==> (#[trigger] pairs[i]).1 > 0
}

/// The elements of a molecule, each with the number of its atoms.
///
/// The view lists the elements in the order in which they first got a
/// subscript.
#[derive(Debug, PartialEq)]
pub struct MolecularFormula<'a> {
    element_count: CoeffVec<&'a Element>,
}

impl<'a> View for MolecularFormula<'a> {
    type V = Seq<(ElementView, Num)>;

    closed spec fn view(&self) -> Self::V {
        self.element_count@
    }
}

impl<'a> MolecularFormula<'a> {
    /// No element occurs twice and every subscript is positive.
    pub open spec fn wf(&self) -> bool {
        coeffs_wf(self@) && all_positive(self@)
    }

    /// The formula without elements.
    pub fn new() -> (r: Self)
        ensures
            r.wf(),
            r@ == Seq::<(ElementView, Num)>::empty(),
    {
        MolecularFormula { element_count: CoeffVec::new() }
    }

    /// Sets the subscript of `element`; with 0 the element leaves the
    /// formula.
    pub fn set_subscr(&mut self, element: &'a Element, new_subscript: u32)
        requires
            old(self).wf(),
            new_subscript <= i32::MAX,
        ensures
            final(self).wf(),
            final(self)@ == with_coeff(old(self)@, element@, new_subscript as Num),
    {
        let new_subscript = new_subscript as i32;
        proof {
            lemma_with_coeff_positive(self@, element@, new_subscript);
        }
        self.element_count.set_coeff(&element, new_subscript);
    }

    /// The subscript of `element`: 0 where the formula does not hold it.
    pub fn get_subscr(&self, element: &'a Element) -> (r: u32)
        ensures
            r == if coeff_of(self@, element@) >= 0 {
                coeff_of(self@, element@) as int
            } else {
                -coeff_of(self@, element@)
            },
            self.wf() ==> r == coeff_of(self@, element@),
    {
        proof {
            lemma_index_of(self@, element@);
        }
        let subscript = self.element_count.get_coeff(&element);
        if subscript >= 0 {
            subscript as u32
        } else {
            (0 - (subscript as i64)) as u32
        }
    }

    /// Adds the atoms of `rhs` to this formula.
    pub fn add_assign(&mut self, rhs: Self)
        requires
            old(self).wf(),
            rhs.wf(),
            sums_fit(old(self)@, rhs@),
        ensures
            final(self).wf(),
            final(self)@ == sum_of(old(self)@, rhs@),
    {
        proof {
            lemma_sum_of_positive(self@, rhs@);
        }
        self.element_count.add_assign(rhs.element_count);
    }

    /// The atoms of both formulas together.
    pub fn add(self, rhs: Self) -> (r: Self)
        requires
            self.wf(),
            rhs.wf(),
            sums_fit(self@, rhs@),
        ensures
            r.wf(),
            r@ == sum_of(self@, rhs@),
    {
        let mut sum = self;
        sum.add_assign(rhs);
        sum
    }

    /// Takes the formula `rhs` times.
    pub fn mul_assign(&mut self, rhs: u32)
        requires
            old(self).wf(),
            rhs <= i32::MAX,
            products_fit(old(self)@, rhs as Num),
        ensures
            final(self).wf(),
            final(self)@ == scaled(old(self)@, rhs as Num),
    {
        proof {
            let factor = rhs as Num;
            let after = scaled(self@, factor);
            assert forall|i: int| 0 <= i < after.len() implies (#[trigger] after[i]).1 > 0 by {
                let c = self@[i].1;
                assert(c * factor > 0) by (nonlinear_arith)
                    requires
                        c > 0,
                        factor > 0,
                ;
            }
        }
        self.element_count.mul_assign(rhs as i32);
    }

    /// The formula taken `rhs` times.
    pub fn mul(self, rhs: u32) -> (r: Self)
        requires
            self.wf(),
            rhs <= i32::MAX,
            products_fit(self@, rhs as Num),
        ensures
            r.wf(),
            r@ == scaled(self@, rhs as Num),
    {
        let mut product = self;
        product.mul_assign(rhs);
        product
    }

    /// How many elements the formula holds.
    pub fn len(&self) -> (r: usize)
        ensures
            r == self@.len(),
    {
        self.element_count.len()
    }

    /// The element at place `i` and its subscript.
    pub fn pair_at(&self, i: usize) -> (r: (&'a Element, Num))
        requires
            i < self@.len(),
        ensures
            r.0@ == self@[i as int].0,
            r.1 == self@[i as int].1,
    {
        let (element, subscript) = self.element_count.pair_at(i);
        (*element, subscript)
    }
}

/// Setting a subscript that is not negative keeps every subscript positive.
pub proof fn lemma_with_coeff_positive<K>(pairs: Seq<(K, Num)>, key: K, coeff: Num)
    requires
        all_positive(pairs),
        coeff >= 0,
    ensures
        all_positive(with_coeff(pairs, key, coeff)),
{
    lemma_index_of(pairs, key);
    let after = with_coeff(pairs, key, coeff);
    assert forall|i: int| 0 <= i < after.len() implies (#[trigger] after[i]).1 > 0 by {
        match index_of(pairs, key) {
            Some(k) => {
                if coeff == 0 {
                    if i < k {
                        assert(after[i] == pairs[i]);
                    } else {
                        assert(after[i] == pairs[i + 1]);
                    }
                } else {
                    if i != k {
                        assert(after[i] == pairs[i]);
                    }
                }
            },
            None => {
                if i < pairs.len() {
                    assert(after[i] == pairs[i]);
                }
            },
        }
    }
}

/// The sum of two lists of positive coefficients holds positive
/// coefficients only.
pub proof fn lemma_sum_of_positive<K>(pairs: Seq<(K, Num)>, addend: Seq<(K, Num)>)
    requires
        all_positive(pairs),
        all_positive(addend),
        sums_fit(pairs, addend),
        coeffs_wf(pairs),
        coeffs_wf(addend),
    ensures
        all_positive(sum_of(pairs, addend)),
    decreases addend.len(),
{
    if addend.len() > 0 {
        let key = addend[0].0;
        let current = coeff_of(pairs, key);
        lemma_index_of(pairs, key);
        assert(current >= 0);
        assert(addend[0].1 > 0);
        let sum = (current + addend[0].1) as Num;
        let next = with_coeff(pairs, key, sum);
        let rest = addend.drop_first();
        lemma_with_coeff_positive(pairs, key, sum);
        lemma_with_coeff(pairs, key, sum, key);
        assert forall|i: int| 0 <= i < rest.len() implies (#[trigger] rest[i]).1 > 0 by {
            assert(rest[i] == addend[i + 1]);
        }
        assert(coeffs_wf(rest)) by {
            assert forall|i: int, j: int| 0 <= i < j < rest.len() implies (#[trigger] rest[i]).0
                != (#[trigger] rest[j]).0 by {
                assert(rest[i] == addend[i + 1]);
                assert(rest[j] == addend[j + 1]);
            }
            assert forall|i: int| 0 <= i < rest.len() implies (#[trigger] rest[i]).1 != 0 by {
                assert(rest[i] == addend[i + 1]);
            }
        }
        assert(sums_fit(next, rest)) by {
            assert forall|i: int| 0 <= i < rest.len() implies fits(
                coeff_of(next, (#[trigger] rest[i]).0) + rest[i].1,
            ) by {
                assert(rest[i] == addend[i + 1]);
                assert(addend[0].0 != addend[i + 1].0);
                lemma_with_coeff(pairs, key, sum, rest[i].0);
            }
        }
        lemma_sum_of_positive(next, rest);
    }
}

impl<'a> Clone for MolecularFormula<'a> {
    fn clone(&self) -> (r: Self)
        ensures
            r@ == self@,
    {
        MolecularFormula { element_count: self.element_count.clone() }
    }
}

impl<'a> Default for MolecularFormula<'a> {
    fn default() -> (r: Self)
        ensures
            r.wf(),
            r@ == Seq::<(ElementView, Num)>::empty(),
    {
        Self::new()
    }
}

impl<'a> CoeffKey for MolecularFormula<'a> {
    fn same_key(&self, other: &Self) -> (r: bool) {
        self.element_count.same(&other.element_count)
    }

    fn clone_key(&self) -> (r: Self) {
        self.clone()
    }
}

} // verus!
