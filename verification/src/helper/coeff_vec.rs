//! An ordered list of keys, each with a non-zero integer coefficient.

use vstd::prelude::*;

verus! {

/// The type of a coefficient.
pub type Num = i32;

/// What a key of a `CoeffVec` can do: be compared with another key and be
/// copied. Two keys are the same key when their views are equal.
pub trait CoeffKey: View + Sized {
    /// Whether the two are the same key.
    fn same_key(&self, other: &Self) -> (r: bool)
        ensures
            r == (self@ == other@),
    ;

    /// A copy of the key.
    fn clone_key(&self) -> (r: Self)
        ensures
            r@ == self@,
    ;
}

/// The position of `key` in `pairs`: the first one, where there are several.
pub open spec fn index_of<K>(pairs: Seq<(K, Num)>, key: K) -> Option<int>
    decreases pairs.len(),
{
    if pairs.len() == 0 {
        None
    } else if pairs[0].0 == key {
        Some(0)
    } else {
        match index_of(pairs.drop_first(), key) {
            Some(i) => Some(i + 1),
            None => None,
        }
    }
}

/// The coefficient that `pairs` gives to `key`: 0 where the key is absent.
pub open spec fn coeff_of<K>(pairs: Seq<(K, Num)>, key: K) -> Num {
    match index_of(pairs, key) {
        Some(i) => pairs[i].1,
        None => 0,
    }
}

/// `pairs` after the coefficient of `key` is set to `coeff`: a zero removes
/// the key, another value replaces the coefficient in place, or puts the
/// key at the end where it was absent.
pub open spec fn with_coeff<K>(pairs: Seq<(K, Num)>, key: K, coeff: Num) -> Seq<(K, Num)> {
    match index_of(pairs, key) {
        Some(i) => if coeff == 0 {
            pairs.remove(i)
        } else {
            pairs.update(i, (key, coeff))
        },
        None => if coeff == 0 {
            pairs
        } else {
            pairs.push((key, coeff))
        },
    }
}

/// No key occurs twice and no coefficient is zero.
pub open spec fn coeffs_wf<K>(pairs: Seq<(K, Num)>) -> bool {
    &&& forall|i: int, j: int|
        0 <= i < j < pairs.len() ==> (#[trigger] pairs[i]).0 != (#[trigger] pairs[j]).0
    &&& forall|i: int| 0 <= i < pairs.len() ==> (#[trigger] pairs[i]).1 != 0
}

/// `index_of` finds the first position of the key, and finds none only
/// where the key is absent.
pub proof fn lemma_index_of<K>(pairs: Seq<(K, Num)>, key: K)
    ensures
        match index_of(pairs, key) {
            Some(i) => {
                &&& 0 <= i < pairs.len()
                &&& pairs[i].0 == key
                &&& forall|j: int| 0 <= j < i ==> (#[trigger] pairs[j]).0 != key
            },
            None => forall|j: int| 0 <= j < pairs.len() ==> (#[trigger] pairs[j]).0 != key,
        },
    decreases pairs.len(),
{
    if pairs.len() > 0 && pairs[0].0 != key {
        let rest = pairs.drop_first();
        lemma_index_of(rest, key);
        match index_of(rest, key) {
            Some(i) => {
                assert forall|j: int| 0 <= j < i + 1 implies (#[trigger] pairs[j]).0 != key by {
                    if j > 0 {
                        assert(pairs[j] == rest[j - 1]);
                    }
                }
            },
            None => {
                assert forall|j: int| 0 <= j < pairs.len() implies (#[trigger] pairs[j]).0
                    != key by {
                    if j > 0 {
                        assert(pairs[j] == rest[j - 1]);
                    }
                }
            },
        }
    }
}

/// A position that holds the key, with no earlier one that does, is the one
/// that `index_of` finds.
pub proof fn lemma_index_of_found<K>(pairs: Seq<(K, Num)>, key: K, i: int)
    requires
        0 <= i < pairs.len(),
        pairs[i].0 == key,
        forall|j: int| 0 <= j < i ==> (#[trigger] pairs[j]).0 != key,
    ensures
        index_of(pairs, key) == Some(i),
{
    lemma_index_of(pairs, key);
}

/// Where no position holds the key, `index_of` finds none.
pub proof fn lemma_index_of_absent<K>(pairs: Seq<(K, Num)>, key: K)
    requires
        forall|j: int| 0 <= j < pairs.len() ==> (#[trigger] pairs[j]).0 != key,
    ensures
        index_of(pairs, key) is None,
{
    lemma_index_of(pairs, key);
}

/// Setting a coefficient keeps the list well formed; afterwards the key has
/// the new coefficient and every other key has the one it had.
pub proof fn lemma_with_coeff<K>(pairs: Seq<(K, Num)>, key: K, coeff: Num, other: K)
    requires
        coeffs_wf(pairs),
    ensures
        coeffs_wf(with_coeff(pairs, key, coeff)),
        coeff_of(with_coeff(pairs, key, coeff), key) == coeff,
        other != key ==> coeff_of(with_coeff(pairs, key, coeff), other) == coeff_of(pairs, other),
{
    let after = with_coeff(pairs, key, coeff);
    lemma_index_of(pairs, key);
    lemma_index_of(pairs, other);
    lemma_index_of(after, key);
    lemma_index_of(after, other);
    match index_of(pairs, key) {
        Some(i) => {
            if coeff == 0 {
                assert forall|j: int| 0 <= j < after.len() implies (#[trigger] after[j]).0
                    != key by {
                    if j < i {
                        assert(after[j] == pairs[j]);
                    } else {
                        assert(after[j] == pairs[j + 1]);
                    }
                }
                if other != key {
                    match index_of(pairs, other) {
                        Some(k) => {
                            let k2 = if k < i {
                                k
                            } else {
                                k - 1
                            };
                            assert(after[k2] == pairs[k]);
                            assert forall|j: int| 0 <= j < k2 implies (#[trigger] after[j]).0
                                != other by {
                                if j < i {
                                    assert(after[j] == pairs[j]);
                                } else {
                                    assert(after[j] == pairs[j + 1]);
                                }
                            }
                            lemma_index_of_found(after, other, k2);
                        },
                        None => {
                            assert forall|j: int| 0 <= j < after.len() implies (
                            #[trigger] after[j]).0 != other by {
                                if j < i {
                                    assert(after[j] == pairs[j]);
                                } else {
                                    assert(after[j] == pairs[j + 1]);
                                }
                            }
                        },
                    }
                }
                assert forall|a: int, b: int| 0 <= a < b < after.len() implies (
                #[trigger] after[a]).0 != (#[trigger] after[b]).0 by {
                    let a2 = if a < i {
                        a
                    } else {
                        a + 1
                    };
                    let b2 = if b < i {
                        b
                    } else {
                        b + 1
                    };
                    assert(after[a] == pairs[a2]);
                    assert(after[b] == pairs[b2]);
                }
                assert forall|a: int| 0 <= a < after.len() implies (#[trigger] after[a]).1
                    != 0 by {
                    let a2 = if a < i {
                        a
                    } else {
                        a + 1
                    };
                    assert(after[a] == pairs[a2]);
                }
            } else {
                lemma_index_of_found(after, key, i);
                if other != key {
                    match index_of(pairs, other) {
                        Some(k) => {
                            lemma_index_of_found(after, other, k);
                        },
                        None => {
                            lemma_index_of_absent(after, other);
                        },
                    }
                }
            }
        },
        None => {
            if coeff != 0 {
                lemma_index_of_found(after, key, pairs.len() as int);
                if other != key {
                    match index_of(pairs, other) {
                        Some(k) => {
                            lemma_index_of_found(after, other, k);
                        },
                        None => {
                            lemma_index_of_absent(after, other);
                        },
                    }
                }
            }
        },
    }
}

/// Whether an integer is a coefficient, that is fits the type `Num`.
pub open spec fn fits(value: int) -> bool {
    i32::MIN <= value <= i32::MAX
}

/// `pairs` with the coefficients of `addend` added, key by key, in the order
/// of `addend`: a key whose sum is zero leaves, a new key goes to the end.
pub open spec fn sum_of<K>(pairs: Seq<(K, Num)>, addend: Seq<(K, Num)>) -> Seq<(K, Num)>
    decreases addend.len(),
{
    if addend.len() == 0 {
        pairs
    } else {
        let key = addend[0].0;
        let sum = (coeff_of(pairs, key) + addend[0].1) as Num;
        sum_of(with_coeff(pairs, key, sum), addend.drop_first())
    }
}

/// Every coefficient of `pairs` added to that of the same key in `addend`
/// is a coefficient again.
pub open spec fn sums_fit<K>(pairs: Seq<(K, Num)>, addend: Seq<(K, Num)>) -> bool {
    forall|i: int|
        0 <= i < addend.len() ==> fits(
            coeff_of(pairs, (#[trigger] addend[i]).0) + addend[i].1,
        )
}

/// `pairs` with every coefficient multiplied by `factor`; nothing is left
/// where the factor is zero.
pub open spec fn scaled<K>(pairs: Seq<(K, Num)>, factor: Num) -> Seq<(K, Num)> {
    if factor == 0 {
        Seq::empty()
    } else {
        pairs.map_values(|pair: (K, Num)| (pair.0, (pair.1 * factor) as Num))
    }
}

/// Every coefficient of `pairs` multiplied by `factor` is a coefficient
/// again.
pub open spec fn products_fit<K>(pairs: Seq<(K, Num)>, factor: Num) -> bool {
    factor != 0 ==> forall|i: int|
        0 <= i < pairs.len() ==> fits((#[trigger] pairs[i]).1 * factor)
}

/// Addition is key by key: in the sum, each key has the sum of the
/// coefficients it has in the two lists.
pub proof fn lemma_sum_of<K>(pairs: Seq<(K, Num)>, addend: Seq<(K, Num)>, key: K)
    requires
        coeffs_wf(pairs),
        coeffs_wf(addend),
        sums_fit(pairs, addend),
    ensures
        coeffs_wf(sum_of(pairs, addend)),
        coeff_of(sum_of(pairs, addend), key) == coeff_of(pairs, key) + coeff_of(addend, key),
    decreases addend.len(),
{
    if addend.len() > 0 {
        let first = addend[0].0;
        let sum = (coeff_of(pairs, first) + addend[0].1) as Num;
        let next = with_coeff(pairs, first, sum);
        let rest = addend.drop_first();
        assert(fits(coeff_of(pairs, first) + addend[0].1));
        lemma_with_coeff(pairs, first, sum, key);
        assert(coeffs_wf(rest)) by {
            assert forall|i: int, j: int| 0 <= i < j < rest.len() implies (#[trigger] rest[i]).0
                != (#[trigger] rest[j]).0 by {
                assert(rest[i] == addend[i + 1]);
                assert(rest[j] == addend[j + 1]);
            }
            assert forall|i: int| 0 <= i < rest.len() implies (#[trigger] rest[i]).1 != 0 by {
                assert(rest[i] == addend[i + 1]);
            }
        }
        assert(sums_fit(next, rest)) by {
            assert forall|i: int| 0 <= i < rest.len() implies fits(
                coeff_of(next, (#[trigger] rest[i]).0) + rest[i].1,
            ) by {
                assert(rest[i] == addend[i + 1]);
                assert(addend[0].0 != addend[i + 1].0);
                lemma_with_coeff(pairs, first, sum, rest[i].0);
            }
        }
        lemma_sum_of(next, rest, key);
        lemma_index_of(addend, key);
        lemma_index_of(rest, key);
        if key == first {
            assert(index_of(rest, key) is None) by {
                assert forall|j: int| 0 <= j < rest.len() implies (#[trigger] rest[j]).0
                    != key by {
                    assert(rest[j] == addend[j + 1]);
                }
                lemma_index_of_absent(rest, key);
            }
        } else {
            match index_of(rest, key) {
                Some(i) => {
                    assert(rest[i] == addend[i + 1]);
                },
                None => {},
            }
        }
    }
}

/// Scaling is key by key: with a factor that is not zero, each key keeps
/// its place and has its coefficient multiplied by the factor.
pub proof fn lemma_scaled<K>(pairs: Seq<(K, Num)>, factor: Num, key: K)
    requires
        factor != 0,
        products_fit(pairs, factor),
    ensures
        scaled(pairs, factor).len() == pairs.len(),
        index_of(scaled(pairs, factor), key) == index_of(pairs, key),
        coeff_of(scaled(pairs, factor), key) == coeff_of(pairs, key) * factor,
{
    let after = scaled(pairs, factor);
    lemma_index_of(pairs, key);
    lemma_index_of(after, key);
    match index_of(pairs, key) {
        Some(i) => {
            assert(after[i].0 == key);
            assert forall|j: int| 0 <= j < i implies (#[trigger] after[j]).0 != key by {
                assert(after[j].0 == pairs[j].0);
            }
            lemma_index_of_found(after, key, i);
            assert(fits(pairs[i].1 * factor));
        },
        None => {
            assert forall|j: int| 0 <= j < after.len() implies (#[trigger] after[j]).0
                != key by {
                assert(after[j].0 == pairs[j].0);
            }
            lemma_index_of_absent(after, key);
            assert(0 * factor == 0);
        },
    }
}

/// A list of keys with coefficients. Keys are unique and keep the order in
/// which they were first given a coefficient; a key whose coefficient is set
/// to zero leaves the list.
#[derive(Debug, PartialEq, Default)]
pub struct CoeffVec<T: CoeffKey> {
    pairs: Vec<(T, Num)>,
}

impl<T: CoeffKey> View for CoeffVec<T> {
    type V = Seq<(T::V, Num)>;

    closed spec fn view(&self) -> Self::V {
        self.pairs@.map_values(|pair: (T, Num)| (pair.0@, pair.1))
    }
}

impl<T: CoeffKey> CoeffVec<T> {
    /// No key occurs twice and no coefficient is zero.
    pub open spec fn wf(&self) -> bool {
        coeffs_wf(self@)
    }

    /// The list without keys.
    pub fn new() -> (r: Self)
        ensures
            r.wf(),
            r@ == Seq::<(T::V, Num)>::empty(),
    {
        let r = Self { pairs: Vec::new() };
        assert(r@ =~= Seq::<(T::V, Num)>::empty());
        r
    }

    /// How many keys have a coefficient.
    pub fn len(&self) -> (r: usize)
        ensures
            r == self@.len(),
    {
        self.pairs.len()
    }

    /// The place of `element` in the list, if it has one.
    fn position(&self, element: &T) -> (r: Option<usize>)
        ensures
            match r {
                Some(i) => index_of(self@, element@) == Some(i as int) && i < self@.len(),
                None => index_of(self@, element@) is None,
            },
    {
        let mut i: usize = 0;
        while i < self.pairs.len()
            invariant
                i <= self.pairs@.len(),
                forall|j: int| 0 <= j < i ==> (#[trigger] self@[j]).0 != element@,
            decreases self.pairs@.len() - i,
        {
            if self.pairs[i].0.same_key(element) {
                proof {
                    lemma_index_of_found(self@, element@, i as int);
                }
                return Some(i);
            }
            i = i + 1;
        }
        proof {
            lemma_index_of_absent(self@, element@);
        }
        None
    }

    /// Gives `element` the coefficient `new_coeff`. With zero the element
    /// leaves the list; otherwise its coefficient is replaced where it
    /// stands, or the element is added at the end.
    pub fn set_coeff(&mut self, element: &T, new_coeff: Num)
        requires
            old(self).wf(),
        ensures
            final(self).wf(),
            final(self)@ == with_coeff(old(self)@, element@, new_coeff),
    {
        proof {
            lemma_with_coeff(self@, element@, new_coeff, element@);
        }
        match self.position(element) {
            Some(i) => {
                if new_coeff == 0 {
                    let _ = self.pairs.remove(i);
                    assert(self@ =~= old(self)@.remove(i as int));
                } else {
                    proof {
                        lemma_index_of(self@, element@);
                    }
                    self.pairs[i].1 = new_coeff;
                    assert(self.pairs@[i as int].0 == old(self).pairs@[i as int].0);
                    assert(self@ =~= old(self)@.update(i as int, (element@, new_coeff)));
                }
            },
            None => {
                if new_coeff != 0 {
                    self.pairs.push((element.clone_key(), new_coeff));
                    assert(self@ =~= old(self)@.push((element@, new_coeff)));
                }
            },
        }
    }

    /// Adds the coefficients of `rhs` to those of the same keys here.
    pub fn add_assign(&mut self, rhs: Self)
        requires
            old(self).wf(),
            rhs.wf(),
            sums_fit(old(self)@, rhs@),
        ensures
            final(self).wf(),
            final(self)@ == sum_of(old(self)@, rhs@),
    {
        let mut i: usize = 0;
        assert(rhs@.skip(0) =~= rhs@);
        while i < rhs.pairs.len()
            invariant
                i <= rhs.pairs@.len(),
                self.wf(),
                rhs.wf(),
                sums_fit(self@, rhs@.skip(i as int)),
                sum_of(self@, rhs@.skip(i as int)) == sum_of(old(self)@, rhs@),
            decreases rhs.pairs@.len() - i,
        {
            let ghost before = self@;
            let ghost rest = rhs@.skip(i as int);
            let ghost key = rhs@[i as int].0;
            assert(rest[0] == rhs@[i as int]);
            assert(rest.drop_first() =~= rhs@.skip(i + 1));
            let coeff = rhs.pairs[i].1;
            let sum = self.get_coeff(&rhs.pairs[i].0) + coeff;
            self.set_coeff(&rhs.pairs[i].0, sum);
            proof {
                lemma_with_coeff(before, key, sum, key);
                assert forall|j: int| 0 <= j < rhs@.skip(i + 1).len() implies fits(
                    coeff_of(self@, (#[trigger] rhs@.skip(i + 1)[j]).0) + rhs@.skip(i + 1)[j].1,
                ) by {
                    let other = rhs@.skip(i + 1)[j];
                    assert(other == rest[j + 1]);
                    assert(other == rhs@[i + 1 + j]);
                    assert(other.0 != key);
                    lemma_with_coeff(before, key, sum, other.0);
                }
            }
            i = i + 1;
        }
        assert(rhs@.skip(i as int) =~= Seq::<(T::V, Num)>::empty());
    }

    /// Multiplies every coefficient by `rhs`. With zero, nothing is left.
    pub fn mul_assign(&mut self, rhs: Num)
        requires
            old(self).wf(),
            products_fit(old(self)@, rhs),
        ensures
            final(self).wf(),
            final(self)@ == scaled(old(self)@, rhs),
    {
        if rhs == 0 {
            self.pairs.clear();
            assert(self@ =~= scaled(old(self)@, rhs));
            return ;
        }
        let mut i: usize = 0;
        while i < self.pairs.len()
            invariant
                rhs != 0,
                old(self).wf(),
                products_fit(old(self)@, rhs),
                i <= self.pairs@.len(),
                self@.len() == old(self)@.len(),
                forall|j: int| 0 <= j < i ==> (#[trigger] self@[j]) == scaled(old(self)@, rhs)[j],
                forall|j: int| i <= j < self@.len() ==> (#[trigger] self@[j]) == old(self)@[j],
            decreases self.pairs@.len() - i,
        {
            let ghost before = self@;
            let ghost before_pairs = self.pairs@;
            let coeff = self.pairs[i].1;
            assert(before[i as int] == old(self)@[i as int]);
            assert(fits(old(self)@[i as int].1 * rhs));
            self.pairs[i].1 = coeff * rhs;
            assert(self.pairs@[i as int].0 == before_pairs[i as int].0);
            assert forall|j: int| 0 <= j < self@.len() && j != i implies #[trigger] self@[j]
                == before[j] by {
                assert(self.pairs@[j] == before_pairs[j]);
            }
            i = i + 1;
        }
        assert(self@ =~= scaled(old(self)@, rhs));
        proof {
            let after = self@;
            assert forall|j: int| 0 <= j < after.len() implies (#[trigger] after[j]).1 != 0 by {
                let c = old(self)@[j].1;
                assert(c != 0);
                assert(c * rhs != 0) by (nonlinear_arith)
                    requires
                        c != 0,
                        rhs != 0,
                ;
                assert(fits(c * rhs));
            }
        }
    }

    /// The coefficient of `element`: zero where it is not in the list.
    pub fn get_coeff(&self, element: &T) -> (r: Num)
        ensures
            r == coeff_of(self@, element@),
    {
        match self.position(element) {
            Some(i) => self.pairs[i].1,
            None => 0,
        }
    }
    /// The sum of two lists, key by key.
    pub fn add(self, rhs: Self) -> (r: Self)
        requires
            self.wf(),
            rhs.wf(),
            sums_fit(self@, rhs@),
        ensures
            r.wf(),
            r@ == sum_of(self@, rhs@),
    {
        let mut sum = self;
        sum.add_assign(rhs);
        sum
    }

    /// The list with every coefficient multiplied by `rhs`.
    pub fn mul(self, rhs: Num) -> (r: Self)
        requires
            self.wf(),
            products_fit(self@, rhs),
        ensures
            r.wf(),
            r@ == scaled(self@, rhs),
    {
        let mut product = self;
        product.mul_assign(rhs);
        product
    }

    /// Whether two lists hold the same keys with the same coefficients in
    /// the same order.
    pub fn same(&self, other: &Self) -> (r: bool)
        ensures
            r == (self@ == other@),
    {
        if self.pairs.len() != other.pairs.len() {
            assert(self@.len() != other@.len());
            return false;
        }
        let mut i: usize = 0;
        while i < self.pairs.len()
            invariant
                i <= self.pairs@.len(),
                self.pairs@.len() == other.pairs@.len(),
                forall|j: int| 0 <= j < i ==> (#[trigger] self@[j]) == other@[j],
            decreases self.pairs@.len() - i,
        {
            if !self.pairs[i].0.same_key(&other.pairs[i].0) || self.pairs[i].1 != other.pairs[i].1 {
                assert(self@[i as int] != other@[i as int]);
                return false;
            }
            i = i + 1;
        }
        assert(self@ =~= other@);
        true
    }

    /// The key and the coefficient at place `i`.
    pub fn pair_at(&self, i: usize) -> (r: (&T, Num))
        requires
            i < self@.len(),
        ensures
            r.0@ == self@[i as int].0,
            r.1 == self@[i as int].1,
    {
        (&self.pairs[i].0, self.pairs[i].1)
    }
}

impl<T: CoeffKey> Clone for CoeffVec<T> {
    fn clone(&self) -> (r: Self)
        ensures
            r@ == self@,
    {
        let mut pairs: Vec<(T, Num)> = Vec::new();
        let mut i: usize = 0;
        while i < self.pairs.len()
            invariant
                i <= self.pairs@.len(),
                pairs@.len() == i,
                forall|j: int|
                    0 <= j < i ==> (#[trigger] pairs@[j]).0@ == self.pairs@[j].0@ && pairs@[j].1
                        == self.pairs@[j].1,
            decreases self.pairs@.len() - i,
        {
            pairs.push((self.pairs[i].0.clone_key(), self.pairs[i].1));
            i = i + 1;
        }
        let r = CoeffVec { pairs };
        assert(r@ =~= self@);
        r
    }
}

} // verus!
