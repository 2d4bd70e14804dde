//! Real numbers, kept as they were written.

use vstd::prelude::*;

verus! {

/// A real number in the notation of its literal: digits, a decimal point,
/// digits, and possibly an `e` with the digits of an exponent.
#[derive(Debug, PartialEq, Eq)]
pub struct RealNumber {
    pub digits: String,
}

impl View for RealNumber {
    type V = Seq<char>;

    open spec fn view(&self) -> Seq<char> {
        self.digits@
    }
}

impl RealNumber {
    /// The number that `digits` spell.
    pub fn new(digits: String) -> (r: Self)
        ensures
            r@ == digits@,
    {
        RealNumber { digits }
    }
}

impl Clone for RealNumber {
    fn clone(&self) -> (r: Self)
        ensures
            r == *self,
    {
        RealNumber { digits: self.digits.clone() }
    }
}

} // verus!
