//! Values, their types, and the dictionary that gives values to names.

use crate::chem_data::chem_eqn::{ChemEqn, SpeciesView};
use crate::chem_data::elements::{Element, ElementView, PeriodicTable};
use crate::chem_data::formulas::MolecularFormula;
use crate::chem_data::real_number::RealNumber;
use crate::helper::coeff_vec::Num;
use vstd::hash_map::StringHashMap;
use vstd::prelude::*;

verus! {

/// The type of a value.
#[derive(Debug, Clone, Copy, PartialEq, Eq, Structural)]
pub enum DataType {
    String,
    Integer,
    RealNumber,
    ElementRef,
    MolecularFormula,
    ChemEqn,
}

impl DataType {
    /// The type of `value`.
    pub fn from(value: &Value<'_>) -> (r: DataType)
        ensures
            r == value@.data_type(),
    {
        match value {
            Value::String(_) => DataType::String,
            Value::Integer(_) => DataType::Integer,
            Value::RealNumber(_) => DataType::RealNumber,
            Value::ElementRef(_) => DataType::ElementRef,
            Value::MolecularFormula(_) => DataType::MolecularFormula,
            Value::ChemEqn(_) => DataType::ChemEqn,
        }
    }
}

/// What a name can stand for.
#[derive(Debug, PartialEq)]
pub enum Value<'a> {
    String(String),
    Integer(u32),
    RealNumber(RealNumber),
    ElementRef(&'a Element),
    MolecularFormula(MolecularFormula<'a>),
    ChemEqn(ChemEqn<'a>),
}

/// A value with its content as mathematical values.
pub enum ValueView {
    String(Seq<char>),
    Integer(u32),
    RealNumber(Seq<char>),
    ElementRef(ElementView),
    MolecularFormula(Seq<(ElementView, Num)>),
    ChemEqn(Seq<(SpeciesView, Num)>),
}

impl ValueView {
    /// The type of the value.
    pub open spec fn data_type(self) -> DataType {
        match self {
            ValueView::String(_) => DataType::String,
            ValueView::Integer(_) => DataType::Integer,
            ValueView::RealNumber(_) => DataType::RealNumber,
            ValueView::ElementRef(_) => DataType::ElementRef,
            ValueView::MolecularFormula(_) => DataType::MolecularFormula,
            ValueView::ChemEqn(_) => DataType::ChemEqn,
        }
    }
}

impl<'a> View for Value<'a> {
    type V = ValueView;

    open spec fn view(&self) -> ValueView {
        match self {
            Value::String(string) => ValueView::String(string@),
            Value::Integer(integer) => ValueView::Integer(*integer),
            Value::RealNumber(number) => ValueView::RealNumber(number@),
            Value::ElementRef(element) => ValueView::ElementRef(element@),
            Value::MolecularFormula(formula) => ValueView::MolecularFormula(formula@),
            Value::ChemEqn(eqn) => ValueView::ChemEqn(eqn@),
        }
    }
}

impl<'a> Clone for Value<'a> {
    fn clone(&self) -> (r: Self)
        ensures
            r@ == self@,
    {
        match self {
            Value::String(string) => Value::String(string.clone()),
            Value::Integer(integer) => Value::Integer(*integer),
            Value::RealNumber(number) => Value::RealNumber(number.clone()),
            Value::ElementRef(element) => Value::ElementRef(*element),
            Value::MolecularFormula(formula) => Value::MolecularFormula(formula.clone()),
            Value::ChemEqn(eqn) => Value::ChemEqn(eqn.clone()),
        }
    }
}

impl<'a> Value<'a> {
    /// The content of the value as a `T`, or the reason why it is none.
    pub fn as_type<T: ExpectFromValue<'a>>(self) -> (r: Result<T, BadTypeError<'a>>)
        ensures
            match r {
                Ok(content) => T::content(self) == Some(content),
                Err(error) => {
                    &&& T::content(self) is None
                    &&& error.expected_type == T::expected_type()
                    &&& error.found_value == self
                },
            },
    {
        T::expect_from_value(self)
    }
}

impl<'a> From<String> for Value<'a> {
    fn from(value: String) -> (r: Self) {
        Value::String(value)
    }
}

impl<'a> vstd::std_specs::convert::FromSpecImpl<String> for Value<'a> {
    open spec fn obeys_from_spec() -> bool {
        true
    }

    open spec fn from_spec(value: String) -> Self {
        Value::String(value)
    }
}

impl<'a> From<u32> for Value<'a> {
    fn from(value: u32) -> (r: Self) {
        Value::Integer(value)
    }
}

impl<'a> vstd::std_specs::convert::FromSpecImpl<u32> for Value<'a> {
    open spec fn obeys_from_spec() -> bool {
        true
    }

    open spec fn from_spec(value: u32) -> Self {
        Value::Integer(value)
    }
}

impl<'a> From<RealNumber> for Value<'a> {
    fn from(value: RealNumber) -> (r: Self) {
        Value::RealNumber(value)
    }
}

impl<'a> vstd::std_specs::convert::FromSpecImpl<RealNumber> for Value<'a> {
    open spec fn obeys_from_spec() -> bool {
        true
    }

    open spec fn from_spec(value: RealNumber) -> Self {
        Value::RealNumber(value)
    }
}

impl<'a> From<&'a Element> for Value<'a> {
    fn from(value: &'a Element) -> (r: Self) {
        Value::ElementRef(value)
    }
}

impl<'a> vstd::std_specs::convert::FromSpecImpl<&'a Element> for Value<'a> {
    open spec fn obeys_from_spec() -> bool {
        true
    }

    open spec fn from_spec(value: &'a Element) -> Self {
        Value::ElementRef(value)
    }
}

impl<'a> From<MolecularFormula<'a>> for Value<'a> {
    fn from(value: MolecularFormula<'a>) -> (r: Self) {
        Value::MolecularFormula(value)
    }
}

impl<'a> vstd::std_specs::convert::FromSpecImpl<MolecularFormula<'a>> for Value<'a> {
    open spec fn obeys_from_spec() -> bool {
        true
    }

    open spec fn from_spec(value: MolecularFormula<'a>) -> Self {
        Value::MolecularFormula(value)
    }
}

impl<'a> From<ChemEqn<'a>> for Value<'a> {
    fn from(value: ChemEqn<'a>) -> (r: Self) {
        Value::ChemEqn(value)
    }
}

impl<'a> vstd::std_specs::convert::FromSpecImpl<ChemEqn<'a>> for Value<'a> {
    open spec fn obeys_from_spec() -> bool {
        true
    }

    open spec fn from_spec(value: ChemEqn<'a>) -> Self {
        Value::ChemEqn(value)
    }
}

/// The types that a value can hold.
pub trait ExpectFromValue<'a>: Sized {
    /// The type that a value must have to hold a `Self`.
    spec fn expected_type() -> DataType;

    /// What `value` holds, where it holds a `Self`.
    spec fn content(value: Value<'a>) -> Option<Self>;

    /// Unwraps `value`, or fails with the expected type and the value.
    fn expect_from_value(value: Value<'a>) -> (r: Result<Self, BadTypeError<'a>>)
        ensures
            match r {
                Ok(content) => Self::content(value) == Some(content),
                Err(error) => {
                    &&& Self::content(value) is None
                    &&& error.expected_type == Self::expected_type()
                    &&& error.found_value == value
                },
            },
    ;
}

impl<'a> ExpectFromValue<'a> for String {
    open spec fn expected_type() -> DataType {
        DataType::String
    }

    open spec fn content(value: Value<'a>) -> Option<Self> {
        match value {
            Value::String(string) => Some(string),
            _ => None,
        }
    }

    fn expect_from_value(value: Value<'a>) -> (r: Result<Self, BadTypeError<'a>>) {
        if let Value::String(string) = value {
            Ok(string)
        } else {
            Err(BadTypeError { expected_type: DataType::String, found_value: value })
        }
    }
}

impl<'a> ExpectFromValue<'a> for u32 {
    open spec fn expected_type() -> DataType {
        DataType::Integer
    }

    open spec fn content(value: Value<'a>) -> Option<Self> {
        match value {
            Value::Integer(integer) => Some(integer),
            _ => None,
        }
    }

    fn expect_from_value(value: Value<'a>) -> (r: Result<Self, BadTypeError<'a>>) {
        if let Value::Integer(integer) = value {
            Ok(integer)
        } else {
            Err(BadTypeError { expected_type: DataType::Integer, found_value: value })
        }
    }
}

impl<'a> ExpectFromValue<'a> for RealNumber {
    open spec fn expected_type() -> DataType {
        DataType::RealNumber
    }

    open spec fn content(value: Value<'a>) -> Option<Self> {
        match value {
            Value::RealNumber(number) => Some(number),
            _ => None,
        }
    }

    fn expect_from_value(value: Value<'a>) -> (r: Result<Self, BadTypeError<'a>>) {
        if let Value::RealNumber(number) = value {
            Ok(number)
        } else {
            Err(BadTypeError { expected_type: DataType::RealNumber, found_value: value })
        }
    }
}

impl<'a> ExpectFromValue<'a> for &'a Element {
    open spec fn expected_type() -> DataType {
        DataType::ElementRef
    }

    open spec fn content(value: Value<'a>) -> Option<Self> {
        match value {
            Value::ElementRef(element) => Some(element),
            _ => None,
        }
    }

    fn expect_from_value(value: Value<'a>) -> (r: Result<Self, BadTypeError<'a>>) {
        if let Value::ElementRef(element) = value {
            Ok(element)
        } else {
            Err(BadTypeError { expected_type: DataType::ElementRef, found_value: value })
        }
    }
}

impl<'a> ExpectFromValue<'a> for MolecularFormula<'a> {
    open spec fn expected_type() -> DataType {
        DataType::MolecularFormula
    }

    open spec fn content(value: Value<'a>) -> Option<Self> {
        match value {
            Value::MolecularFormula(formula) => Some(formula),
            _ => None,
        }
    }

    fn expect_from_value(value: Value<'a>) -> (r: Result<Self, BadTypeError<'a>>) {
        if let Value::MolecularFormula(formula) = value {
            Ok(formula)
        } else {
            Err(BadTypeError { expected_type: DataType::MolecularFormula, found_value: value })
        }
    }
}

impl<'a> ExpectFromValue<'a> for ChemEqn<'a> {
    open spec fn expected_type() -> DataType {
        DataType::ChemEqn
    }

    open spec fn content(value: Value<'a>) -> Option<Self> {
        match value {
            Value::ChemEqn(eqn) => Some(eqn),
            _ => None,
        }
    }

    fn expect_from_value(value: Value<'a>) -> (r: Result<Self, BadTypeError<'a>>) {
        if let Value::ChemEqn(eqn) = value {
            Ok(eqn)
        } else {
            Err(BadTypeError { expected_type: DataType::ChemEqn, found_value: value })
        }
    }
}

/// A value was found where one of another type was expected.
#[derive(Debug, PartialEq)]
pub struct BadTypeError<'a> {
    pub expected_type: DataType,
    pub found_value: Value<'a>,
}

/// A bad type error with the found value as a mathematical value.
pub struct BadTypeErrorView {
    pub expected_type: DataType,
    pub found_value: ValueView,
}

impl<'a> View for BadTypeError<'a> {
    type V = BadTypeErrorView;

    open spec fn view(&self) -> BadTypeErrorView {
        BadTypeErrorView { expected_type: self.expected_type, found_value: self.found_value@ }
    }
}

/// A name was looked up that the dictionary does not hold.
#[derive(Debug, PartialEq, Eq)]
pub struct UndefinedIdentifierError {
    pub name: String,
}

impl View for UndefinedIdentifierError {
    type V = Seq<char>;

    open spec fn view(&self) -> Seq<char> {
        self.name@
    }
}

/// What can go wrong when a value is taken out of the dictionary.
#[derive(Debug, PartialEq)]
pub enum DictAccessError<'a> {
    BadType(BadTypeError<'a>),
    UndefinedId(UndefinedIdentifierError),
}

/// A dictionary access error as a mathematical value.
pub enum DictAccessErrorView {
    BadType(BadTypeErrorView),
    UndefinedId(Seq<char>),
}

impl<'a> View for DictAccessError<'a> {
    type V = DictAccessErrorView;

    open spec fn view(&self) -> DictAccessErrorView {
        match self {
            DictAccessError::BadType(error) => DictAccessErrorView::BadType(error@),
            DictAccessError::UndefinedId(error) => DictAccessErrorView::UndefinedId(error@),
        }
    }
}

impl<'a> From<BadTypeError<'a>> for DictAccessError<'a> {
    fn from(value: BadTypeError<'a>) -> (r: Self) {
        DictAccessError::BadType(value)
    }
}

impl<'a> vstd::std_specs::convert::FromSpecImpl<BadTypeError<'a>> for DictAccessError<'a> {
    open spec fn obeys_from_spec() -> bool {
        true
    }

    open spec fn from_spec(value: BadTypeError<'a>) -> Self {
        DictAccessError::BadType(value)
    }
}

impl<'a> From<UndefinedIdentifierError> for DictAccessError<'a> {
    fn from(value: UndefinedIdentifierError) -> (r: Self) {
        DictAccessError::UndefinedId(value)
    }
}

impl<'a> vstd::std_specs::convert::FromSpecImpl<UndefinedIdentifierError> for DictAccessError<'a> {
    open spec fn obeys_from_spec() -> bool {
        true
    }

    open spec fn from_spec(value: UndefinedIdentifierError) -> Self {
        DictAccessError::UndefinedId(value)
    }
}

/// The dictionary after every element of `elements` has been entered under
/// its symbol, in order: of two elements with one symbol the later stays.
pub open spec fn with_elements(
    values: Map<Seq<char>, ValueView>,
    elements: Seq<ElementView>,
) -> Map<Seq<char>, ValueView>
    decreases elements.len(),
{
    if elements.len() == 0 {
        values
    } else {
        with_elements(values, elements.drop_last()).insert(
            elements.last().symbol,
            ValueView::ElementRef(elements.last()),
        )
    }
}

/// The values that the names stand for.
pub struct Dictionary<'a> {
    values: StringHashMap<Value<'a>>,
}

impl<'a> View for Dictionary<'a> {
    type V = Map<Seq<char>, ValueView>;

    closed spec fn view(&self) -> Self::V {
        self.values@.map_values(|value: Value<'a>| value@)
    }
}

impl<'a> Dictionary<'a> {
    /// The dictionary without names.
    pub fn new() -> (r: Self)
        ensures
            r@ == Map::<Seq<char>, ValueView>::empty(),
    {
        let r = Dictionary { values: StringHashMap::new() };
        assert(r@ =~= Map::<Seq<char>, ValueView>::empty());
        r
    }

    /// Takes `name` out of the dictionary and returns what it stood for.
    pub fn clear_value(&mut self, name: &str) -> (r: Option<Value<'a>>)
        ensures
            final(self)@ == old(self)@.remove(name@),
            match r {
                Some(value) => old(self)@.contains_key(name@) && value@ == old(self)@[name@],
                None => !old(self)@.contains_key(name@),
            },
    {
        let removed = match self.values.get(name) {
            Some(value) => Some(value.clone()),
            None => None,
        };
        self.values.remove(name);
        assert(self@ =~= old(self)@.remove(name@));
        removed
    }

    /// Lets `name` stand for `value` from now on.
    pub fn assign_value(&mut self, name: &str, value: Value<'a>)
        ensures
            final(self)@ == old(self)@.insert(name@, value@),
    {
        self.values.insert(name.to_owned(), value);
        assert(self@ =~= old(self)@.insert(name@, value@));
    }

    /// What `name` stands for.
    pub fn get_value(&self, name: &str) -> (r: Result<&Value<'a>, UndefinedIdentifierError>)
        ensures
            match r {
                Ok(value) => self@.contains_key(name@) && value@ == self@[name@],
                Err(error) => !self@.contains_key(name@) && error@ == name@,
            },
    {
        match self.values.get(name) {
            Some(value) => Ok(value),
            None => Err(UndefinedIdentifierError { name: name.to_owned() }),
        }
    }

    /// Enters every element of the table under its symbol.
    pub fn load_elements(&mut self, p_table: &'a PeriodicTable)
        ensures
            final(self)@ == with_elements(old(self)@, p_table@),
    {
        let mut i: usize = 0;
        assert(p_table@.take(0) =~= Seq::<ElementView>::empty());
        while i < p_table.len()
            invariant
                i <= p_table@.len(),
                self@ == with_elements(old(self)@, p_table@.take(i as int)),
            decreases p_table@.len() - i,
        {
            let element_info = p_table.element_at(i);
            let ghost before = self@;
            self.values.insert(element_info.symbol.clone(), Value::ElementRef(element_info));
            proof {
                assert(self@ =~= before.insert(
                    element_info@.symbol,
                    ValueView::ElementRef(element_info@),
                ));
                assert(p_table@.take(i + 1).drop_last() =~= p_table@.take(i as int));
                assert(p_table@.take(i + 1).last() == element_info@);
            }
            i = i + 1;
        }
        assert(p_table@.take(i as int) =~= p_table@);
    }
}

} // verus!
