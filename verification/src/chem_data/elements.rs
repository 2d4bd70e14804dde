//! Chemical elements and the table that owns them.

use crate::helper::coeff_vec::CoeffKey;
use crate::helper::text::{
    chars_of, parse_i32_at, run_end, run_len, signed_decimal_i32, string_of, CharClass,
};
use vstd::prelude::*;

verus! {

/// A chemical element.
#[derive(Debug, PartialEq, Eq, Hash)]
pub struct Element {
    pub atomic_number: i32,
    pub symbol: String,
    pub name: String,
}

/// An element with its texts as sequences of characters.
pub struct ElementView {
    pub atomic_number: i32,
    pub symbol: Seq<char>,
    pub name: Seq<char>,
}

impl View for Element {
    type V = ElementView;

    open spec fn view(&self) -> ElementView {
        ElementView { atomic_number: self.atomic_number, symbol: self.symbol@, name: self.name@ }
    }
}

impl Element {
    /// The element with the given number, symbol and name.
    pub fn new(atomic_number: i32, symbol: &str, name: &str) -> (r: Self)
        ensures
            r@ == (ElementView { atomic_number, symbol: symbol@, name: name@ }),
    {
        Element { atomic_number, symbol: symbol.to_owned(), name: name.to_owned() }
    }

    /// Whether two elements have the same number, symbol and name.
    pub fn same(&self, other: &Element) -> (r: bool)
        ensures
            r == (self@ == other@),
    {
        self.atomic_number == other.atomic_number && self.symbol == other.symbol && self.name
            == other.name
    }
}

impl<'a> CoeffKey for &'a Element {
    fn same_key(&self, other: &Self) -> (r: bool) {
        (*self).same(*other)
    }

    fn clone_key(&self) -> (r: Self) {
        *self
    }
}

/// The first element of `elements` that has the symbol `symbol`.
pub open spec fn element_with_symbol(elements: Seq<ElementView>, symbol: Seq<char>) -> Option<
    ElementView,
>
    decreases elements.len(),
{
    if elements.len() == 0 {
        None
    } else if elements[0].symbol == symbol {
        Some(elements[0])
    } else {
        element_with_symbol(elements.drop_first(), symbol)
    }
}

/// The elements of a small made-up table, named after the letters of the
/// alphabet.
pub open spec fn alphabetic_elements() -> Seq<ElementView> {
    seq![
        ElementView { atomic_number: 1, symbol: "Al"@, name: "alicium"@ },
        ElementView { atomic_number: 2, symbol: "Bo"@, name: "bobbium"@ },
        ElementView { atomic_number: 3, symbol: "Ch"@, name: "charlium"@ },
        ElementView { atomic_number: 4, symbol: "Dv"@, name: "davidium"@ },
        ElementView { atomic_number: 5, symbol: "Er"@, name: "erinium"@ },
        ElementView { atomic_number: 6, symbol: "Fr"@, name: "frankium"@ },
        ElementView { atomic_number: 7, symbol: "Gr"@, name: "gracium"@ },
        ElementView { atomic_number: 8, symbol: "He"@, name: "heidium"@ },
        ElementView { atomic_number: 9, symbol: "Iv"@, name: "ivanine"@ },
        ElementView { atomic_number: 10, symbol: "Js"@, name: "joshine"@ },
        ElementView { atomic_number: 11, symbol: "Kv"@, name: "kevinium"@ },
        ElementView { atomic_number: 12, symbol: "Ll"@, name: "lilium"@ },
        ElementView { atomic_number: 13, symbol: "Mk"@, name: "mikine"@ },
        ElementView { atomic_number: 14, symbol: "Nc"@, name: "nancium"@ },
        ElementView { atomic_number: 15, symbol: "Os"@, name: "oscarinium"@ },
    ]
}

/// The first field of a line: its first run of characters that are not
/// white space. It is empty where the line holds white space only.
pub open spec fn first_field(line: Seq<char>) -> Seq<char> {
    let start = run_len(line, CharClass::Whitespace);
    let field = line.skip(start as int);
    field.take(run_len(field, CharClass::NonWhitespace) as int)
}

/// What is left of a line after its first field.
pub open spec fn after_first_field(line: Seq<char>) -> Seq<char> {
    let start = run_len(line, CharClass::Whitespace);
    let field = line.skip(start as int);
    field.skip(run_len(field, CharClass::NonWhitespace) as int)
}

/// The element that a line of a table describes: its atomic number, its
/// symbol and its name, separated by white space. `None` where one of the
/// three is missing or the first is not a number.
pub open spec fn element_of_line(line: Seq<char>) -> Option<ElementView> {
    let rest = after_first_field(line);
    let symbol = first_field(rest);
    let name = first_field(after_first_field(rest));
    if symbol.len() == 0 || name.len() == 0 {
        None
    } else {
        match signed_decimal_i32(first_field(line)) {
            Some(atomic_number) => Some(ElementView { atomic_number, symbol, name }),
            None => None,
        }
    }
}

/// `front` followed by the elements of `rest`, where there are any.
pub open spec fn followed_by(front: Seq<ElementView>, rest: Option<Seq<ElementView>>) -> Option<
    Seq<ElementView>,
> {
    match rest {
        Some(elements) => Some(front + elements),
        None => None,
    }
}

/// The elements that the lines of a text describe, one element for each
/// line. `None` where a line describes none.
pub open spec fn elements_of_text(text: Seq<char>) -> Option<Seq<ElementView>>
    decreases text.len(),
{
    if text.len() == 0 {
        Some(Seq::empty())
    } else {
        let line_len = run_len(text, CharClass::LineBody);
        let rest = if line_len < text.len() {
            text.skip((line_len + 1) as int)
        } else {
            Seq::empty()
        };
        match element_of_line(text.take(line_len as int)) {
            Some(element) => followed_by(seq![element], elements_of_text(rest)),
            None => None,
        }
    }
}

/// Where the first field of the characters from `from` up to `to` starts
/// and ends.
fn field_in(chars: &Vec<char>, from: usize, to: usize) -> (r: (usize, usize))
    requires
        from <= to <= chars@.len(),
    ensures
        from <= r.0 <= r.1 <= to,
        chars@.subrange(r.0 as int, r.1 as int) == first_field(
            chars@.subrange(from as int, to as int),
        ),
        chars@.subrange(r.1 as int, to as int) == after_first_field(
            chars@.subrange(from as int, to as int),
        ),
{
    let ghost line = chars@.subrange(from as int, to as int);
    let start = run_end(chars, from, to, CharClass::Whitespace);
    let end = run_end(chars, start, to, CharClass::NonWhitespace);
    proof {
        let field = line.skip(start - from);
        assert(field =~= chars@.subrange(start as int, to as int));
        assert(chars@.subrange(start as int, end as int) =~= field.take(end - start));
        assert(chars@.subrange(end as int, to as int) =~= field.skip(end - start));
    }
    (start, end)
}

/// The element that the characters from `from` up to `to` describe.
fn element_in(chars: &Vec<char>, from: usize, to: usize) -> (r: Option<Element>)
    requires
        from <= to <= chars@.len(),
    ensures
        match element_of_line(chars@.subrange(from as int, to as int)) {
            Some(element) => r matches Some(read) && read@ == element,
            None => r is None,
        },
{
    let number = field_in(chars, from, to);
    let symbol = field_in(chars, number.1, to);
    let name = field_in(chars, symbol.1, to);
    if symbol.0 == symbol.1 || name.0 == name.1 {
        return None;
    }
    match parse_i32_at(chars, number.0, number.1) {
        Some(atomic_number) => Some(
            Element {
                atomic_number,
                symbol: string_of(chars, symbol.0, symbol.1),
                name: string_of(chars, name.0, name.1),
            },
        ),
        None => None,
    }
}

/// The elements that are known, in the order in which they were added.
#[derive(Debug)]
pub struct PeriodicTable {
    elements: Vec<Element>,
}

impl View for PeriodicTable {
    type V = Seq<ElementView>;

    closed spec fn view(&self) -> Seq<ElementView> {
        self.elements@.map_values(|element: Element| element@)
    }
}

impl PeriodicTable {
    /// A table without elements.
    pub fn new() -> (r: Self)
        ensures
            r@ == Seq::<ElementView>::empty(),
    {
        let r = PeriodicTable { elements: Vec::new() };
        assert(r@ =~= Seq::<ElementView>::empty());
        r
    }

    /// Reads a table: one element to a line, each line with the atomic
    /// number, the symbol and the name of its element. `None` where a line
    /// does not describe an element.
    pub fn parse(text: &str) -> (r: Option<Self>)
        ensures
            match elements_of_text(text@) {
                Some(elements) => r matches Some(table) && table@ == elements,
                None => r is None,
            },
    {
        let chars = chars_of(text);
        let mut table = PeriodicTable::new();
        let mut pos: usize = 0;
        assert(chars@.skip(0) =~= chars@);
        assert(table@ + elements_of_text(chars@)->0 =~= elements_of_text(chars@)->0);
        while pos < chars.len()
            invariant
                pos <= chars@.len(),
                chars@ == text@,
                elements_of_text(text@) == followed_by(
                    table@,
                    elements_of_text(chars@.skip(pos as int)),
                ),
            decreases chars@.len() - pos,
        {
            let ghost rest = chars@.skip(pos as int);
            let ghost front = table@;
            assert(rest =~= chars@.subrange(pos as int, chars@.len() as int));
            let end = run_end(&chars, pos, chars.len(), CharClass::LineBody);
            assert(rest.take(end - pos) =~= chars@.subrange(pos as int, end as int));
            match element_in(&chars, pos, end) {
                Some(element) => {
                    table.add_element(element);
                },
                None => {
                    return None;
                },
            }
            let next = if end < chars.len() {
                end + 1
            } else {
                end
            };
            proof {
                let after = if end - pos < rest.len() {
                    rest.skip(end - pos + 1)
                } else {
                    Seq::<char>::empty()
                };
                assert(after =~= chars@.skip(next as int));
                match elements_of_text(after) {
                    Some(more) => {
                        assert(front + (seq![table@.last()] + more) =~= table@ + more);
                    },
                    None => {},
                }
            }
            pos = next;
        }
        assert(table@ + Seq::<ElementView>::empty() =~= table@);
        Some(table)
    }

    /// The table that `string` describes, one element to a line.
    pub fn from(string: String) -> (r: Self)
        requires
            elements_of_text(string@) is Some,
        ensures
            Some(r@) == elements_of_text(string@),
    {
        match PeriodicTable::parse(string.as_str()) {
            Some(table) => table,
            None => PeriodicTable::new(),
        }
    }

    /// A small made-up table for trying things out: fifteen elements named
    /// after the letters of the alphabet.
    pub fn new_alphabetic() -> (r: Self)
        ensures
            r@ == alphabetic_elements(),
    {
        let mut table = PeriodicTable::new();
        table.add_element(Element::new(1, "Al", "alicium"));
        table.add_element(Element::new(2, "Bo", "bobbium"));
        table.add_element(Element::new(3, "Ch", "charlium"));
        table.add_element(Element::new(4, "Dv", "davidium"));
        table.add_element(Element::new(5, "Er", "erinium"));
        table.add_element(Element::new(6, "Fr", "frankium"));
        table.add_element(Element::new(7, "Gr", "gracium"));
        table.add_element(Element::new(8, "He", "heidium"));
        table.add_element(Element::new(9, "Iv", "ivanine"));
        table.add_element(Element::new(10, "Js", "joshine"));
        table.add_element(Element::new(11, "Kv", "kevinium"));
        table.add_element(Element::new(12, "Ll", "lilium"));
        table.add_element(Element::new(13, "Mk", "mikine"));
        table.add_element(Element::new(14, "Nc", "nancium"));
        table.add_element(Element::new(15, "Os", "oscarinium"));
        assert(table@ =~= alphabetic_elements());
        table
    }

    /// Adds `element` at the end of the table.
    pub fn add_element(&mut self, element: Element)
        ensures
            final(self)@ == old(self)@.push(element@),
    {
        self.elements.push(element);
        assert(self@ =~= old(self)@.push(element@));
    }

    /// The first element with the given symbol, if there is one.
    pub fn get_element(&self, symbol: &str) -> (r: Option<&Element>)
        ensures
            match r {
                Some(element) => element_with_symbol(self@, symbol@) == Some(element@),
                None => element_with_symbol(self@, symbol@) is None,
            },
    {
        let mut i: usize = 0;
        assert(self@.skip(0) =~= self@);
        while i < self.elements.len()
            invariant
                i <= self.elements@.len(),
                element_with_symbol(self@, symbol@) == element_with_symbol(
                    self@.skip(i as int),
                    symbol@,
                ),
            decreases self.elements@.len() - i,
        {
            assert(self@.skip(i as int)[0] == self.elements@[i as int]@);
            if self.elements[i].symbol.as_str().eq(symbol) {
                return Some(&self.elements[i]);
            }
            assert(self@.skip(i as int).drop_first() =~= self@.skip(i + 1));
            i = i + 1;
        }
        None
    }

    /// How many elements the table holds.
    pub fn len(&self) -> (r: usize)
        ensures
            r == self@.len(),
    {
        self.elements.len()
    }

    /// The element at place `i`, counted from 0 in the order of addition.
    pub fn element_at(&self, i: usize) -> (r: &Element)
        requires
            i < self@.len(),
        ensures
            r@ == self@[i as int],
    {
        &self.elements[i]
    }
}

} // verus!
