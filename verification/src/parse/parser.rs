//! Reading elements, integers and molecular formulas off a row of tokens,
//! with a dictionary that says what the identifiers stand for.

use crate::chem_data::dictionary::{Dictionary, Value, ValueView};
use crate::chem_data::elements::{Element, ElementView};
use crate::chem_data::formulas::MolecularFormula;
use crate::helper::coeff_vec::{with_coeff, Num};
use crate::helper::peek_iter::{CharSource, PeekIter, Source};
use crate::helper::text::{decimal_u32, parse_u32};
use crate::parse::tokens::{tokens_of, Token, TokenView, Tokens};
use vstd::prelude::*;

verus! {

/// Why the tokens ahead are not what was asked for.
#[derive(Debug, PartialEq)]
pub enum ParseError {
    /// The identifier does not stand for a value of the sort asked for.
    InvalidIdentifier(Token),
    /// The token cannot start what was asked for.
    UnexpectedSyntax(Token),
    /// There are no more tokens.
    EndOfStream,
}

/// A parse error as a mathematical value.
pub enum ParseErrorView {
    InvalidIdentifier(TokenView),
    UnexpectedSyntax(TokenView),
    EndOfStream,
}

impl View for ParseError {
    type V = ParseErrorView;

    open spec fn view(&self) -> ParseErrorView {
        match self {
            ParseError::InvalidIdentifier(token) => ParseErrorView::InvalidIdentifier(token@),
            ParseError::UnexpectedSyntax(token) => ParseErrorView::UnexpectedSyntax(token@),
            ParseError::EndOfStream => ParseErrorView::EndOfStream,
        }
    }
}

/// The number of blank-space tokens at the front of `tokens`.
pub open spec fn leading_whitespace(tokens: Seq<TokenView>) -> nat
    decreases tokens.len(),
{
    if tokens.len() > 0 && tokens[0] is Whitespace {
        1 + leading_whitespace(tokens.drop_first())
    } else {
        0
    }
}

/// The element that the front token stands for: an identifier that the
/// dictionary gives an element to.
pub open spec fn element_at_front(tokens: Seq<TokenView>, dict: Map<Seq<char>, ValueView>) -> Result<
    ElementView,
    ParseErrorView,
> {
    if tokens.len() == 0 {
        Err(ParseErrorView::EndOfStream)
    } else {
        match tokens[0] {
            TokenView::Identifier(name) => if dict.contains_key(name) && dict[name] is ElementRef {
                Ok(dict[name]->ElementRef_0)
            } else {
                Err(ParseErrorView::InvalidIdentifier(tokens[0]))
            },
            token => Err(ParseErrorView::UnexpectedSyntax(token)),
        }
    }
}

/// The integer that the front token stands for: an identifier that the
/// dictionary gives an integer to, or the numeral of an unsigned 32-bit
/// number.
pub open spec fn integer_at_front(tokens: Seq<TokenView>, dict: Map<Seq<char>, ValueView>) -> Result<
    u32,
    ParseErrorView,
> {
    if tokens.len() == 0 {
        Err(ParseErrorView::EndOfStream)
    } else {
        match tokens[0] {
            TokenView::Identifier(name) => if dict.contains_key(name) && dict[name] is Integer {
                Ok(dict[name]->Integer_0)
            } else {
                Err(ParseErrorView::InvalidIdentifier(tokens[0]))
            },
            TokenView::Integer(digits) => match decimal_u32(digits) {
                Some(value) => Ok(value),
                None => Err(ParseErrorView::UnexpectedSyntax(tokens[0])),
            },
            token => Err(ParseErrorView::UnexpectedSyntax(token)),
        }
    }
}

/// Whether the front token is a subscript: an integer that a formula can
/// hold.
pub open spec fn subscript_at_front(tokens: Seq<TokenView>, dict: Map<Seq<char>, ValueView>) -> Option<
    u32,
> {
    match integer_at_front(tokens, dict) {
        Ok(value) => if value <= i32::MAX {
            Some(value)
        } else {
            None
        },
        Err(_) => None,
    }
}

/// What a reading comes to and how many tokens it takes.
pub struct Reading<T> {
    pub outcome: Result<T, ParseErrorView>,
    pub consumed: nat,
}

/// The elements and subscripts at the front of `tokens`, entered into
/// `formula`. An element without a subscript counts once; a subscript
/// replaces what the element had. The reading ends before the first token
/// that is neither, and fails at an identifier that is no element.
pub open spec fn pairs_at_front(
    tokens: Seq<TokenView>,
    dict: Map<Seq<char>, ValueView>,
    formula: Seq<(ElementView, Num)>,
) -> Reading<Seq<(ElementView, Num)>>
    decreases tokens.len(),
{
    match element_at_front(tokens, dict) {
        Err(ParseErrorView::InvalidIdentifier(token)) => Reading {
            outcome: Err(ParseErrorView::InvalidIdentifier(token)),
            consumed: 0,
        },
        Err(_) => Reading { outcome: Ok(formula), consumed: 0 },
        Ok(element) => {
            let rest = tokens.drop_first();
            match subscript_at_front(rest, dict) {
                Some(subscript) => {
                    let more = pairs_at_front(
                        rest.drop_first(),
                        dict,
                        with_coeff(formula, element, subscript as Num),
                    );
                    Reading { outcome: more.outcome, consumed: more.consumed + 2 }
                },
                None => {
                    let more = pairs_at_front(rest, dict, with_coeff(formula, element, 1));
                    Reading { outcome: more.outcome, consumed: more.consumed + 1 }
                },
            }
        },
    }
}

/// The molecular formula at the front of `tokens`: an identifier that the
/// dictionary gives a formula to, or a dot followed by elements and
/// subscripts.
pub open spec fn formula_at_front(tokens: Seq<TokenView>, dict: Map<Seq<char>, ValueView>) -> Reading<
    Seq<(ElementView, Num)>,
> {
    if tokens.len() == 0 {
        Reading { outcome: Err(ParseErrorView::EndOfStream), consumed: 0 }
    } else {
        match tokens[0] {
            TokenView::Identifier(name) => if dict.contains_key(name)
                && dict[name] is MolecularFormula {
                Reading { outcome: Ok(dict[name]->MolecularFormula_0), consumed: 1 }
            } else {
                Reading { outcome: Err(ParseErrorView::InvalidIdentifier(tokens[0])), consumed: 0 }
            },
            TokenView::Dot => {
                let pairs = pairs_at_front(tokens.drop_first(), dict, Seq::empty());
                Reading { outcome: pairs.outcome, consumed: pairs.consumed + 1 }
            },
            token => Reading { outcome: Err(ParseErrorView::UnexpectedSyntax(token)), consumed: 0 },
        }
    }
}

/// A reading takes no more tokens than there are.
pub proof fn lemma_pairs_at_front(
    tokens: Seq<TokenView>,
    dict: Map<Seq<char>, ValueView>,
    formula: Seq<(ElementView, Num)>,
)
    ensures
        pairs_at_front(tokens, dict, formula).consumed <= tokens.len(),
    decreases tokens.len(),
{
    match element_at_front(tokens, dict) {
        Ok(element) => {
            let rest = tokens.drop_first();
            match subscript_at_front(rest, dict) {
                Some(subscript) => {
                    lemma_pairs_at_front(
                        rest.drop_first(),
                        dict,
                        with_coeff(formula, element, subscript as Num),
                    );
                },
                None => {
                    lemma_pairs_at_front(rest, dict, with_coeff(formula, element, 1));
                },
            }
        },
        _ => {},
    }
}

/// Reads chemical data off the tokens of a text.
///
/// The view is the row of tokens that have not been read yet.
pub struct Parser<S: Source<Item = char>> {
    tokens: PeekIter<Tokens<S>>,
}

impl<S: Source<Item = char>> View for Parser<S> {
    type V = Seq<TokenView>;

    closed spec fn view(&self) -> Seq<TokenView> {
        self.tokens@
    }
}

impl Parser<CharSource> {
    /// A parser for the tokens of `value`.
    pub fn from(value: &str) -> (r: Self)
        ensures
            r.wf(),
            r@ == tokens_of(value@),
    {
        Parser::new(Tokens::new(CharSource::new(value)))
    }
}

impl<S: Source<Item = char>> Parser<S> {
    /// The tokenizer underneath is well formed, and no more than one token
    /// has been read ahead.
    pub closed spec fn wf(&self) -> bool {
        &&& self.tokens.wf()
        &&& self.tokens.buffered() <= 1
    }

    /// How many tokens have been taken out of the tokenizer and not yet
    /// been read.
    pub closed spec fn lookahead(&self) -> nat {
        self.tokens.buffered()
    }

    /// The parser never reads more than one token ahead.
    pub proof fn lemma_lookahead_bound(&self)
        requires
            self.wf(),
        ensures
            self.lookahead() <= 1,
    {
    }

    /// A parser for the tokens of `tokens`.
    pub fn new(tokens: Tokens<S>) -> (r: Self)
        requires
            tokens.wf(),
        ensures
            r.wf(),
            r@ == tokens_of(tokens@),
    {
        Parser { tokens: PeekIter::new(tokens) }
    }

    /// Takes the next token, whatever it is.
    pub fn get_raw_token(&mut self) -> (r: Option<Token>)
        requires
            old(self).wf(),
        ensures
            final(self).wf(),
            match r {
                Some(token) => {
                    &&& old(self)@.len() > 0
                    &&& token@ == old(self)@[0]
                    &&& final(self)@ == old(self)@.drop_first()
                },
                None => old(self)@.len() == 0 && final(self)@.len() == 0,
            },
    {
        self.tokens.next()
    }

    /// Drops the blank-space tokens at the front.
    pub fn skip_leading_whitespace(&mut self)
        requires
            old(self).wf(),
        ensures
            final(self).wf(),
            leading_whitespace(old(self)@) <= old(self)@.len(),
            final(self)@ == old(self)@.skip(leading_whitespace(old(self)@) as int),
    {
        let ghost mut dropped: nat = 0;
        assert(self@.skip(0) =~= self@);
        loop
            invariant
                self.wf(),
                dropped <= old(self)@.len(),
                self@ == old(self)@.skip(dropped as int),
                leading_whitespace(old(self)@) == dropped + leading_whitespace(self@),
            decreases self@.len(),
        {
            let is_whitespace = match self.tokens.peek(0) {
                Some(token) => matches!(token, Token::Whitespace),
                None => false,
            };
            if !is_whitespace {
                return ;
            }
            let _ = self.tokens.next();
            proof {
                assert(self@ =~= old(self)@.skip((dropped + 1) as int));
                dropped = dropped + 1;
            }
        }
    }

    /// Reads an element: an identifier that the dictionary gives an element
    /// to. A token that is none is left where it is.
    pub fn parse_element<'d>(&mut self, dict: &Dictionary<'d>) -> (r: Result<
        &'d Element,
        ParseError,
    >)
        requires
            old(self).wf(),
        ensures
            final(self).wf(),
            match element_at_front(old(self)@, dict@) {
                Ok(element) => {
                    &&& r matches Ok(read)
                    &&& read@ == element
                    &&& final(self)@ == old(self)@.drop_first()
                },
                Err(failure) => {
                    &&& r matches Err(error)
                    &&& error@ == failure
                    &&& final(self)@ == old(self)@
                },
            },
    {
        let next_token = match self.tokens.peek(0) {
            Some(token) => token,
            None => {
                return Err(ParseError::EndOfStream);
            },
        };
        let element: &'d Element = match next_token {
            Token::Identifier(name) => match dict.get_value(name.as_str()) {
                Ok(Value::ElementRef(element)) => *element,
                _ => {
                    return Err(ParseError::InvalidIdentifier(next_token.clone()));
                },
            },
            token => {
                return Err(ParseError::UnexpectedSyntax(token.clone()));
            },
        };
        let _ = self.tokens.next();
        Ok(element)
    }

    /// Reads an element where there is one, and says whether there was.
    pub fn expect_element<'d>(&mut self, dict: &Dictionary<'d>) -> (r: Option<&'d Element>)
        requires
            old(self).wf(),
        ensures
            final(self).wf(),
            match element_at_front(old(self)@, dict@) {
                Ok(element) => {
                    &&& r matches Some(read)
                    &&& read@ == element
                    &&& final(self)@ == old(self)@.drop_first()
                },
                Err(_) => r is None && final(self)@ == old(self)@,
            },
    {
        match self.parse_element(dict) {
            Ok(element) => Some(element),
            Err(_) => None,
        }
    }

    /// The integer that the front token stands for. Nothing is taken.
    fn peek_integer(&mut self, dict: &Dictionary<'_>) -> (r: Result<u32, ParseError>)
        requires
            old(self).wf(),
        ensures
            final(self).wf(),
            final(self)@ == old(self)@,
            match integer_at_front(old(self)@, dict@) {
                Ok(value) => r == Ok::<u32, ParseError>(value),
                Err(failure) => r matches Err(error) && error@ == failure,
            },
    {
        let next_token = match self.tokens.peek(0) {
            Some(token) => token,
            None => {
                return Err(ParseError::EndOfStream);
            },
        };
        match next_token {
            Token::Identifier(name) => match dict.get_value(name.as_str()) {
                Ok(Value::Integer(value)) => Ok(*value),
                _ => Err(ParseError::InvalidIdentifier(next_token.clone())),
            },
            Token::Integer(digits) => match parse_u32(digits.as_str()) {
                Some(value) => Ok(value),
                None => Err(ParseError::UnexpectedSyntax(next_token.clone())),
            },
            token => Err(ParseError::UnexpectedSyntax(token.clone())),
        }
    }

    /// Reads an integer: a numeral, or an identifier that the dictionary
    /// gives an integer to. A token that is none is left where it is.
    pub fn parse_integer(&mut self, dict: &Dictionary<'_>) -> (r: Result<u32, ParseError>)
        requires
            old(self).wf(),
        ensures
            final(self).wf(),
            match integer_at_front(old(self)@, dict@) {
                Ok(value) => {
                    &&& r == Ok::<u32, ParseError>(value)
                    &&& final(self)@ == old(self)@.drop_first()
                },
                Err(failure) => {
                    &&& r matches Err(error)
                    &&& error@ == failure
                    &&& final(self)@ == old(self)@
                },
            },
    {
        let value = match self.peek_integer(dict) {
            Ok(value) => value,
            Err(error) => {
                return Err(error);
            },
        };
        let _ = self.tokens.next();
        Ok(value)
    }

    /// Reads a molecular formula: an identifier that the dictionary gives a
    /// formula to, or a dot followed by any number of elements, each with
    /// or without a subscript. The reading ends before the first token that
    /// does not belong to the formula.
    pub fn parse_molecular_formula<'d>(&mut self, dict: &Dictionary<'d>) -> (r: Result<
        MolecularFormula<'d>,
        ParseError,
    >)
        requires
            old(self).wf(),
        ensures
            final(self).wf(),
            formula_at_front(old(self)@, dict@).consumed <= old(self)@.len(),
            final(self)@ == old(self)@.skip(formula_at_front(old(self)@, dict@).consumed as int),
            match formula_at_front(old(self)@, dict@).outcome {
                Ok(formula) => r matches Ok(read) && read@ == formula,
                Err(failure) => r matches Err(error) && error@ == failure,
            },
    {
        assert(self@.skip(0) =~= self@);
        assert(self@.skip(1) =~= self@.drop_first());
        let next_token = match self.tokens.peek(0) {
            Some(token) => token,
            None => {
                return Err(ParseError::EndOfStream);
            },
        };
        match next_token {
            Token::Identifier(name) => match dict.get_value(name.as_str()) {
                Ok(Value::MolecularFormula(formula)) => {
                    let formula = formula.clone();
                    let _ = self.tokens.next();
                    Ok(formula)
                },
                _ => Err(ParseError::InvalidIdentifier(next_token.clone())),
            },
            Token::Dot => {
                let _ = self.tokens.next();
                self.parse_pairs(dict)
            },
            token => Err(ParseError::UnexpectedSyntax(token.clone())),
        }
    }

    /// Reads elements and subscripts as long as there are any.
    fn parse_pairs<'d>(&mut self, dict: &Dictionary<'d>) -> (r: Result<
        MolecularFormula<'d>,
        ParseError,
    >)
        requires
            old(self).wf(),
        ensures
            final(self).wf(),
            pairs_at_front(old(self)@, dict@, Seq::empty()).consumed <= old(self)@.len(),
            final(self)@ == old(self)@.skip(
                pairs_at_front(old(self)@, dict@, Seq::empty()).consumed as int,
            ),
            match pairs_at_front(old(self)@, dict@, Seq::empty()).outcome {
                Ok(formula) => r matches Ok(read) && read@ == formula,
                Err(failure) => r matches Err(error) && error@ == failure,
            },
    {
        let mut result = MolecularFormula::new();
        let ghost mut taken: nat = 0;
        let ghost whole = pairs_at_front(old(self)@, dict@, Seq::empty());
        proof {
            lemma_pairs_at_front(old(self)@, dict@, Seq::empty());
            assert(self@.skip(0) =~= self@);
        }
        loop
            invariant
                self.wf(),
                result.wf(),
                taken <= old(self)@.len(),
                self@ == old(self)@.skip(taken as int),
                whole == pairs_at_front(old(self)@, dict@, Seq::empty()),
                whole.outcome == pairs_at_front(self@, dict@, result@).outcome,
                whole.consumed == taken + pairs_at_front(self@, dict@, result@).consumed,
            decreases self@.len(),
        {
            let ghost before = self@;
            match self.parse_element(dict) {
                Err(ParseError::InvalidIdentifier(token)) => {
                    return Err(ParseError::InvalidIdentifier(token));
                },
                Err(_) => {
                    return Ok(result);
                },
                Ok(element) => {
                    let ghost rest = self@;
                    let subscript = match self.peek_integer(dict) {
                        Ok(value) => if value <= 0x7fff_ffff {
                            let _ = self.tokens.next();
                            proof {
                                assert(self@ =~= old(self)@.skip((taken + 2) as int));
                                taken = taken + 2;
                            }
                            value
                        } else {
                            proof {
                                assert(self@ =~= old(self)@.skip((taken + 1) as int));
                                taken = taken + 1;
                            }
                            1
                        },
                        Err(_) => {
                            proof {
                                assert(self@ =~= old(self)@.skip((taken + 1) as int));
                                taken = taken + 1;
                            }
                            1
                        },
                    };
                    result.set_subscr(element, subscript);
                },
            }
        }
    }
}

} // verus!
