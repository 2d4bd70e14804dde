//! A tokenizer for plain formulas: element symbols, numbers and
//! parentheses.

use crate::helper::peek_iter::{PeekIter, Source};
use crate::helper::text::{
    decimal_u32, is_digit, is_uppercase, lemma_run_len, parse_u32, run_len, CharClass,
};
use vstd::prelude::*;

verus! {

/// A token of a plain formula.
#[derive(Debug, PartialEq)]
pub enum Token {
    Unknown(String),
    Symbol(String),
    Number(i32),
    LeftParen,
    RightParen,
}

/// A token with its text as a sequence of characters.
pub enum TokenView {
    Unknown(Seq<char>),
    Symbol(Seq<char>),
    Number(i32),
    LeftParen,
    RightParen,
}

impl View for Token {
    type V = TokenView;

    open spec fn view(&self) -> TokenView {
        match self {
            Token::Unknown(text) => TokenView::Unknown(text@),
            Token::Symbol(text) => TokenView::Symbol(text@),
            Token::Number(number) => TokenView::Number(*number),
            Token::LeftParen => TokenView::LeftParen,
            Token::RightParen => TokenView::RightParen,
        }
    }
}

/// A token and the number of characters it was read from.
pub struct Lexeme {
    pub token: TokenView,
    pub len: nat,
}

/// The token at the start of a non-empty text that does not begin with
/// white space. A symbol is a capital letter with the small letters after
/// it. A number is a run of digits; one that is too large for a number
/// token is unknown as a whole. Any other character is unknown by itself.
pub open spec fn lex_at(s: Seq<char>) -> Lexeme
    recommends
        s.len() > 0,
{
    let c = s[0];
    let rest = s.drop_first();
    if c == '(' {
        Lexeme { token: TokenView::LeftParen, len: 1 }
    } else if c == ')' {
        Lexeme { token: TokenView::RightParen, len: 1 }
    } else if is_uppercase(c) {
        let n = 1 + run_len(rest, CharClass::Lowercase);
        Lexeme { token: TokenView::Symbol(s.take(n as int)), len: n }
    } else if is_digit(c) {
        let n = run_len(s, CharClass::Digit);
        let digits = s.take(n as int);
        Lexeme {
            token: match decimal_u32(digits) {
                Some(value) => if value <= i32::MAX {
                    TokenView::Number(value as i32)
                } else {
                    TokenView::Unknown(digits)
                },
                None => TokenView::Unknown(digits),
            },
            len: n,
        }
    } else {
        Lexeme { token: TokenView::Unknown(seq![c]), len: 1 }
    }
}

/// The first token of `s` and the number of characters it takes up, the
/// white space in front of it included. `None` where `s` holds white space
/// only, or nothing.
pub open spec fn first_token(s: Seq<char>) -> Option<Lexeme> {
    let skipped = run_len(s, CharClass::AnyWhitespace);
    if skipped >= s.len() {
        None
    } else {
        let lexeme = lex_at(s.skip(skipped as int));
        Some(Lexeme { token: lexeme.token, len: skipped + lexeme.len })
    }
}

/// All the tokens of `s`, in order.
pub open spec fn tokens_of(s: Seq<char>) -> Seq<TokenView>
    decreases s.len(),
{
    match first_token(s) {
        Some(lexeme) => if 0 < lexeme.len <= s.len() {
            seq![lexeme.token] + tokens_of(s.skip(lexeme.len as int))
        } else {
            Seq::empty()
        },
        None => Seq::empty(),
    }
}

/// Takes the longest run of characters of `class` off the front of `iter`
/// and returns it.
pub fn next_chars_which<S: Source<Item = char>>(iter: &mut PeekIter<S>, class: CharClass) -> (r:
    String)
    requires
        old(iter).wf(),
    ensures
        final(iter).wf(),
        run_len(old(iter)@, class) <= old(iter)@.len(),
        r@ == old(iter)@.take(run_len(old(iter)@, class) as int),
        final(iter)@ == old(iter)@.skip(run_len(old(iter)@, class) as int),
        final(iter).buffered() <= old(iter).buffered() || final(iter).buffered() <= 1,
{
    let mut result = String::new();
    let ghost mut taken: nat = 0;
    proof {
        lemma_run_len(iter@, class);
        assert(iter@.skip(0) =~= iter@);
        assert(result@ =~= iter@.take(0));
    }
    loop
        invariant
            iter.wf(),
            taken + run_len(iter@, class) == run_len(old(iter)@, class),
            taken <= old(iter)@.len(),
            iter@ == old(iter)@.skip(taken as int),
            result@ == old(iter)@.take(taken as int),
            iter.buffered() <= old(iter).buffered() || iter.buffered() <= 1,
        decreases iter@.len(),
    {
        let in_class = |c: &char| -> (b: bool)
            ensures
                b == class.has(*c),
            {
                class.contains(*c)
            };
        match iter.next_if(in_class) {
            Some(c) => {
                result.push(c);
                proof {
                    assert(old(iter)@.skip(taken as int)[0] == c);
                    assert(result@ =~= old(iter)@.take((taken + 1) as int));
                    assert(iter@ =~= old(iter)@.skip((taken + 1) as int));
                    taken = taken + 1;
                }
            },
            None => {
                return result;
            },
        }
    }
}

/// Turns a source of characters into the tokens of a plain formula.
///
/// The view is the text that has not been tokenized yet.
pub struct TokenIter<S: Source<Item = char>> {
    chars: PeekIter<S>,
}

impl<S: Source<Item = char>> View for TokenIter<S> {
    type V = Seq<char>;

    closed spec fn view(&self) -> Seq<char> {
        self.chars@
    }
}

impl<S: Source<Item = char>> TokenIter<S> {
    /// The source underneath is well formed, and no more than one
    /// character has been read ahead.
    pub closed spec fn wf(&self) -> bool {
        &&& self.chars.wf()
        &&& self.chars.buffered() <= 1
    }

    /// A tokenizer for the characters of `chars`.
    pub fn from_char_iter(chars: S) -> (r: Self)
        requires
            chars.wf(),
        ensures
            r.wf(),
            r@ == chars.remaining(),
    {
        TokenIter { chars: PeekIter::new(chars) }
    }
}

impl<S: Source<Item = char>> Source for TokenIter<S> {
    type Item = Token;

    open spec fn wf(&self) -> bool {
        TokenIter::wf(self)
    }

    open spec fn remaining(&self) -> Seq<TokenView> {
        tokens_of(self@)
    }

    /// The next token, or `None` where nothing but white space is left.
    fn next(&mut self) -> (r: Option<Token>)
        ensures
            match r {
                Some(token) => {
                    &&& first_token(old(self)@) matches Some(lexeme)
                    &&& token@ == lexeme.token
                    &&& 0 < lexeme.len <= old(self)@.len()
                    &&& final(self)@ == old(self)@.skip(lexeme.len as int)
                },
                None => first_token(old(self)@) is None && final(self)@.len() == 0,
            },
    {
        // skip leading whitespace
        let _ = next_chars_which(&mut self.chars, CharClass::AnyWhitespace);
        let ghost skipped = run_len(old(self)@, CharClass::AnyWhitespace);
        let ghost s = self@;
        // check the first character
        let initial = match self.chars.peek(0) {
            Some(c) => *c,
            None => {
                return None;
            },
        };
        let result = if initial == '(' {
            let _ = self.chars.next();
            assert(self@ =~= s.skip(1));
            Token::LeftParen
        } else if initial == ')' {
            let _ = self.chars.next();
            assert(self@ =~= s.skip(1));
            Token::RightParen
        } else if CharClass::Uppercase.contains(initial) {
            let _ = self.chars.next();
            let mut symbol = String::new();
            symbol.push(initial);
            let tail = next_chars_which(&mut self.chars, CharClass::Lowercase);
            symbol.append(tail.as_str());
            proof {
                let n = 1 + run_len(s.drop_first(), CharClass::Lowercase);
                assert(symbol@ =~= s.take(n as int));
                assert(self@ =~= s.skip(n as int));
            }
            Token::Symbol(symbol)
        } else if CharClass::Digit.contains(initial) {
            let digits = next_chars_which(&mut self.chars, CharClass::Digit);
            match parse_u32(digits.as_str()) {
                Some(value) => if value <= 0x7fff_ffff {
                    Token::Number(value as i32)
                } else {
                    Token::Unknown(digits)
                },
                None => Token::Unknown(digits),
            }
        } else {
            let _ = self.chars.next();
            let mut text = String::new();
            text.push(initial);
            assert(text@ =~= seq![initial]);
            assert(self@ =~= s.skip(1));
            Token::Unknown(text)
        };
        proof {
            lemma_run_len(old(self)@, CharClass::AnyWhitespace);
            let lexeme = lex_at(s);
            assert(self@ =~= old(self)@.skip((skipped + lexeme.len) as int));
        }
        Some(result)
    }
}

} // verus!
