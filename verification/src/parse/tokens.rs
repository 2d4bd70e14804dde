//! The tokenizer: from characters to tokens, one token per request.

use crate::helper::peek_iter::{PeekIter, Source};
use crate::helper::text::{
    is_alphabetic, is_digit, is_lowercase, is_whitespace, lemma_run_len, run_len, CharClass,
};
use vstd::prelude::*;

verus! {

/// The smallest lexical unit.
#[derive(Debug, PartialEq, Eq)]
pub enum Token {
    Unknown(String),
    Whitespace,
    Identifier(String),
    StringLiteral(String),
    Integer(String),
    Real(String),
    LParen,
    RParen,
    LBrack,
    RBrack,
    LCurly,
    RCurly,
    Dot,
    Bang,
    Cash,
    CashCash,
    EqualSign,
    PlusSign,
    MinusSign,
    MulSign,
    DivSign,
    PowSign,
    Comma,
    Colon,
    Arrow,
    Ellipse,
}

/// A token with its text as a sequence of characters.
pub enum TokenView {
    Unknown(Seq<char>),
    Whitespace,
    Identifier(Seq<char>),
    StringLiteral(Seq<char>),
    Integer(Seq<char>),
    Real(Seq<char>),
    LParen,
    RParen,
    LBrack,
    RBrack,
    LCurly,
    RCurly,
    Dot,
    Bang,
    Cash,
    CashCash,
    EqualSign,
    PlusSign,
    MinusSign,
    MulSign,
    DivSign,
    PowSign,
    Comma,
    Colon,
    Arrow,
    Ellipse,
}

impl View for Token {
    type V = TokenView;

    open spec fn view(&self) -> TokenView {
        match self {
            Token::Unknown(s) => TokenView::Unknown(s@),
            Token::Whitespace => TokenView::Whitespace,
            Token::Identifier(s) => TokenView::Identifier(s@),
            Token::StringLiteral(s) => TokenView::StringLiteral(s@),
            Token::Integer(s) => TokenView::Integer(s@),
            Token::Real(s) => TokenView::Real(s@),
            Token::LParen => TokenView::LParen,
            Token::RParen => TokenView::RParen,
            Token::LBrack => TokenView::LBrack,
            Token::RBrack => TokenView::RBrack,
            Token::LCurly => TokenView::LCurly,
            Token::RCurly => TokenView::RCurly,
            Token::Dot => TokenView::Dot,
            Token::Bang => TokenView::Bang,
            Token::Cash => TokenView::Cash,
            Token::CashCash => TokenView::CashCash,
            Token::EqualSign => TokenView::EqualSign,
            Token::PlusSign => TokenView::PlusSign,
            Token::MinusSign => TokenView::MinusSign,
            Token::MulSign => TokenView::MulSign,
            Token::DivSign => TokenView::DivSign,
            Token::PowSign => TokenView::PowSign,
            Token::Comma => TokenView::Comma,
            Token::Colon => TokenView::Colon,
            Token::Arrow => TokenView::Arrow,
            Token::Ellipse => TokenView::Ellipse,
        }
    }
}

impl Clone for Token {
    fn clone(&self) -> (r: Self)
        ensures
            r == *self,
    {
        match self {
            Token::Unknown(s) => Token::Unknown(s.clone()),
            Token::Whitespace => Token::Whitespace,
            Token::Identifier(s) => Token::Identifier(s.clone()),
            Token::StringLiteral(s) => Token::StringLiteral(s.clone()),
            Token::Integer(s) => Token::Integer(s.clone()),
            Token::Real(s) => Token::Real(s.clone()),
            Token::LParen => Token::LParen,
            Token::RParen => Token::RParen,
            Token::LBrack => Token::LBrack,
            Token::RBrack => Token::RBrack,
            Token::LCurly => Token::LCurly,
            Token::RCurly => Token::RCurly,
            Token::Dot => Token::Dot,
            Token::Bang => Token::Bang,
            Token::Cash => Token::Cash,
            Token::CashCash => Token::CashCash,
            Token::EqualSign => Token::EqualSign,
            Token::PlusSign => Token::PlusSign,
            Token::MinusSign => Token::MinusSign,
            Token::MulSign => Token::MulSign,
            Token::DivSign => Token::DivSign,
            Token::PowSign => Token::PowSign,
            Token::Comma => Token::Comma,
            Token::Colon => Token::Colon,
            Token::Arrow => Token::Arrow,
            Token::Ellipse => Token::Ellipse,
        }
    }
}

/// The structural tokens and the text of each.
pub open spec fn token_table() -> Seq<(Seq<char>, TokenView)> {
    seq![
        (seq!['('], TokenView::LParen),
        (seq![')'], TokenView::RParen),
        (seq!['['], TokenView::LBrack),
        (seq![']'], TokenView::RBrack),
        (seq!['{'], TokenView::LCurly),
        (seq!['}'], TokenView::RCurly),
        (seq!['.'], TokenView::Dot),
        (seq!['!'], TokenView::Bang),
        (seq!['$'], TokenView::Cash),
        (seq!['$', '$'], TokenView::CashCash),
        (seq!['='], TokenView::EqualSign),
        (seq!['+'], TokenView::PlusSign),
        (seq!['-'], TokenView::MinusSign),
        (seq!['*'], TokenView::MulSign),
        (seq!['/'], TokenView::DivSign),
        (seq!['^'], TokenView::PowSign),
        (seq![','], TokenView::Comma),
        (seq![':'], TokenView::Colon),
        (seq!['-', '>'], TokenView::Arrow),
        (seq!['.', '.', '.'], TokenView::Ellipse),
    ]
}

/// Among the first `n` entries of the table, the one whose text is the
/// longest prefix of `s`; of two equally long ones, the later entry.
///
/// Every candidate is a prefix of the same text, so the longer of two is also
/// the greater one when they are compared as strings.
pub open spec fn longest_match(s: Seq<char>, n: nat) -> Option<int>
    decreases n,
{
    if n == 0 {
        None
    } else {
        let i = n - 1;
        let earlier = longest_match(s, i as nat);
        if i < token_table().len() && token_table()[i].0.is_prefix_of(s) && (earlier is None
            || token_table()[earlier->0].0.len() <= token_table()[i].0.len()) {
            Some(i)
        } else {
            earlier
        }
    }
}

/// A token and the number of characters it was read from.
pub struct Lexeme {
    pub token: TokenView,
    pub len: nat,
}

/// A `mark` followed by at least one digit, with all the digits that follow:
/// its length, or 0 where `s` does not start with one.
pub open spec fn marked_digits_len(s: Seq<char>, mark: char) -> nat {
    if s.len() >= 2 && s[0] == mark && is_digit(s[1]) {
        1 + run_len(s.drop_first(), CharClass::Digit)
    } else {
        0
    }
}

/// Whether the digits at the start of `s` are followed by a decimal point
/// and more digits.
pub open spec fn number_is_real(s: Seq<char>) -> bool {
    marked_digits_len(s.skip(run_len(s, CharClass::Digit) as int), '.') > 0
}

/// The length of the numeral at the start of `s`: digits, then possibly a
/// decimal point with more digits, then possibly an `e` with more digits.
pub open spec fn number_len(s: Seq<char>) -> nat {
    let digits = run_len(s, CharClass::Digit);
    let fraction = marked_digits_len(s.skip(digits as int), '.');
    let exponent = if fraction > 0 {
        marked_digits_len(s.skip((digits + fraction) as int), 'e')
    } else {
        0
    };
    digits + fraction + exponent
}

/// The token at the start of a non-empty text that does not begin with an
/// underscore.
pub open spec fn lex_at(s: Seq<char>) -> Lexeme
    recommends
        s.len() > 0,
{
    let c = s[0];
    let rest = s.drop_first();
    if is_whitespace(c) {
        Lexeme { token: TokenView::Whitespace, len: run_len(s, CharClass::Whitespace) }
    } else if is_alphabetic(c) {
        let n = 1 + run_len(rest, CharClass::Lowercase);
        Lexeme { token: TokenView::Identifier(s.take(n as int)), len: n }
    } else if c == '\'' {
        let n = run_len(rest, CharClass::Alphanumeric);
        Lexeme { token: TokenView::Identifier(rest.take(n as int)), len: 1 + n }
    } else if c == '"' {
        let n = run_len(rest, CharClass::StringBody);
        Lexeme {
            token: TokenView::StringLiteral(rest.take(n as int)),
            len: if n < rest.len() {
                n + 2
            } else {
                n + 1
            },
        }
    } else if is_digit(c) {
        let n = number_len(s);
        Lexeme {
            token: if number_is_real(s) {
                TokenView::Real(s.take(n as int))
            } else {
                TokenView::Integer(s.take(n as int))
            },
            len: n,
        }
    } else if c == '#' {
        let n = number_len(rest);
        Lexeme { token: TokenView::Real(rest.take(n as int)), len: 1 + n }
    } else {
        match longest_match(s, token_table().len()) {
            Some(i) => Lexeme { token: token_table()[i].1, len: token_table()[i].0.len() },
            None => Lexeme { token: TokenView::Unknown(seq![c]), len: 1 },
        }
    }
}

/// The first token of `s` and the number of characters it takes up, the
/// underscores in front of it included. `None` where `s` holds underscores
/// only, or nothing.
pub open spec fn first_token(s: Seq<char>) -> Option<Lexeme> {
    let skipped = run_len(s, CharClass::Underscore);
    if skipped >= s.len() {
        None
    } else {
        let lexeme = lex_at(s.skip(skipped as int));
        Some(Lexeme { token: lexeme.token, len: skipped + lexeme.len })
    }
}

/// All the tokens of `s`, in order.
pub open spec fn tokens_of(s: Seq<char>) -> Seq<TokenView>
    decreases s.len(),
{
    match first_token(s) {
        Some(lexeme) => if 0 < lexeme.len <= s.len() {
            seq![lexeme.token] + tokens_of(s.skip(lexeme.len as int))
        } else {
            Seq::empty()
        },
        None => Seq::empty(),
    }
}

/// For each token of `s`, the stretch of `s` it was read from.
pub open spec fn token_spans(s: Seq<char>) -> Seq<Seq<char>>
    decreases s.len(),
{
    match first_token(s) {
        Some(lexeme) => if 0 < lexeme.len <= s.len() {
            seq![s.take(lexeme.len as int)] + token_spans(s.skip(lexeme.len as int))
        } else {
            Seq::empty()
        },
        None => Seq::empty(),
    }
}

/// What is left of `s` after its last token: underscores, which belong to no
/// token.
pub open spec fn trailing_underscores(s: Seq<char>) -> Seq<char>
    decreases s.len(),
{
    match first_token(s) {
        Some(lexeme) => if 0 < lexeme.len <= s.len() {
            trailing_underscores(s.skip(lexeme.len as int))
        } else {
            s
        },
        None => s,
    }
}

/// The table of structural tokens as the tokenizer holds it.
pub open spec fn table_view(table: Seq<(&'static str, Token)>) -> Seq<(Seq<char>, TokenView)> {
    table.map_values(|pair: (&'static str, Token)| (pair.0@, pair.1@))
}

/// The table of structural tokens, built once for each tokenizer.
fn structural_tokens() -> (table: Vec<(&'static str, Token)>)
    ensures
        table_view(table@) == token_table(),
{
    let table = vec![
        ("(", Token::LParen),
        (")", Token::RParen),
        ("[", Token::LBrack),
        ("]", Token::RBrack),
        ("{", Token::LCurly),
        ("}", Token::RCurly),
        (".", Token::Dot),
        ("!", Token::Bang),
        ("$", Token::Cash),
        ("$$", Token::CashCash),
        ("=", Token::EqualSign),
        ("+", Token::PlusSign),
        ("-", Token::MinusSign),
        ("*", Token::MulSign),
        ("/", Token::DivSign),
        ("^", Token::PowSign),
        (",", Token::Comma),
        (":", Token::Colon),
        ("->", Token::Arrow),
        ("...", Token::Ellipse),
    ];
    proof {
        reveal_strlit("(");
        reveal_strlit(")");
        reveal_strlit("[");
        reveal_strlit("]");
        reveal_strlit("{");
        reveal_strlit("}");
        reveal_strlit(".");
        reveal_strlit("!");
        reveal_strlit("$");
        reveal_strlit("$$");
        reveal_strlit("=");
        reveal_strlit("+");
        reveal_strlit("-");
        reveal_strlit("*");
        reveal_strlit("/");
        reveal_strlit("^");
        reveal_strlit(",");
        reveal_strlit(":");
        reveal_strlit("->");
        reveal_strlit("...");
        let view = table_view(table@);
        assert(view.len() == 20);
        assert forall|i: int| 0 <= i < 20 implies view[i].0 =~= token_table()[i].0 && view[i].1
            == token_table()[i].1 by {}
        assert(view =~= token_table());
    }
    table
}

/// Turns a source of characters into tokens, one per request.
///
/// The view is the text that has not been tokenized yet.
pub struct Tokens<S: Source<Item = char>> {
    source: PeekIter<S>,
    token_strings: Vec<(&'static str, Token)>,
}

impl<S: Source<Item = char>> View for Tokens<S> {
    type V = Seq<char>;

    closed spec fn view(&self) -> Seq<char> {
        self.source@
    }
}

impl<S: Source<Item = char>> Tokens<S> {
    /// The source is well formed, the table of structural tokens is the
    /// fixed one, and no more than three characters have been read ahead.
    pub closed spec fn wf(&self) -> bool {
        &&& self.source.wf()
        &&& table_view(self.token_strings@) == token_table()
        &&& self.source.buffered() <= 3
    }

    /// How many characters have been taken out of the source and not yet
    /// been made part of a token.
    pub closed spec fn lookahead(&self) -> nat {
        self.source.buffered()
    }

    /// The tokenizer never reads more than three characters ahead: the
    /// length of the longest structural token.
    pub proof fn lemma_lookahead_bound(&self)
        requires
            self.wf(),
        ensures
            self.lookahead() <= 3,
    {
    }

    /// A tokenizer for the characters of `source`.
    pub fn new(source: S) -> (r: Self)
        requires
            source.wf(),
        ensures
            r.wf(),
            r@ == source.remaining(),
    {
        Tokens { source: PeekIter::new(source), token_strings: structural_tokens() }
    }

    /// Whether the text ahead starts with `pattern`. Nothing is consumed.
    fn check_match(&mut self, pattern: &str) -> (r: bool)
        requires
            old(self).wf(),
            pattern@.len() <= 3,
        ensures
            final(self).wf(),
            final(self)@ == old(self)@,
            final(self).token_strings == old(self).token_strings,
            r == pattern@.is_prefix_of(old(self)@),
    {
        let n = pattern.unicode_len();
        let mut i: usize = 0;
        while i < n
            invariant
                self.wf(),
                self@ == old(self)@,
                self.token_strings == old(self).token_strings,
                n == pattern@.len(),
                i <= n <= 3,
                i <= self@.len(),
                forall|j: int| 0 <= j < i ==> pattern@[j] == self@[j],
            decreases n - i,
        {
            let pattern_char = pattern.get_char(i);
            match self.source.peek(i) {
                None => {
                    return false;
                },
                Some(stream_char) => {
                    if *stream_char != pattern_char {
                        assert(pattern@[i as int] != self@[i as int]);
                        assert(!pattern@.is_prefix_of(self@)) by {
                            if pattern@.is_prefix_of(self@) {
                                assert(pattern@[i as int] == self@.subrange(
                                    0,
                                    pattern@.len() as int,
                                )[i as int]);
                            }
                        }
                        return false;
                    }
                },
            }
            i = i + 1;
        }
        assert(pattern@ =~= self@.subrange(0, pattern@.len() as int));
        true
    }

    /// Takes the longest structural token that the text ahead starts with.
    /// Where none matches, nothing is consumed.
    fn get_longest_simple_token(&mut self) -> (r: Option<Token>)
        requires
            old(self).wf(),
        ensures
            final(self).wf(),
            match longest_match(old(self)@, token_table().len()) {
                Some(i) => {
                    &&& 0 <= i < token_table().len()
                    &&& token_table()[i].0.len() <= old(self)@.len()
                    &&& r matches Some(token)
                    &&& token@ == token_table()[i].1
                    &&& final(self)@ == old(self)@.skip(token_table()[i].0.len() as int)
                },
                None => r is None && final(self)@ == old(self)@,
            },
    {
        let mut best: Option<usize> = None;
        let mut best_len: usize = 0;
        let mut i: usize = 0;
        let count = self.token_strings.len();
        while i < count
            invariant
                self.wf(),
                self@ == old(self)@,
                self.token_strings == old(self).token_strings,
                count == self.token_strings@.len(),
                count == token_table().len(),
                i <= count,
                match best {
                    Some(b) => {
                        &&& b < i
                        &&& longest_match(self@, i as nat) == Some(b as int)
                        &&& best_len == token_table()[b as int].0.len()
                        &&& token_table()[b as int].0.is_prefix_of(self@)
                    },
                    None => longest_match(self@, i as nat) is None,
                },
            decreases count - i,
        {
            let pattern: &'static str = self.token_strings[i].0;
            assert(table_view(self.token_strings@)[i as int].0 == pattern@);
            proof {
                lemma_table_texts();
            }
            if self.check_match(pattern) {
                let len = pattern.unicode_len();
                if best.is_none() || best_len <= len {
                    best = Some(i);
                    best_len = len;
                }
            }
            i = i + 1;
        }
        match best {
            None => None,
            Some(b) => {
                let mut k: usize = 0;
                while k < best_len
                    invariant
                        self.wf(),
                        self.token_strings == old(self).token_strings,
                        k <= best_len <= old(self)@.len(),
                        self@ == old(self)@.skip(k as int),
                    decreases best_len - k,
                {
                    let _ = self.source.next();
                    assert(self@ =~= old(self)@.skip((k + 1) as int));
                    k = k + 1;
                }
                assert(table_view(self.token_strings@)[b as int].1 == self.token_strings@[b as int].1@);
                Some(self.token_strings[b].1.clone())
            },
        }
    }

    /// Takes the longest run of characters of `class` and appends it to
    /// `text`.
    fn take_while_into(&mut self, class: CharClass, text: &mut String)
        requires
            old(self).wf(),
        ensures
            final(self).wf(),
            final(self).token_strings == old(self).token_strings,
            run_len(old(self)@, class) <= old(self)@.len(),
            final(text)@ == old(text)@ + old(self)@.take(run_len(old(self)@, class) as int),
            final(self)@ == old(self)@.skip(run_len(old(self)@, class) as int),
    {
        let ghost mut taken: nat = 0;
        proof {
            lemma_run_len(self@, class);
        }
        loop
            invariant
                self.wf(),
                self.token_strings == old(self).token_strings,
                taken + run_len(self@, class) == run_len(old(self)@, class),
                taken <= old(self)@.len(),
                self@ == old(self)@.skip(taken as int),
                text@ == old(text)@ + old(self)@.take(taken as int),
            decreases self@.len(),
        {
            let in_class = |c: &char| -> (b: bool)
                ensures
                    b == class.has(*c),
                {
                    class.contains(*c)
                };
            let next = self.source.next_if(in_class);
            match next {
                Some(c) => {
                    text.push(c);
                    proof {
                        assert(old(self)@.skip(taken as int)[0] == c);
                        assert(text@ =~= old(text)@ + old(self)@.take((taken + 1) as int));
                        assert(self@ =~= old(self)@.skip((taken + 1) as int));
                        taken = taken + 1;
                    }
                },
                None => {
                    assert(old(self)@.take(taken as int) =~= old(self)@.take(
                        run_len(old(self)@, class) as int,
                    ));
                    return ;
                },
            }
        }
    }

    /// Takes the longest run of characters of `class` and drops it.
    fn skip_while(&mut self, class: CharClass)
        requires
            old(self).wf(),
        ensures
            final(self).wf(),
            final(self).token_strings == old(self).token_strings,
            run_len(old(self)@, class) <= old(self)@.len(),
            final(self)@ == old(self)@.skip(run_len(old(self)@, class) as int),
    {
        let mut dropped = String::new();
        self.take_while_into(class, &mut dropped);
    }

    /// Returns the longest run of characters of `class` at the front of the
    /// text and removes it. The result is empty where the text does not
    /// start with such a character.
    fn get_longest_valid_string(&mut self, class: CharClass) -> (r: String)
        requires
            old(self).wf(),
        ensures
            final(self).wf(),
            final(self).token_strings == old(self).token_strings,
            run_len(old(self)@, class) <= old(self)@.len(),
            r@ == old(self)@.take(run_len(old(self)@, class) as int),
            final(self)@ == old(self)@.skip(run_len(old(self)@, class) as int),
    {
        let mut result = String::new();
        self.take_while_into(class, &mut result);
        assert(result@ =~= old(self)@.take(run_len(old(self)@, class) as int));
        result
    }

    /// Where the text ahead is `mark` and then a digit, takes the mark and
    /// every digit after it, and appends them to `text`.
    fn get_marked_digits(&mut self, mark: char, text: &mut String) -> (found: bool)
        requires
            old(self).wf(),
        ensures
            final(self).wf(),
            final(self).token_strings == old(self).token_strings,
            found == (marked_digits_len(old(self)@, mark) > 0),
            marked_digits_len(old(self)@, mark) <= old(self)@.len(),
            final(text)@ == old(text)@ + old(self)@.take(
                marked_digits_len(old(self)@, mark) as int,
            ),
            final(self)@ == old(self)@.skip(marked_digits_len(old(self)@, mark) as int),
    {
        let starts = match self.source.peek(0) {
            Some(c) => *c == mark,
            None => false,
        };
        let digit_follows = starts && match self.source.peek(1) {
            Some(c) => CharClass::Digit.contains(*c),
            None => false,
        };
        if !digit_follows {
            assert(text@ =~= old(text)@ + old(self)@.take(0));
            assert(self@ =~= old(self)@.skip(0));
            return false;
        }
        let _ = self.source.next();
        text.push(mark);
        let ghost rest = self@;
        let ghost pushed = text@;
        self.take_while_into(CharClass::Digit, text);
        proof {
            let n = run_len(rest, CharClass::Digit);
            assert(rest == old(self)@.drop_first());
            assert(text@ =~= old(text)@ + old(self)@.take((1 + n) as int));
            assert(self@ =~= old(self)@.skip((1 + n) as int));
        }
        true
    }

    /// Takes the numeral at the front of the text and appends it to `text`.
    /// Tells whether it has a decimal point.
    fn scan_number(&mut self, text: &mut String) -> (is_real: bool)
        requires
            old(self).wf(),
        ensures
            final(self).wf(),
            final(self).token_strings == old(self).token_strings,
            is_real == number_is_real(old(self)@),
            number_len(old(self)@) <= old(self)@.len(),
            final(text)@ == old(text)@ + old(self)@.take(number_len(old(self)@) as int),
            final(self)@ == old(self)@.skip(number_len(old(self)@) as int),
    {
        let ghost s = self@;
        let ghost digits = run_len(s, CharClass::Digit);
        self.take_while_into(CharClass::Digit, text);
        let ghost fraction = marked_digits_len(s.skip(digits as int), '.');
        let is_real = self.get_marked_digits('.', text);
        assert(text@ =~= old(text)@ + s.take((digits + fraction) as int));
        assert(self@ =~= s.skip((digits + fraction) as int));
        if is_real {
            let ghost exponent = marked_digits_len(s.skip((digits + fraction) as int), 'e');
            let _ = self.get_marked_digits('e', text);
            assert(text@ =~= old(text)@ + s.take((digits + fraction + exponent) as int));
            assert(self@ =~= s.skip((digits + fraction + exponent) as int));
        }
        is_real
    }
}

impl<S: Source<Item = char>> Tokens<S> {
    /// What every way of reading one token guarantees: the token is the one
    /// at the front of the text, and exactly its characters are consumed.
    pub open spec fn reads_token(&self, before: &Self, token: Token) -> bool {
        &&& self.wf()
        &&& token@ == lex_at(before@).token
        &&& 0 < lex_at(before@).len <= before@.len()
        &&& self@ == before@.skip(lex_at(before@).len as int)
    }

    /// Reads a run of white space as one token.
    fn read_whitespace(&mut self) -> (token: Token)
        requires
            old(self).wf(),
            old(self)@.len() > 0,
            is_whitespace(old(self)@[0]),
        ensures
            final(self).reads_token(old(self), token),
    {
        self.skip_while(CharClass::Whitespace);
        Token::Whitespace
    }

    /// Reads an identifier: a letter and the small letters after it.
    fn read_identifier(&mut self) -> (token: Token)
        requires
            old(self).wf(),
            old(self)@.len() > 0,
            !is_whitespace(old(self)@[0]),
            is_alphabetic(old(self)@[0]),
        ensures
            final(self).reads_token(old(self), token),
    {
        let ghost s = self@;
        let mut text = String::new();
        match self.source.next() {
            Some(first) => text.push(first),
            None => {},
        }
        self.take_while_into(CharClass::Lowercase, &mut text);
        proof {
            let n = run_len(s.drop_first(), CharClass::Lowercase);
            assert(text@ =~= s.take((1 + n) as int));
            assert(self@ =~= s.skip((1 + n) as int));
        }
        Token::Identifier(text)
    }

    /// Reads an identifier after an apostrophe: the letters and digits that
    /// follow it.
    fn read_quoted_identifier(&mut self) -> (token: Token)
        requires
            old(self).wf(),
            old(self)@.len() > 0,
            old(self)@[0] == '\'',
        ensures
            final(self).reads_token(old(self), token),
    {
        let ghost s = self@;
        let _ = self.source.next();
        let text = self.get_longest_valid_string(CharClass::Alphanumeric);
        proof {
            let n = run_len(s.drop_first(), CharClass::Alphanumeric);
            assert(self@ =~= s.skip((1 + n) as int));
        }
        Token::Identifier(text)
    }

    /// Reads a string literal: everything up to the next double quote, or to
    /// the end of the text where there is none.
    fn read_string_literal(&mut self) -> (token: Token)
        requires
            old(self).wf(),
            old(self)@.len() > 0,
            old(self)@[0] == '"',
        ensures
            final(self).reads_token(old(self), token),
    {
        let ghost s = self@;
        let _ = self.source.next();
        let text = self.get_longest_valid_string(CharClass::StringBody);
        let ghost n = run_len(s.drop_first(), CharClass::StringBody);
        let ghost before = self@;
        let _ = self.source.next();
        proof {
            if n < s.drop_first().len() {
                assert(self@ =~= s.skip((n + 2) as int));
            } else {
                assert(before.len() == 0);
                assert(self@ =~= s.skip((n + 1) as int));
            }
        }
        Token::StringLiteral(text)
    }

    /// Reads a numeral: real where it has a decimal point, integer otherwise.
    fn read_number(&mut self) -> (token: Token)
        requires
            old(self).wf(),
            old(self)@.len() > 0,
            is_digit(old(self)@[0]),
        ensures
            final(self).reads_token(old(self), token),
    {
        let ghost s = self@;
        let mut text = String::new();
        let is_real = self.scan_number(&mut text);
        proof {
            assert(text@ =~= s.take(number_len(s) as int));
            assert(run_len(s, CharClass::Digit) >= 1);
        }
        if is_real {
            Token::Real(text)
        } else {
            Token::Integer(text)
        }
    }

    /// Reads a numeral after a hash mark: real in any case.
    fn read_marked_real(&mut self) -> (token: Token)
        requires
            old(self).wf(),
            old(self)@.len() > 0,
            old(self)@[0] == '#',
        ensures
            final(self).reads_token(old(self), token),
    {
        let ghost s = self@;
        let _ = self.source.next();
        let mut text = String::new();
        let _ = self.scan_number(&mut text);
        proof {
            let n = number_len(s.drop_first());
            assert(text@ =~= s.drop_first().take(n as int));
            assert(self@ =~= s.skip((1 + n) as int));
        }
        Token::Real(text)
    }

    /// Reads the longest structural token, or one unknown character where
    /// none matches.
    fn read_structural(&mut self) -> (token: Token)
        requires
            old(self).wf(),
            old(self)@.len() > 0,
            !is_whitespace(old(self)@[0]),
            !is_alphabetic(old(self)@[0]),
            !is_digit(old(self)@[0]),
            old(self)@[0] != '\'',
            old(self)@[0] != '"',
            old(self)@[0] != '#',
        ensures
            final(self).reads_token(old(self), token),
    {
        let ghost s = self@;
        match self.get_longest_simple_token() {
            Some(token) => {
                proof {
                    lemma_table_texts();
                }
                token
            },
            None => {
                let mut text = String::new();
                match self.source.next() {
                    Some(c) => text.push(c),
                    None => {},
                }
                assert(text@ =~= seq![s[0]]);
                assert(self@ =~= s.skip(1));
                Token::Unknown(text)
            },
        }
    }
}

impl<S: Source<Item = char>> Source for Tokens<S> {
    type Item = Token;

    open spec fn wf(&self) -> bool {
        Tokens::wf(self)
    }

    open spec fn remaining(&self) -> Seq<TokenView> {
        tokens_of(self@)
    }

    /// The next token, read from the front of the text, or `None` where
    /// nothing but underscores is left.
    fn next(&mut self) -> (r: Option<Token>)
        ensures
            match r {
                Some(token) => {
                    &&& first_token(old(self)@) matches Some(lexeme)
                    &&& token@ == lexeme.token
                    &&& 0 < lexeme.len <= old(self)@.len()
                    &&& final(self)@ == old(self)@.skip(lexeme.len as int)
                },
                None => first_token(old(self)@) is None && final(self)@.len() == 0,
            },
    {
        self.skip_while(CharClass::Underscore);
        let ghost skipped = run_len(old(self)@, CharClass::Underscore);
        let ghost s = self@;
        let c = match self.source.peek(0) {
            Some(c) => *c,
            None => {
                return None;
            },
        };
        let token = if CharClass::Whitespace.contains(c) {
            self.read_whitespace()
        } else if CharClass::Alphabetic.contains(c) {
            self.read_identifier()
        } else if c == '\'' {
            self.read_quoted_identifier()
        } else if c == '"' {
            self.read_string_literal()
        } else if CharClass::Digit.contains(c) {
            self.read_number()
        } else if c == '#' {
            self.read_marked_real()
        } else {
            self.read_structural()
        };
        proof {
            let lexeme = lex_at(s);
            assert(self@ =~= old(self)@.skip((skipped + lexeme.len) as int));
        }
        Some(token)
    }
}

/// The text of a structural token has one to three characters.
pub proof fn lemma_table_texts()
    ensures
        forall|i: int|
            0 <= i < token_table().len() ==> 0 < (#[trigger] token_table()[i]).0.len() <= 3,
{
}

/// The entry that `longest_match` picks among the first `n` is a prefix of
/// the text, and no matching entry among them is longer.
pub proof fn lemma_longest_match(s: Seq<char>, n: nat)
    requires
        n <= token_table().len(),
    ensures
        match longest_match(s, n) {
            Some(i) => {
                &&& 0 <= i < n
                &&& token_table()[i].0.is_prefix_of(s)
                &&& forall|j: int|
                    0 <= j < n && (#[trigger] token_table()[j]).0.is_prefix_of(s)
                        ==> token_table()[j].0.len() <= token_table()[i].0.len()
            },
            None => forall|j: int| 0 <= j < n ==> !(#[trigger] token_table()[j]).0.is_prefix_of(s),
        },
    decreases n,
{
    if n > 0 {
        lemma_longest_match(s, (n - 1) as nat);
    }
}

/// Letter and digit boundary: an identifier that starts with a letter is
/// that letter and the small letters after it, so it holds no digit and
/// ends before the first one.
pub proof fn lemma_letter_run_holds_no_digit(s: Seq<char>)
    requires
        s.len() > 0,
        is_alphabetic(s[0]),
    ensures
        lex_at(s).token matches TokenView::Identifier(text) && {
            &&& text.len() == lex_at(s).len
            &&& text == s.take(text.len() as int)
            &&& is_alphabetic(text[0])
            &&& forall|i: int| 0 < i < text.len() ==> is_lowercase(#[trigger] text[i])
            &&& forall|i: int| 0 <= i < text.len() ==> !is_digit(#[trigger] text[i])
        },
{
    let rest = s.drop_first();
    lemma_run_len(rest, CharClass::Lowercase);
    let n = 1 + run_len(rest, CharClass::Lowercase);
    let text = s.take(n as int);
    assert forall|i: int| 0 < i < text.len() implies is_lowercase(
        #[trigger] text[i],
    ) by {
        assert(text[i] == rest[i - 1]);
    }
}

/// The order of texts as strings: character by character, and a text
/// before each of its extensions.
pub open spec fn text_le(a: Seq<char>, b: Seq<char>) -> bool
    decreases a.len(),
{
    if a.len() == 0 {
        true
    } else if b.len() == 0 {
        false
    } else if a[0] != b[0] {
        a[0] < b[0]
    } else {
        text_le(a.drop_first(), b.drop_first())
    }
}

/// A text is not greater than any text that starts with it.
pub proof fn lemma_prefix_le(a: Seq<char>, b: Seq<char>)
    requires
        a.is_prefix_of(b),
    ensures
        text_le(a, b),
    decreases a.len(),
{
    if a.len() > 0 {
        assert(a[0] == b.subrange(0, a.len() as int)[0]);
        assert(a.drop_first() =~= b.drop_first().subrange(0, a.len() - 1));
        lemma_prefix_le(a.drop_first(), b.drop_first());
    }
}

/// The structural token that is read is the greatest of those that match,
/// compared as strings: each of them is the beginning of the one that is
/// read.
pub proof fn lemma_longest_match_is_greatest(s: Seq<char>, j: int)
    requires
        0 <= j < token_table().len(),
        token_table()[j].0.is_prefix_of(s),
    ensures
        longest_match(s, token_table().len()) matches Some(i) && text_le(
            token_table()[j].0,
            token_table()[i].0,
        ),
{
    lemma_longest_match(s, token_table().len());
    let i = longest_match(s, token_table().len())->0;
    let shorter = token_table()[j].0;
    let longer = token_table()[i].0;
    assert(shorter =~= longer.subrange(0, shorter.len() as int)) by {
        assert(shorter =~= s.subrange(0, shorter.len() as int));
        assert(longer =~= s.subrange(0, longer.len() as int));
    }
    lemma_prefix_le(shorter, longer);
}

/// Longest match, in full: where a structural token's text starts the text
/// ahead and no structural token with a longer text does, that token is
/// read, and exactly its characters are taken.
pub proof fn lemma_longest_token_is_read(s: Seq<char>, longest: int)
    requires
        0 <= longest < token_table().len(),
        token_table()[longest].0.is_prefix_of(s),
        forall|j: int|
            0 <= j < token_table().len() && (#[trigger] token_table()[j]).0.is_prefix_of(s)
                ==> token_table()[j].0.len() <= token_table()[longest].0.len(),
    ensures
        lex_at(s).token == token_table()[longest].1,
        lex_at(s).len == token_table()[longest].0.len(),
{
    lemma_longest_match(s, token_table().len());
    let text = token_table()[longest].0;
    assert(s[0] == s.subrange(0, text.len() as int)[0]);
    assert(s[0] == text[0]);
    let i = longest_match(s, token_table().len())->0;
    let found = token_table()[i].0;
    assert(found.len() == text.len());
    assert(found =~= text) by {
        assert(found =~= s.subrange(0, found.len() as int));
        assert(text =~= s.subrange(0, text.len() as int));
    }
    assert(i == longest) by {
        lemma_table_texts_differ(i, longest);
    }
}

/// The length of a text and its first character, as one number.
pub open spec fn text_key(text: Seq<char>) -> int {
    text.len() * 0x200000 + (text[0] as int)
}

/// No two structural tokens have the same text: they differ in length or in
/// the first character.
pub proof fn lemma_table_texts_differ(i: int, j: int)
    requires
        0 <= i < token_table().len(),
        0 <= j < token_table().len(),
        token_table()[i].0 == token_table()[j].0,
    ensures
        i == j,
{
    let table = token_table();
    assert(text_key(table[0].0) == 0x200000 + ('(' as int));
    assert(text_key(table[1].0) == 0x200000 + (')' as int));
    assert(text_key(table[2].0) == 0x200000 + ('[' as int));
    assert(text_key(table[3].0) == 0x200000 + (']' as int));
    assert(text_key(table[4].0) == 0x200000 + ('{' as int));
    assert(text_key(table[5].0) == 0x200000 + ('}' as int));
    assert(text_key(table[6].0) == 0x200000 + ('.' as int));
    assert(text_key(table[7].0) == 0x200000 + ('!' as int));
    assert(text_key(table[8].0) == 0x200000 + ('$' as int));
    assert(text_key(table[9].0) == 0x400000 + ('$' as int));
    assert(text_key(table[10].0) == 0x200000 + ('=' as int));
    assert(text_key(table[11].0) == 0x200000 + ('+' as int));
    assert(text_key(table[12].0) == 0x200000 + ('-' as int));
    assert(text_key(table[13].0) == 0x200000 + ('*' as int));
    assert(text_key(table[14].0) == 0x200000 + ('/' as int));
    assert(text_key(table[15].0) == 0x200000 + ('^' as int));
    assert(text_key(table[16].0) == 0x200000 + (',' as int));
    assert(text_key(table[17].0) == 0x200000 + (':' as int));
    assert(text_key(table[18].0) == 0x400000 + ('-' as int));
    assert(text_key(table[19].0) == 0x600000 + ('.' as int));
    assert(text_key(table[i].0) == text_key(table[j].0));
}

/// Longest match: where a structural token's text is the beginning of a
/// longer one's, and the text ahead starts with the longer one, the
/// tokenizer does not stop at the shorter: it takes at least the longer
/// one's characters, and the token is not the shorter one.
pub proof fn lemma_longer_token_wins(s: Seq<char>, short: int, long: int)
    requires
        0 <= short < token_table().len(),
        0 <= long < token_table().len(),
        token_table()[short].0.len() < token_table()[long].0.len(),
        token_table()[short].0.is_prefix_of(token_table()[long].0),
        token_table()[long].0.is_prefix_of(s),
    ensures
        lex_at(s).len >= token_table()[long].0.len(),
        lex_at(s).token != token_table()[short].1,
{
    lemma_longest_match(s, token_table().len());
    let text = token_table()[long].0;
    assert(s[0] == s.subrange(0, text.len() as int)[0]);
    assert(s[0] == text[0]);
    let i = longest_match(s, token_table().len())->0;
    assert(token_table()[long].0.len() <= token_table()[i].0.len());
}

/// The stretches that the tokens were read from, put together again, give
/// the text back, up to the underscores after the last token; and there is
/// one stretch for each token.
pub proof fn lemma_spans_partition(s: Seq<char>)
    ensures
        token_spans(s).len() == tokens_of(s).len(),
        token_spans(s).flatten() + trailing_underscores(s) == s,
        forall|i: int|
            0 <= i < trailing_underscores(s).len() ==> #[trigger] trailing_underscores(s)[i] == '_',
    decreases s.len(),
{
    match first_token(s) {
        Some(lexeme) => {
            if 0 < lexeme.len <= s.len() {
                let head = s.take(lexeme.len as int);
                let rest = s.skip(lexeme.len as int);
                lemma_spans_partition(rest);
                let spans = token_spans(s);
                assert(spans.first() == head);
                assert(spans.drop_first() =~= token_spans(rest));
                assert(spans.flatten() == head + token_spans(rest).flatten());
                let flat = token_spans(rest).flatten();
                let tail = trailing_underscores(rest);
                assert(trailing_underscores(s) == tail);
                assert((head + flat) + tail =~= head + (flat + tail));
                assert(head + rest =~= s);
            } else {
                lemma_lexeme_bounds(s);
            }
        },
        None => {
            lemma_run_len(s, CharClass::Underscore);
            assert(token_spans(s).flatten() + trailing_underscores(s) =~= s);
        },
    }
}

/// A token is read from at least one character and from no more than
/// there are.
pub proof fn lemma_lexeme_bounds(s: Seq<char>)
    ensures
        first_token(s) matches Some(lexeme) ==> 0 < lexeme.len <= s.len(),
{
    let skipped = run_len(s, CharClass::Underscore);
    lemma_run_len(s, CharClass::Underscore);
    if skipped < s.len() {
        let t = s.skip(skipped as int);
        let rest = t.drop_first();
        lemma_run_len(t, CharClass::Whitespace);
        lemma_run_len(rest, CharClass::Lowercase);
        lemma_run_len(rest, CharClass::Alphanumeric);
        lemma_run_len(rest, CharClass::StringBody);
        lemma_number_len(t);
        lemma_number_len(rest);
        lemma_longest_match(t, token_table().len());
        lemma_table_texts();
    }
}

/// A numeral is no longer than the text it starts.
pub proof fn lemma_number_len(s: Seq<char>)
    ensures
        number_len(s) <= s.len(),
        run_len(s, CharClass::Digit) <= number_len(s),
{
    let digits = run_len(s, CharClass::Digit);
    lemma_run_len(s, CharClass::Digit);
    let after_digits = s.skip(digits as int);
    lemma_run_len(after_digits.drop_first(), CharClass::Digit);
    let fraction = marked_digits_len(after_digits, '.');
    if fraction > 0 {
        let after_fraction = s.skip((digits + fraction) as int);
        lemma_run_len(after_fraction.drop_first(), CharClass::Digit);
    }
}

/// Round trip: where no underscores are left over after the last token,
/// the stretches of text that the tokens were read from, concatenated in
/// order, are the text.
pub proof fn lemma_round_trip(s: Seq<char>)
    requires
        trailing_underscores(s).len() == 0,
    ensures
        token_spans(s).len() == tokens_of(s).len(),
        token_spans(s).flatten() == s,
{
    lemma_spans_partition(s);
    assert(token_spans(s).flatten() + trailing_underscores(s) =~= token_spans(s).flatten());
}

/// Sources of characters can be turned into tokenizers.
pub trait IntoTokenIter: Source<Item = char> + Sized {
    /// A tokenizer for the characters of this source.
    fn into_token_iter(self) -> (r: Tokens<Self>)
        requires
            self.wf(),
        ensures
            r.wf(),
            r@ == self.remaining(),
    ;
}

impl<S: Source<Item = char>> IntoTokenIter for S {
    fn into_token_iter(self) -> (r: Tokens<S>) {
        Tokens::new(self)
    }
}

} // verus!
