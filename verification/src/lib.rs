//! A small expression language for chemical entities: text is tokenized,
//! built token by token into an expression tree, and evaluated against a
//! dictionary of named values.
//!
//! Every function comes with a contract over mathematical values: a text is
//! a sequence of characters, a dictionary a map from names to values, an
//! expression a tree of sequences.
//!
//! - `helper` holds what does not know about chemistry: a lookahead buffer
//!   in front of any source of items, lists of keys with coefficients, and
//!   runs of characters.
//! - `chem_data` holds elements and their table, molecular formulas,
//!   equations, values, and the dictionary.
//! - `parse` holds the tokenizer, the builders that take tokens one by one,
//!   the expression tree with its evaluation, and a parser for elements and
//!   formulas that stand directly in a text.
//!
//! What the tokenizer yields is `parse::tokens::tokens_of`, what the
//! builders do is the state machine of `parse::expression::model`, and what
//! an expression evaluates to is `parse::expression::eval`. What follows
//! from these is proved in `parse::tokens`, `parse::expression::laws` and
//! `parse::expression::sentences`.

pub mod chem_data;
pub mod helper;
pub mod parse;
