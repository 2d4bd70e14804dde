//! From text to tokens, and from tokens to expressions and values.

pub mod expression;
pub mod parse_with_dict;
pub mod parser;
pub mod tokens;
pub mod try_from_str_with_dict;
