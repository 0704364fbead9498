//! A lexical analyzer: it turns a source string into an ordered sequence of
//! typed tokens by matching one prefix pattern after another against the
//! input that has not been consumed yet.
//!
//! - `token`: the kinds of token and the tokens themselves.
//! - `text`: trimming, prefix removal and the first line of a text.
//! - `engine`: the regular-expression engine that the rules are handed to.
//! - `rules`: the pattern of each kind and what tokenization means.
//! - `tokenizer`: the tokenizer, which does what `rules` says.
//! - `laws`: what holds of every tokenization.

pub mod engine;
pub mod laws;
pub mod rules;
pub mod text;
pub mod token;
pub mod tokenizer;

pub use crate::token::{Token, TokenType, TokenView};
pub use crate::tokenizer::{TokenizeError, Tokenizer};
