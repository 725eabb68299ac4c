//! A verified lexical analyzer for a small imperative language.
//!
//! The scanner walks a character buffer one token at a time: keywords,
//! identifiers, number and string literals, operators, and significant
//! newlines. Its behaviour is pinned down by the ghost scanning model in
//! [`scan`], and every call of [`lexer::Lexer::get_token`] is proved to
//! agree with that model.

pub mod lexer;
pub mod scan;
pub mod tokens;
