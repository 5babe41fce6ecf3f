//! Lexical analysis for a small interpreted language: turns source text into
//! a stream of typed tokens (operators, delimiters, identifiers, keywords,
//! integer literals), ending in an end-of-input marker.

pub mod lexer;
pub mod token;
