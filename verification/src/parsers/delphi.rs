//! Delphi source text.
pub mod lexer;
