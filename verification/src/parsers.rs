//! Analyses of source text.
pub mod delphi;
pub mod error;
pub mod rust_parser;
