//! Cyclomatic complexity of source files, computed from a model of their
//! syntax: either as McCabe's metric on a graph of the syntax, or as a tree
//! of symbols with the number of decision points of each function.
pub mod calculator;
pub mod cyclomatic;
pub mod identity;
pub mod parsers;
pub mod report;
pub mod syntax;
