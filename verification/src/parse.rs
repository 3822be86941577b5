//! Parsing of object descriptions.

pub mod grammar;
pub mod lexer;
pub mod qobjects;
