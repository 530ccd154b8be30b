//! Builds the syntax tree from tokens by recursive descent.

pub mod grammar;
pub mod parser;
pub mod progress;

pub use parser::{ParseError, Parser};
