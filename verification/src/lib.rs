//! The middle end of the Scooter compiler: scoped name resolution, lowering of
//! the syntax tree to three-address code, literal interning and type checking,
//! together with the lexer and parser that feed it. Every function is verified.

pub mod shared;
pub mod text;
pub mod lexer;
pub mod ast;
pub mod ir;
pub mod resolution;
pub mod sema;
pub mod backend;
pub mod parser;
