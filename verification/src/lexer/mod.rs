//! Turns source text into tokens.

pub mod lexer;
pub mod token;

pub use lexer::{LexError, Lexer};

pub use token::{Token, TokenKind};
