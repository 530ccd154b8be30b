use vstd::prelude::*;
use vstd::std_specs::cmp::PartialEqSpecImpl;
use vstd::string::StringExecFns;

use crate::shared::span::Span;
use crate::text::{append_signed_decimal, concat3};

verus! {

/// Represents a token kind.
#[derive(Debug)]
pub enum TokenKind {
    /// "fn"
    KwFn,
    /// "struct"
    KwStruct,
    /// "impl"
    KwImpl,
    /// "self"
    KwSelf,
    /// "let"
    KwLet,
    /// "return"
    KwRet,
    /// "foo", "bar", "baz"
    Ident(String),
    /// "123", "0", "5555"
    LitNum(i32),
    /// +
    Plus,
    /// *
    Star,
    /// =
    Equal,
    /// :
    Colon,
    /// ;
    Semicolon,
    /// (
    LParen,
    /// )
    RParen,
    /// {
    LBrace,
    /// }
    RBrace,
    /// ,
    Comma,
    /// ->
    RArrow,
    /// The end of the input.
    EOF,
}

impl TokenKind {
    /// Two kinds are the same when they are the same variant and carry the
    /// same text or number.
    pub open spec fn same(&self, other: &TokenKind) -> bool {
        match (*self, *other) {
            (TokenKind::Ident(a), TokenKind::Ident(b)) => a@ == b@,
            (TokenKind::Ident(_), _) => false,
            (_, TokenKind::Ident(_)) => false,
            _ => *self == *other,
        }
    }

    /// How a diagnostic names this kind of token.
    pub open spec fn spec_describe(&self) -> Seq<char> {
        match *self {
            TokenKind::KwFn => "'fn'"@,
            TokenKind::KwStruct => "'struct'"@,
            TokenKind::KwImpl => "'impl'"@,
            TokenKind::KwSelf => "'self'"@,
            TokenKind::KwLet => "'let'"@,
            TokenKind::KwRet => "'return'"@,
            TokenKind::Ident(name) => "identifier '"@ + name@ + "'"@,
            TokenKind::LitNum(value) => "literal number '"@ + crate::text::signed_decimal(
                value as int,
            ) + "'"@,
            TokenKind::Plus => "'+'"@,
            TokenKind::Star => "'*'"@,
            TokenKind::Equal => "'='"@,
            TokenKind::Colon => "':'"@,
            TokenKind::Semicolon => "';'"@,
            TokenKind::LParen => "'('"@,
            TokenKind::RParen => "')'"@,
            TokenKind::LBrace => "'{'"@,
            TokenKind::RBrace => "'}'"@,
            TokenKind::Comma => "','"@,
            TokenKind::RArrow => "'->'"@,
            TokenKind::EOF => "<EOF>"@,
        }
    }

    /// The text that names this kind of token in a diagnostic.
    pub fn describe(&self) -> (text: String)
        ensures
            text@ == self.spec_describe(),
    {
        match self {
            TokenKind::KwFn => String::from_str("'fn'"),
            TokenKind::KwStruct => String::from_str("'struct'"),
            TokenKind::KwImpl => String::from_str("'impl'"),
            TokenKind::KwSelf => String::from_str("'self'"),
            TokenKind::KwLet => String::from_str("'let'"),
            TokenKind::KwRet => String::from_str("'return'"),
            TokenKind::Ident(name) => concat3("identifier '", name.as_str(), "'"),
            TokenKind::LitNum(value) => {
                let mut text = String::from_str("literal number '");
                append_signed_decimal(&mut text, *value);
                text.append("'");
                text
            },
            TokenKind::Plus => String::from_str("'+'"),
            TokenKind::Star => String::from_str("'*'"),
            TokenKind::Equal => String::from_str("'='"),
            TokenKind::Colon => String::from_str("':'"),
            TokenKind::Semicolon => String::from_str("';'"),
            TokenKind::LParen => String::from_str("'('"),
            TokenKind::RParen => String::from_str("')'"),
            TokenKind::LBrace => String::from_str("'{'"),
            TokenKind::RBrace => String::from_str("'}'"),
            TokenKind::Comma => String::from_str("','"),
            TokenKind::RArrow => String::from_str("'->'"),
            TokenKind::EOF => String::from_str("<EOF>"),
        }
    }
}

impl Clone for TokenKind {
    fn clone(&self) -> (kind: Self)
        ensures
            kind == *self,
    {
        match self {
            TokenKind::KwFn => TokenKind::KwFn,
            TokenKind::KwStruct => TokenKind::KwStruct,
            TokenKind::KwImpl => TokenKind::KwImpl,
            TokenKind::KwSelf => TokenKind::KwSelf,
            TokenKind::KwLet => TokenKind::KwLet,
            TokenKind::KwRet => TokenKind::KwRet,
            TokenKind::Ident(name) => TokenKind::Ident(name.clone()),
            TokenKind::LitNum(value) => TokenKind::LitNum(*value),
            TokenKind::Plus => TokenKind::Plus,
            TokenKind::Star => TokenKind::Star,
            TokenKind::Equal => TokenKind::Equal,
            TokenKind::Colon => TokenKind::Colon,
            TokenKind::Semicolon => TokenKind::Semicolon,
            TokenKind::LParen => TokenKind::LParen,
            TokenKind::RParen => TokenKind::RParen,
            TokenKind::LBrace => TokenKind::LBrace,
            TokenKind::RBrace => TokenKind::RBrace,
            TokenKind::Comma => TokenKind::Comma,
            TokenKind::RArrow => TokenKind::RArrow,
            TokenKind::EOF => TokenKind::EOF,
        }
    }
}

impl PartialEq for TokenKind {
    fn eq(&self, other: &TokenKind) -> (equal: bool) {
        match (self, other) {
            (TokenKind::KwFn, TokenKind::KwFn) => true,
            (TokenKind::KwStruct, TokenKind::KwStruct) => true,
            (TokenKind::KwImpl, TokenKind::KwImpl) => true,
            (TokenKind::KwSelf, TokenKind::KwSelf) => true,
            (TokenKind::KwLet, TokenKind::KwLet) => true,
            (TokenKind::KwRet, TokenKind::KwRet) => true,
            (TokenKind::Ident(a), TokenKind::Ident(b)) => *a == *b,
            (TokenKind::LitNum(a), TokenKind::LitNum(b)) => *a == *b,
            (TokenKind::Plus, TokenKind::Plus) => true,
            (TokenKind::Star, TokenKind::Star) => true,
            (TokenKind::Equal, TokenKind::Equal) => true,
            (TokenKind::Colon, TokenKind::Colon) => true,
            (TokenKind::Semicolon, TokenKind::Semicolon) => true,
            (TokenKind::LParen, TokenKind::LParen) => true,
            (TokenKind::RParen, TokenKind::RParen) => true,
            (TokenKind::LBrace, TokenKind::LBrace) => true,
            (TokenKind::RBrace, TokenKind::RBrace) => true,
            (TokenKind::Comma, TokenKind::Comma) => true,
            (TokenKind::RArrow, TokenKind::RArrow) => true,
            (TokenKind::EOF, TokenKind::EOF) => true,
            _ => false,
        }
    }
}

impl PartialEqSpecImpl for TokenKind {
    open spec fn obeys_eq_spec() -> bool {
        true
    }

    open spec fn eq_spec(&self, other: &TokenKind) -> bool {
        self.same(other)
    }
}

/// Represents a token.
#[derive(Debug)]
pub struct Token {
    /// The kind of this token.
    pub kind: TokenKind,
    /// The (optional) span of this token.
    pub span: Option<Span>,
}

impl Token {
    /// Create a token that definitely has a span.
    pub fn spanned(kind: TokenKind, span: Span) -> (token: Self)
        ensures
            token == (Token { kind, span: Some(span) }),
    {
        Token { kind, span: Some(span) }
    }
}

impl Clone for Token {
    fn clone(&self) -> (token: Self)
        ensures
            token == *self,
    {
        Token { kind: self.kind.clone(), span: self.span }
    }
}

} // verus!
