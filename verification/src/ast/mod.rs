//! The abstract syntax tree that the parser builds and every later stage reads.

use vstd::prelude::*;

pub mod view;

use crate::lexer::token::Token;
use crate::shared::span::Span;

verus! {

/// A whole source file.
#[derive(Debug)]
pub struct File {
    pub items: Vec<Item>,
    pub span: Span,
}

/// A top-level declaration.
#[derive(Debug)]
pub enum Item {
    Fn(ItemFn),
    Struct(ItemStruct),
    Impl(ItemImpl),
}

/// Represents a function item (declaration).
#[derive(Debug)]
pub struct ItemFn {
    /// The `fn` keyword.
    pub kw: Token,
    /// The function identifier.
    pub ident: Ident,
    /// The left parenthesis.
    pub lp: Token,
    /// The function parameters
    pub params: ParamList,
    /// The right parenthesis.
    pub rp: Token,
    /// The `->` symbol.
    pub arrow: Token,
    /// The return type.
    pub ty: Ty,
    /// The function body.
    pub body: Block,
    /// The function span.
    pub span: Span,
}

/// Represents a list of impl function parameters.
#[derive(Debug)]
pub struct ImplParamList {
    /// Receiver
    pub receiver: Option<Token>,
    /// List of parameters
    pub params: Vec<Param>,
    /// Span of the entire punctuated list.
    pub span: Span,
}

/// Represents a list of function parameters.
#[derive(Debug)]
pub struct ParamList {
    /// List of parameters
    pub params: Vec<Param>,
    /// Span of the entire punctuated list.
    pub span: Span,
}

impl ParamList {
    /// Returns the length of the internal list of parameters.
    pub fn len(&self) -> (n: usize)
        ensures
            n == self.params@.len(),
    {
        self.params.len()
    }
}

/// Represents a function parameter.
#[derive(Debug)]
pub struct Param {
    /// The parameter identifier.
    pub ident: Ident,
    /// The `:` symbol.
    pub colon: Token,
    /// The parameter type.
    pub ty: Ty,
}

/// Represents a struct item (declaration).
#[derive(Debug)]
pub struct ItemStruct {
    /// The `struct` keyword
    pub kw: Token,
    /// The struct identifier.
    pub ident: Ident,
    /// The struct fields.
    pub fields: Fields,
    /// The span of the entire struct.
    pub span: Span,
}

/// Represents either a list of named fields, or a list of positional fields.
#[derive(Debug)]
pub enum Fields {
    Named(FieldsNamed),
}

/// Represents a list of named fields.
#[derive(Debug)]
pub struct FieldsNamed {
    /// The left curly brace.
    pub lb: Token,
    /// The list of fields.
    pub fields: Vec<FieldNamed>,
    /// The right curly brace.
    pub rb: Token,
    /// The span of the entire fields block.
    pub span: Span,
}

/// Represents a single named field.
#[derive(Debug)]
pub struct FieldNamed {
    /// The name of this field.
    pub ident: Ident,
    /// The ':' symbol.
    pub colon: Token,
    /// The type of this field.
    pub ty: Ty,
    /// The span of the entire field.
    pub span: Span,
}

/// Represents an implementation.
#[derive(Debug)]
pub struct ItemImpl {
    /// The `impl` keyword.
    pub kw: Token,
    /// The type that the block implements.
    pub ident: Ident,
    /// The left curly brace.
    pub lb: Token,
    /// The items of the block.
    pub items: Vec<ImplItem>,
    /// The right curly brace.
    pub rb: Token,
    /// The span of the entire block.
    pub span: Span,
}

/// An item inside an impl block.
#[derive(Debug)]
pub enum ImplItem {
    Fn(ImplItemFn),
}

/// A function inside an impl block.
#[derive(Debug)]
pub struct ImplItemFn {
    /// The `fn` keyword.
    pub kw: Token,
    /// The function identifier.
    pub ident: Ident,
    /// The left parenthesis.
    pub lp: Token,
    /// The function parameters
    pub params: ImplParamList,
    /// The right parenthesis.
    pub rp: Token,
    /// The `->` symbol.
    pub arrow: Token,
    /// The return type.
    pub ty: Ty,
    /// The function body.
    pub body: Block,
    /// The function span.
    pub span: Span,
}

/// An identifier.
#[derive(Debug)]
pub struct Ident {
    /// The raw string representation of this identifier.
    pub repr: String,
    /// The identifier span.
    pub span: Span,
}

impl Clone for Ident {
    fn clone(&self) -> (ident: Self)
        ensures
            ident == *self,
    {
        Ident { repr: self.repr.clone(), span: self.span }
    }
}

/// A type, written by its name.
#[derive(Debug)]
pub struct Ty {
    /// The raw string representation of this type.
    pub ident: Ident,
    /// The type span.
    pub span: Span,
}

/// A sequence of statements in curly braces.
#[derive(Debug)]
pub struct Block {
    /// The left curly brace.
    pub lc: Token,
    /// The statements in this block
    pub stmts: Vec<Stmt>,
    /// The right curly brace.
    pub rc: Token,
    /// The span of the entire block.
    pub span: Span,
}

/// A statement.
#[derive(Debug)]
pub enum Stmt {
    Local(Local),
    Expr(Expr),
    Return(Return),
}

/// A `return` statement.
#[derive(Debug)]
pub struct Return {
    /// The `return` keyword.
    pub kw: Token,
    /// The expression being returned.
    pub expr: Expr,
    /// The span of the entire return statement.
    pub span: Span,
}

/// An expression.
#[derive(Debug)]
pub enum Expr {
    Call(ExprCall),
    Binary(ExprBin),
    Struct(ExprStruct),
    Lit(ExprLit),
    Ident(Ident),
}

impl Expr {
    /// The source span of this expression.
    pub open spec fn spec_span(&self) -> Span {
        match *self {
            Expr::Call(expr_call) => expr_call.spec_span(),
            Expr::Binary(expr_bin) => expr_bin.span,
            Expr::Struct(expr_struct) => expr_struct.span,
            Expr::Lit(expr_lit) => expr_lit.spec_span(),
            Expr::Ident(ident) => ident.span,
        }
    }

    /// The source span of this expression.
    pub fn span(&self) -> (span: &Span)
        ensures
            *span == self.spec_span(),
    {
        match self {
            Expr::Call(expr_call) => expr_call.span(),
            Expr::Binary(expr_bin) => &expr_bin.span,
            Expr::Struct(expr_struct) => &expr_struct.span,
            Expr::Lit(expr_lit) => expr_lit.span(),
            Expr::Ident(ident) => &ident.span,
        }
    }
}

/// A struct literal.
#[derive(Debug)]
pub struct ExprStruct {
    /// The name of the struct.
    pub ident: Ident,
    /// The left curly brace.
    pub lb: Token,
    /// The field initialisers.
    pub args: NamedArgList,
    /// The right curly brace.
    pub rb: Token,
    /// The span of the entire literal.
    pub span: Span,
}

/// The field initialisers of a struct literal.
#[derive(Debug)]
pub struct NamedArgList {
    pub args: Vec<NamedArg>,
    pub span: Span,
}

/// One field initialiser of a struct literal.
#[derive(Debug)]
pub struct NamedArg {
    /// The field name.
    pub ident: Ident,
    /// The ':' symbol.
    pub colon: Token,
    /// The value given to the field.
    pub expr: Expr,
    /// The span of the entire initialiser.
    pub span: Span,
}

/// A literal.
#[derive(Debug)]
pub enum ExprLit {
    Num(LitNum),
}

impl ExprLit {
    /// The source span of this literal.
    pub open spec fn spec_span(&self) -> Span {
        match *self {
            ExprLit::Num(lit_num) => lit_num.span,
        }
    }

    /// The source span of this literal.
    pub fn span(&self) -> (span: &Span)
        ensures
            *span == self.spec_span(),
    {
        match self {
            ExprLit::Num(lit_num) => &lit_num.span,
        }
    }
}

/// A literal number.
#[derive(Debug)]
pub struct LitNum {
    pub value: i32,
    pub span: Span,
}

/// A local `let` binding.
#[derive(Debug)]
pub struct Local {
    /// The `let` keyword.
    pub kw: Token,
    /// The identifier being locally bound.
    pub ident: Ident,
    /// The colon following the identifier.
    pub colon: Token,
    /// The type of this variable.
    pub ty: Ty,
    /// The `=` symbol.
    pub eq: Token,
    /// The expression assigned to this
    pub expr: Expr,
    /// The span of the entire statement.
    pub span: Span,
}

/// A call.
#[derive(Debug)]
pub enum ExprCall {
    Fn(CallFn),
}

impl ExprCall {
    /// The source span of this call.
    pub open spec fn spec_span(&self) -> Span {
        match *self {
            ExprCall::Fn(call_fn) => call_fn.span,
        }
    }

    /// The source span of this call.
    pub fn span(&self) -> (span: &Span)
        ensures
            *span == self.spec_span(),
    {
        match self {
            ExprCall::Fn(call_fn) => &call_fn.span,
        }
    }
}

/// A call of a function by its name.
#[derive(Debug)]
pub struct CallFn {
    /// The name of the function being called.
    pub ident: Ident,
    /// The left parenthesis.
    pub lp: Token,
    /// The list of arguments.
    pub args: ArgList,
    /// The right parenthesis.
    pub rp: Token,
    /// The span of the entire function call.
    pub span: Span,
}

/// Represents a list of function arguments.
#[derive(Debug)]
pub struct ArgList {
    /// the list of arguments.
    pub args: Vec<Expr>,
    /// The span of the entire argument list.
    pub span: Span,
}

impl ArgList {
    /// Returns the length of the internal list of arguments.
    pub fn len(&self) -> (n: usize)
        ensures
            n == self.args@.len(),
    {
        self.args.len()
    }
}

/// A binary expression.
#[derive(Debug)]
pub struct ExprBin {
    /// The left hand side of this expression.
    pub lhs: Box<Expr>,
    /// The operator.
    pub op: BinaryOp,
    /// The right hand side of this expression.
    pub rhs: Box<Expr>,
    /// The span of this expression.
    pub span: Span,
}

/// A binary operator with its place in the source.
#[derive(Debug)]
pub struct BinaryOp {
    /// The kind of operator.
    pub kind: OpKind,
    /// The operator span.
    pub span: Span,
}

/// The binary operators of the language.
#[derive(Debug, Clone, Copy, PartialEq, Eq, Structural)]
pub enum OpKind {
    /// +
    Add,
    /// *
    Multiply,
}

} // verus!
