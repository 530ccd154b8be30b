//! What the parser reads: for each construct of the language, the tree that
//! the tokens from a given place on stand for, or the failure that they lead to.

use vstd::prelude::*;

use crate::ast::view::{
    ArgListView, BlockView, CallFnView, ExprBinView, ExprCallView, ExprStructView, ExprView,
    FieldsNamedView, FieldsView, FileView, ImplItemFnView, ImplItemView, ImplParamListView,
    ItemFnView, ItemImplView, ItemStructView, ItemView, LocalView, NamedArgListView,
    NamedArgView, ParamListView, ReturnView, StmtView,
};
use crate::ast::{BinaryOp, ExprLit, FieldNamed, Ident, LitNum, OpKind, Param, Ty};
use crate::lexer::token::{Token, TokenKind};
use crate::shared::span::Span;

verus! {

/// What a parsing error reports, as plain values.
pub struct ParseFailure {
    pub reason: Seq<char>,
    pub span: Option<Span>,
}

/// What the parser reads from: the tokens and the name of the unit type.
pub struct Ctx {
    pub input: Seq<Token>,
    pub unit: String,
}

impl Ctx {
    /// There is a token, every token has a span, and the unit type is called `()`.
    pub open spec fn wf(self) -> bool {
        &&& self.input.len() > 0
        &&& forall|i: int| 0 <= i < self.input.len() ==> (#[trigger] self.input[i]).span is Some
        &&& self.unit@ == "()"@
    }

    /// The kind of the token at `index`; past the last token, the end of the input.
    pub open spec fn kind(self, index: nat) -> TokenKind {
        if index < self.input.len() {
            self.input[index as int].kind
        } else {
            TokenKind::EOF
        }
    }

    /// The span of the token at `index`.
    pub open spec fn span(self, index: nat) -> Span {
        self.input[index as int].span->0
    }

    /// The index after the token at `index` is consumed. The last token is
    /// never left: it is read again.
    pub open spec fn after(self, index: nat) -> nat {
        if index + 1 >= self.input.len() {
            if self.input.len() > 0 {
                (self.input.len() - 1) as nat
            } else {
                0
            }
        } else {
            index + 1
        }
    }

    /// The number of tokens from `index` to the end.
    pub open spec fn remaining(self, index: nat) -> nat {
        if index < self.input.len() {
            (self.input.len() - index) as nat
        } else {
            0
        }
    }
}

/// Where the parser stands: the index of the current token and the spans of
/// the tokens at which the constructs that are still open began.
pub struct Cur {
    pub index: nat,
    pub starts: Seq<Span>,
}

impl Cur {
    /// The state after the current token is consumed.
    pub open spec fn advance(self, ctx: Ctx) -> Cur {
        Cur { index: ctx.after(self.index), ..self }
    }

    /// The state after a construct is begun at the current token.
    pub open spec fn start(self, ctx: Ctx) -> Cur {
        Cur { starts: self.starts.push(ctx.span(self.index)), ..self }
    }

    /// The span of the construct that was begun last: from the token at
    /// which it began to the token before the current one.
    pub open spec fn span(self, ctx: Ctx) -> Span {
        Span {
            start: self.starts.last().start,
            end: ctx.span(
                if self.index > 0 {
                    (self.index - 1) as nat
                } else {
                    0
                },
            ).end,
        }
    }

    /// The state after the construct that was begun last is ended.
    pub open spec fn end(self) -> Cur {
        Cur { starts: self.starts.drop_last(), ..self }
    }
}

/// What parsing a construct gives: its value with the state behind it, or a failure.
pub type Parsed<T> = Result<(T, Cur), ParseFailure>;

/// The failure of a list whose element consumed no token.
pub open spec fn no_progress() -> ParseFailure {
    ParseFailure { reason: "The parser made no progress"@, span: None }
}

/// The failure for a token of another kind than the one that must come.
pub open spec fn expected(kind: TokenKind, found: Token) -> ParseFailure {
    ParseFailure {
        reason: "Expected "@ + kind.spec_describe() + " but found "@ + found.kind.spec_describe(),
        span: found.span,
    }
}

/// The token of the given kind that must come.
pub open spec fn p_expect(ctx: Ctx, cur: Cur, kind: TokenKind) -> Parsed<Token> {
    if ctx.kind(cur.index).same(&kind) && cur.index < ctx.input.len() {
        Ok((ctx.input[cur.index as int], cur.advance(ctx)))
    } else {
        Err(expected(kind, ctx.input[cur.index as int]))
    }
}

/// An identifier.
pub open spec fn p_ident(ctx: Ctx, cur: Cur) -> Parsed<Ident> {
    match ctx.kind(cur.index) {
        TokenKind::Ident(raw) => Ok(
            (Ident { repr: raw, span: ctx.span(cur.index) }, cur.advance(ctx)),
        ),
        found => Err(
            ParseFailure {
                reason: "Expected an identifier, found "@ + found.spec_describe(),
                span: ctx.input[cur.index as int].span,
            },
        ),
    }
}

/// A type: the unit type `()` or a name.
#[verifier::opaque]
pub open spec fn p_ty(ctx: Ctx, cur: Cur) -> Parsed<Ty> {
    let begun = cur.start(ctx);
    match ctx.kind(cur.index) {
        TokenKind::LParen => match p_expect(ctx, begun, TokenKind::LParen) {
            Err(failure) => Err(failure),
            Ok((_, c1)) => match p_expect(ctx, c1, TokenKind::RParen) {
                Err(failure) => Err(failure),
                Ok((_, c2)) => Ok(
                    (
                        Ty {
                            ident: Ident { repr: ctx.unit, span: c2.span(ctx) },
                            span: c2.span(ctx),
                        },
                        c2.end(),
                    ),
                ),
            },
        },
        _ => match p_ident(ctx, begun) {
            Err(failure) => Err(failure),
            Ok((ident, c1)) => Ok((Ty { ident, span: c1.span(ctx) }, c1.end())),
        },
    }
}

/// A parameter: a name, a colon and a type.
#[verifier::opaque]
pub open spec fn p_param(ctx: Ctx, cur: Cur) -> Parsed<Param> {
    match p_ident(ctx, cur) {
        Err(failure) => Err(failure),
        Ok((ident, c1)) => match p_expect(ctx, c1, TokenKind::Colon) {
            Err(failure) => Err(failure),
            Ok((colon, c2)) => match p_ty(ctx, c2) {
                Err(failure) => Err(failure),
                Ok((ty, c3)) => Ok((Param { ident, colon, ty }, c3)),
            },
        },
    }
}

/// The comma that must follow an element of a list unless the list ends
/// with the token of kind `close`.
pub open spec fn p_separator(ctx: Ctx, cur: Cur, close: TokenKind) -> Parsed<()> {
    if ctx.kind(cur.index).same(&close) {
        Ok(((), cur))
    } else {
        match p_expect(ctx, cur, TokenKind::Comma) {
            Err(failure) => Err(failure),
            Ok((_, c1)) => Ok(((), c1)),
        }
    }
}

/// The parameters up to the closing parenthesis, added to `params`.
#[verifier::opaque]
pub open spec fn p_params(ctx: Ctx, cur: Cur, params: Seq<Param>) -> Parsed<Seq<Param>>
    decreases ctx.remaining(cur.index),
{
    if ctx.kind(cur.index) is RParen {
        Ok((params, cur))
    } else {
        match p_param(ctx, cur) {
            Err(failure) => Err(failure),
            Ok((param, c1)) => match p_separator(ctx, c1, TokenKind::RParen) {
                Err(failure) => Err(failure),
                Ok((_, c2)) => if ctx.remaining(c2.index) < ctx.remaining(cur.index) {
                    p_params(ctx, c2, params.push(param))
                } else {
                    Err(no_progress())
                },
            },
        }
    }
}

/// A list of function parameters.
#[verifier::opaque]
pub open spec fn p_param_list(ctx: Ctx, cur: Cur) -> Parsed<ParamListView> {
    match p_params(ctx, cur.start(ctx), Seq::empty()) {
        Err(failure) => Err(failure),
        Ok((params, c1)) => Ok((ParamListView { params, span: c1.span(ctx) }, c1.end())),
    }
}

/// The receiver `self` of a function in an impl block, if it has one.
#[verifier::opaque]
pub open spec fn p_receiver(ctx: Ctx, cur: Cur) -> Parsed<Option<Token>> {
    match ctx.kind(cur.index) {
        TokenKind::KwSelf => match p_expect(ctx, cur, TokenKind::KwSelf) {
            Err(failure) => Err(failure),
            Ok((receiver, c1)) => match p_separator(ctx, c1, TokenKind::RParen) {
                Err(failure) => Err(failure),
                Ok((_, c2)) => Ok((Some(receiver), c2)),
            },
        },
        _ => Ok((None, cur)),
    }
}

/// A list of parameters of a function in an impl block.
#[verifier::opaque]
pub open spec fn p_impl_param_list(ctx: Ctx, cur: Cur) -> Parsed<ImplParamListView> {
    match p_receiver(ctx, cur.start(ctx)) {
        Err(failure) => Err(failure),
        Ok((receiver, c1)) => match p_params(ctx, c1, Seq::empty()) {
            Err(failure) => Err(failure),
            Ok((params, c2)) => Ok(
                (ImplParamListView { receiver, params, span: c2.span(ctx) }, c2.end()),
            ),
        },
    }
}

/// The binary expression of two operands.
pub open spec fn binary(lhs: ExprView, kind: OpKind, op: Token, rhs: ExprView) -> ExprView {
    ExprView::Binary(
        ExprBinView {
            lhs: Box::new(lhs),
            op: BinaryOp { kind, span: op.span->0 },
            rhs: Box::new(rhs),
            span: Span { start: lhs.span().start, end: rhs.span().end },
        },
    )
}

/// An expression: terms joined by `+`, from left to right.
#[verifier::opaque]
pub open spec fn p_expr(ctx: Ctx, cur: Cur) -> Parsed<ExprView>
    decreases ctx.remaining(cur.index), 5nat,
{
    match p_term(ctx, cur) {
        Err(failure) => Err(failure),
        Ok((expr, c1)) => if ctx.remaining(c1.index) <= ctx.remaining(cur.index) {
            p_expr_rest(ctx, c1, expr)
        } else {
            Err(no_progress())
        },
    }
}

/// The rest of an expression whose terms so far are `lhs`.
#[verifier::opaque]
pub open spec fn p_expr_rest(ctx: Ctx, cur: Cur, lhs: ExprView) -> Parsed<ExprView>
    decreases ctx.remaining(cur.index), 4nat,
{
    if ctx.kind(cur.index) is Plus {
        match p_expect(ctx, cur, TokenKind::Plus) {
            Err(failure) => Err(failure),
            Ok((op, c1)) => if ctx.remaining(c1.index) <= ctx.remaining(cur.index) {
                match p_term(ctx, c1) {
                    Err(failure) => Err(failure),
                    Ok((rhs, c2)) => if ctx.remaining(c2.index) < ctx.remaining(cur.index) {
                        p_expr_rest(ctx, c2, binary(lhs, OpKind::Add, op, rhs))
                    } else {
                        Err(no_progress())
                    },
                }
            } else {
                Err(no_progress())
            },
        }
    } else {
        Ok((lhs, cur))
    }
}

/// A term: factors joined by `*`, from left to right.
#[verifier::opaque]
pub open spec fn p_term(ctx: Ctx, cur: Cur) -> Parsed<ExprView>
    decreases ctx.remaining(cur.index), 3nat,
{
    match p_factor(ctx, cur) {
        Err(failure) => Err(failure),
        Ok((expr, c1)) => if ctx.remaining(c1.index) <= ctx.remaining(cur.index) {
            p_term_rest(ctx, c1, expr)
        } else {
            Err(no_progress())
        },
    }
}

/// The rest of a term whose factors so far are `lhs`.
#[verifier::opaque]
pub open spec fn p_term_rest(ctx: Ctx, cur: Cur, lhs: ExprView) -> Parsed<ExprView>
    decreases ctx.remaining(cur.index), 2nat,
{
    if ctx.kind(cur.index) is Star {
        match p_expect(ctx, cur, TokenKind::Star) {
            Err(failure) => Err(failure),
            Ok((op, c1)) => if ctx.remaining(c1.index) <= ctx.remaining(cur.index) {
                match p_factor(ctx, c1) {
                    Err(failure) => Err(failure),
                    Ok((rhs, c2)) => if ctx.remaining(c2.index) < ctx.remaining(cur.index) {
                        p_term_rest(ctx, c2, binary(lhs, OpKind::Multiply, op, rhs))
                    } else {
                        Err(no_progress())
                    },
                }
            } else {
                Err(no_progress())
            },
        }
    } else {
        Ok((lhs, cur))
    }
}

/// A factor: a literal number, an identifier, a call or a struct literal.
/// An identifier that stands alone leaves its construct open.
#[verifier::opaque]
pub open spec fn p_factor(ctx: Ctx, cur: Cur) -> Parsed<ExprView>
    decreases ctx.remaining(cur.index), 1nat,
{
    let begun = cur.start(ctx);
    match ctx.kind(cur.index) {
        TokenKind::LitNum(value) => {
            let c1 = begun.advance(ctx);
            Ok((ExprView::Lit(ExprLit::Num(LitNum { value, span: c1.span(ctx) })), c1.end()))
        },
        TokenKind::Ident(_) => match p_ident(ctx, begun) {
            Err(failure) => Err(failure),
            Ok((ident, c1)) => match ctx.kind(c1.index) {
                TokenKind::LParen => if ctx.remaining(c1.index) < ctx.remaining(cur.index) {
                    p_call(ctx, c1, ident)
                } else {
                    Err(no_progress())
                },
                TokenKind::LBrace => if ctx.remaining(c1.index) < ctx.remaining(cur.index) {
                    p_struct(ctx, c1, ident)
                } else {
                    Err(no_progress())
                },
                _ => Ok((ExprView::Ident(ident), c1)),
            },
        },
        found => {
            let c1 = begun.advance(ctx);
            Err(
                ParseFailure {
                    reason: "Expected an identifier, literal or function call... found "@
                        + found.spec_describe(),
                    span: Some(c1.span(ctx)),
                },
            )
        },
    }
}

/// The rest of a call of the function `ident`: its arguments in parentheses.
#[verifier::opaque]
pub open spec fn p_call(ctx: Ctx, cur: Cur, ident: Ident) -> Parsed<ExprView>
    decreases ctx.remaining(cur.index), 9nat,
{
    match p_expect(ctx, cur, TokenKind::LParen) {
        Err(failure) => Err(failure),
        Ok((lp, c1)) => if ctx.remaining(c1.index) <= ctx.remaining(cur.index) {
            match p_arg_list(ctx, c1) {
                Err(failure) => Err(failure),
                Ok((args, c2)) => match p_expect(ctx, c2, TokenKind::RParen) {
                    Err(failure) => Err(failure),
                    Ok((rp, c3)) => Ok(
                        (
                            ExprView::Call(
                                ExprCallView::Fn(
                                    CallFnView { ident, lp, args, rp, span: c3.span(ctx) },
                                ),
                            ),
                            c3.end(),
                        ),
                    ),
                },
            }
        } else {
            Err(no_progress())
        },
    }
}

/// The rest of a literal of the struct `ident`: its field initialisers in
/// curly braces.
#[verifier::opaque]
pub open spec fn p_struct(ctx: Ctx, cur: Cur, ident: Ident) -> Parsed<ExprView>
    decreases ctx.remaining(cur.index), 9nat,
{
    match p_expect(ctx, cur, TokenKind::LBrace) {
        Err(failure) => Err(failure),
        Ok((lb, c1)) => if ctx.remaining(c1.index) <= ctx.remaining(cur.index) {
            match p_named_arg_list(ctx, c1) {
                Err(failure) => Err(failure),
                Ok((args, c2)) => match p_expect(ctx, c2, TokenKind::RBrace) {
                    Err(failure) => Err(failure),
                    Ok((rb, c3)) => Ok(
                        (
                            ExprView::Struct(
                                ExprStructView { ident, lb, args, rb, span: c3.span(ctx) },
                            ),
                            c3.end(),
                        ),
                    ),
                },
            }
        } else {
            Err(no_progress())
        },
    }
}

/// The arguments up to the closing parenthesis, added to `args`.
#[verifier::opaque]
pub open spec fn p_args(ctx: Ctx, cur: Cur, args: Seq<ExprView>) -> Parsed<Seq<ExprView>>
    decreases ctx.remaining(cur.index), 6nat,
{
    if ctx.kind(cur.index) is RParen {
        Ok((args, cur))
    } else {
        match p_expr(ctx, cur) {
            Err(failure) => Err(failure),
            Ok((arg, c1)) => match p_separator(ctx, c1, TokenKind::RParen) {
                Err(failure) => Err(failure),
                Ok((_, c2)) => if ctx.remaining(c2.index) < ctx.remaining(cur.index) {
                    p_args(ctx, c2, args.push(arg))
                } else {
                    Err(no_progress())
                },
            },
        }
    }
}

/// A list of arguments of a call.
#[verifier::opaque]
pub open spec fn p_arg_list(ctx: Ctx, cur: Cur) -> Parsed<ArgListView>
    decreases ctx.remaining(cur.index), 7nat,
{
    match p_args(ctx, cur.start(ctx), Seq::empty()) {
        Err(failure) => Err(failure),
        Ok((args, c1)) => Ok((ArgListView { args, span: c1.span(ctx) }, c1.end())),
    }
}

/// A field initialiser of a struct literal: a name, a colon and an expression.
#[verifier::opaque]
pub open spec fn p_named_arg(ctx: Ctx, cur: Cur) -> Parsed<NamedArgView>
    decreases ctx.remaining(cur.index), 6nat,
{
    match p_ident(ctx, cur.start(ctx)) {
        Err(failure) => Err(failure),
        Ok((ident, c1)) => match p_expect(ctx, c1, TokenKind::Colon) {
            Err(failure) => Err(failure),
            Ok((colon, c2)) => if ctx.remaining(c2.index) <= ctx.remaining(cur.index) {
                match p_expr(ctx, c2) {
                    Err(failure) => Err(failure),
                    Ok((expr, c3)) => Ok(
                        (NamedArgView { ident, colon, expr, span: c3.span(ctx) }, c3.end()),
                    ),
                }
            } else {
                Err(no_progress())
            },
        },
    }
}

/// The field initialisers up to the closing brace, added to `args`.
#[verifier::opaque]
pub open spec fn p_named_args(ctx: Ctx, cur: Cur, args: Seq<NamedArgView>) -> Parsed<
    Seq<NamedArgView>,
>
    decreases ctx.remaining(cur.index), 7nat,
{
    if ctx.kind(cur.index) is RBrace {
        Ok((args, cur))
    } else {
        match p_named_arg(ctx, cur) {
            Err(failure) => Err(failure),
            Ok((arg, c1)) => match p_separator(ctx, c1, TokenKind::RBrace) {
                Err(failure) => Err(failure),
                Ok((_, c2)) => if ctx.remaining(c2.index) < ctx.remaining(cur.index) {
                    p_named_args(ctx, c2, args.push(arg))
                } else {
                    Err(no_progress())
                },
            },
        }
    }
}

/// A list of field initialisers of a struct literal.
#[verifier::opaque]
pub open spec fn p_named_arg_list(ctx: Ctx, cur: Cur) -> Parsed<NamedArgListView>
    decreases ctx.remaining(cur.index), 8nat,
{
    match p_named_args(ctx, cur.start(ctx), Seq::empty()) {
        Err(failure) => Err(failure),
        Ok((args, c1)) => Ok((NamedArgListView { args, span: c1.span(ctx) }, c1.end())),
    }
}

/// A `return` statement.
#[verifier::opaque]
pub open spec fn p_return(ctx: Ctx, cur: Cur) -> Parsed<ReturnView> {
    match p_expect(ctx, cur.start(ctx), TokenKind::KwRet) {
        Err(failure) => Err(failure),
        Ok((kw, c1)) => match p_expr(ctx, c1) {
            Err(failure) => Err(failure),
            Ok((expr, c2)) => Ok((ReturnView { kw, expr, span: c2.span(ctx) }, c2.end())),
        },
    }
}

/// A local `let` binding.
#[verifier::opaque]
pub open spec fn p_local(ctx: Ctx, cur: Cur) -> Parsed<LocalView> {
    match p_expect(ctx, cur.start(ctx), TokenKind::KwLet) {
        Err(failure) => Err(failure),
        Ok((kw, c1)) => match p_ident(ctx, c1) {
            Err(failure) => Err(failure),
            Ok((ident, c2)) => match p_expect(ctx, c2, TokenKind::Colon) {
                Err(failure) => Err(failure),
                Ok((colon, c3)) => match p_ty(ctx, c3) {
                    Err(failure) => Err(failure),
                    Ok((ty, c4)) => match p_expect(ctx, c4, TokenKind::Equal) {
                        Err(failure) => Err(failure),
                        Ok((eq, c5)) => match p_expr(ctx, c5) {
                            Err(failure) => Err(failure),
                            Ok((expr, c6)) => Ok(
                                (
                                    LocalView {
                                        kw,
                                        ident,
                                        colon,
                                        ty,
                                        eq,
                                        expr,
                                        span: c6.span(ctx),
                                    },
                                    c6.end(),
                                ),
                            ),
                        },
                    },
                },
            },
        },
    }
}

/// A statement: a `let` binding or a `return`.
#[verifier::opaque]
pub open spec fn p_stmt(ctx: Ctx, cur: Cur) -> Parsed<StmtView> {
    match ctx.kind(cur.index) {
        TokenKind::KwLet => match p_local(ctx, cur) {
            Err(failure) => Err(failure),
            Ok((local, c1)) => Ok((StmtView::Local(local), c1)),
        },
        TokenKind::KwRet => match p_return(ctx, cur) {
            Err(failure) => Err(failure),
            Ok((ret, c1)) => Ok((StmtView::Return(ret), c1)),
        },
        found => Err(
            ParseFailure {
                reason: "Unknown statement beginning with "@ + found.spec_describe(),
                span: ctx.input[cur.index as int].span,
            },
        ),
    }
}

/// The statements up to the closing brace, each followed by a semicolon,
/// added to `stmts`.
#[verifier::opaque]
pub open spec fn p_stmts(ctx: Ctx, cur: Cur, stmts: Seq<StmtView>) -> Parsed<Seq<StmtView>>
    decreases ctx.remaining(cur.index),
{
    if ctx.kind(cur.index) is RBrace {
        Ok((stmts, cur))
    } else {
        match p_stmt(ctx, cur) {
            Err(failure) => Err(failure),
            Ok((stmt, c1)) => match p_expect(ctx, c1, TokenKind::Semicolon) {
                Err(failure) => Err(failure),
                Ok((_, c2)) => if ctx.remaining(c2.index) < ctx.remaining(cur.index) {
                    p_stmts(ctx, c2, stmts.push(stmt))
                } else {
                    Err(no_progress())
                },
            },
        }
    }
}

/// A block of statements enclosed by curly braces.
#[verifier::opaque]
pub open spec fn p_block(ctx: Ctx, cur: Cur) -> Parsed<BlockView> {
    match p_expect(ctx, cur.start(ctx), TokenKind::LBrace) {
        Err(failure) => Err(failure),
        Ok((lc, c1)) => match p_stmts(ctx, c1, Seq::empty()) {
            Err(failure) => Err(failure),
            Ok((stmts, c2)) => match p_expect(ctx, c2, TokenKind::RBrace) {
                Err(failure) => Err(failure),
                Ok((rc, c3)) => Ok((BlockView { lc, stmts, rc, span: c3.span(ctx) }, c3.end())),
            },
        },
    }
}

/// A function declaration.
#[verifier::opaque]
pub open spec fn p_item_fn(ctx: Ctx, cur: Cur) -> Parsed<ItemView> {
    match p_expect(ctx, cur.start(ctx), TokenKind::KwFn) {
        Err(failure) => Err(failure),
        Ok((kw, c1)) => match p_ident(ctx, c1) {
            Err(failure) => Err(failure),
            Ok((ident, c2)) => match p_expect(ctx, c2, TokenKind::LParen) {
                Err(failure) => Err(failure),
                Ok((lp, c3)) => match p_param_list(ctx, c3) {
                    Err(failure) => Err(failure),
                    Ok((params, c4)) => match p_expect(ctx, c4, TokenKind::RParen) {
                        Err(failure) => Err(failure),
                        Ok((rp, c5)) => match p_expect(ctx, c5, TokenKind::RArrow) {
                            Err(failure) => Err(failure),
                            Ok((arrow, c6)) => match p_ty(ctx, c6) {
                                Err(failure) => Err(failure),
                                Ok((ty, c7)) => match p_block(ctx, c7) {
                                    Err(failure) => Err(failure),
                                    Ok((body, c8)) => Ok(
                                        (
                                            ItemView::Fn(
                                                ItemFnView {
                                                    kw,
                                                    ident,
                                                    lp,
                                                    params,
                                                    rp,
                                                    arrow,
                                                    ty,
                                                    body,
                                                    span: c8.span(ctx),
                                                },
                                            ),
                                            c8.end(),
                                        ),
                                    ),
                                },
                            },
                        },
                    },
                },
            },
        },
    }
}

/// A named field of a struct: a name, a colon and a type.
#[verifier::opaque]
pub open spec fn p_field_named(ctx: Ctx, cur: Cur) -> Parsed<FieldNamed> {
    match p_ident(ctx, cur.start(ctx)) {
        Err(failure) => Err(failure),
        Ok((ident, c1)) => match p_expect(ctx, c1, TokenKind::Colon) {
            Err(failure) => Err(failure),
            Ok((colon, c2)) => match p_ty(ctx, c2) {
                Err(failure) => Err(failure),
                Ok((ty, c3)) => Ok(
                    (FieldNamed { ident, colon, ty, span: c3.span(ctx) }, c3.end()),
                ),
            },
        },
    }
}

/// The fields up to the closing brace, added to `fields`.
#[verifier::opaque]
pub open spec fn p_field_list(ctx: Ctx, cur: Cur, fields: Seq<FieldNamed>) -> Parsed<
    Seq<FieldNamed>,
>
    decreases ctx.remaining(cur.index),
{
    if ctx.kind(cur.index) is RBrace {
        Ok((fields, cur))
    } else {
        match p_field_named(ctx, cur) {
            Err(failure) => Err(failure),
            Ok((field, c1)) => match p_separator(ctx, c1, TokenKind::RBrace) {
                Err(failure) => Err(failure),
                Ok((_, c2)) => if ctx.remaining(c2.index) < ctx.remaining(cur.index) {
                    p_field_list(ctx, c2, fields.push(field))
                } else {
                    Err(no_progress())
                },
            },
        }
    }
}

/// The named fields of a struct, enclosed by curly braces.
#[verifier::opaque]
pub open spec fn p_fields_named(ctx: Ctx, cur: Cur) -> Parsed<FieldsView> {
    match p_expect(ctx, cur.start(ctx), TokenKind::LBrace) {
        Err(failure) => Err(failure),
        Ok((lb, c1)) => match p_field_list(ctx, c1, Seq::empty()) {
            Err(failure) => Err(failure),
            Ok((fields, c2)) => match p_expect(ctx, c2, TokenKind::RBrace) {
                Err(failure) => Err(failure),
                Ok((rb, c3)) => Ok(
                    (
                        FieldsView::Named(FieldsNamedView { lb, fields, rb, span: c3.span(ctx) }),
                        c3.end(),
                    ),
                ),
            },
        },
    }
}

/// The fields of a struct, which must be named fields.
#[verifier::opaque]
pub open spec fn p_fields(ctx: Ctx, cur: Cur) -> Parsed<FieldsView> {
    if ctx.kind(cur.index) is LBrace {
        p_fields_named(ctx, cur)
    } else {
        Err(expected(TokenKind::LBrace, ctx.input[cur.index as int]))
    }
}

/// A struct declaration.
#[verifier::opaque]
pub open spec fn p_item_struct(ctx: Ctx, cur: Cur) -> Parsed<ItemView> {
    match p_expect(ctx, cur.start(ctx), TokenKind::KwStruct) {
        Err(failure) => Err(failure),
        Ok((kw, c1)) => match p_ident(ctx, c1) {
            Err(failure) => Err(failure),
            Ok((ident, c2)) => match p_fields(ctx, c2) {
                Err(failure) => Err(failure),
                Ok((fields, c3)) => Ok(
                    (
                        ItemView::Struct(ItemStructView { kw, ident, fields, span: c3.span(ctx) }),
                        c3.end(),
                    ),
                ),
            },
        },
    }
}

/// A function in an impl block.
#[verifier::opaque]
pub open spec fn p_impl_item_fn(ctx: Ctx, cur: Cur) -> Parsed<ImplItemView> {
    match p_expect(ctx, cur.start(ctx), TokenKind::KwFn) {
        Err(failure) => Err(failure),
        Ok((kw, c1)) => match p_ident(ctx, c1) {
            Err(failure) => Err(failure),
            Ok((ident, c2)) => match p_expect(ctx, c2, TokenKind::LParen) {
                Err(failure) => Err(failure),
                Ok((lp, c3)) => match p_impl_param_list(ctx, c3) {
                    Err(failure) => Err(failure),
                    Ok((params, c4)) => match p_expect(ctx, c4, TokenKind::RParen) {
                        Err(failure) => Err(failure),
                        Ok((rp, c5)) => match p_expect(ctx, c5, TokenKind::RArrow) {
                            Err(failure) => Err(failure),
                            Ok((arrow, c6)) => match p_ty(ctx, c6) {
                                Err(failure) => Err(failure),
                                Ok((ty, c7)) => match p_block(ctx, c7) {
                                    Err(failure) => Err(failure),
                                    Ok((body, c8)) => Ok(
                                        (
                                            ImplItemView::Fn(
                                                ImplItemFnView {
                                                    kw,
                                                    ident,
                                                    lp,
                                                    params,
                                                    rp,
                                                    arrow,
                                                    ty,
                                                    body,
                                                    span: c8.span(ctx),
                                                },
                                            ),
                                            c8.end(),
                                        ),
                                    ),
                                },
                            },
                        },
                    },
                },
            },
        },
    }
}

/// An item of an impl block, which must be a function.
#[verifier::opaque]
pub open spec fn p_impl_item(ctx: Ctx, cur: Cur) -> Parsed<ImplItemView> {
    if ctx.kind(cur.index) is KwFn {
        p_impl_item_fn(ctx, cur)
    } else {
        Err(
            ParseFailure {
                reason: "Expected a function item, found "@ + ctx.kind(cur.index).spec_describe(),
                span: ctx.input[cur.index as int].span,
            },
        )
    }
}

/// The items of an impl block up to the closing brace, added to `items`.
#[verifier::opaque]
pub open spec fn p_impl_items(ctx: Ctx, cur: Cur, items: Seq<ImplItemView>) -> Parsed<
    Seq<ImplItemView>,
>
    decreases ctx.remaining(cur.index),
{
    if ctx.kind(cur.index) is RBrace {
        Ok((items, cur))
    } else {
        match p_impl_item(ctx, cur) {
            Err(failure) => Err(failure),
            Ok((item, c1)) => if ctx.remaining(c1.index) < ctx.remaining(cur.index) {
                p_impl_items(ctx, c1, items.push(item))
            } else {
                Err(no_progress())
            },
        }
    }
}

/// An impl block.
#[verifier::opaque]
pub open spec fn p_item_impl(ctx: Ctx, cur: Cur) -> Parsed<ItemView> {
    match p_expect(ctx, cur.start(ctx), TokenKind::KwImpl) {
        Err(failure) => Err(failure),
        Ok((kw, c1)) => match p_ident(ctx, c1) {
            Err(failure) => Err(failure),
            Ok((ident, c2)) => match p_expect(ctx, c2, TokenKind::LBrace) {
                Err(failure) => Err(failure),
                Ok((lb, c3)) => match p_impl_items(ctx, c3, Seq::empty()) {
                    Err(failure) => Err(failure),
                    Ok((items, c4)) => match p_expect(ctx, c4, TokenKind::RBrace) {
                        Err(failure) => Err(failure),
                        Ok((rb, c5)) => Ok(
                            (
                                ItemView::Impl(
                                    ItemImplView { kw, ident, lb, items, rb, span: c5.span(ctx) },
                                ),
                                c5.end(),
                            ),
                        ),
                    },
                },
            },
        },
    }
}

/// An item: a function, a struct or an impl block. A token that starts
/// none of them ends the construct around it.
#[verifier::opaque]
pub open spec fn p_item(ctx: Ctx, cur: Cur) -> Parsed<ItemView> {
    match ctx.kind(cur.index) {
        TokenKind::KwFn => p_item_fn(ctx, cur),
        TokenKind::KwStruct => p_item_struct(ctx, cur),
        TokenKind::KwImpl => p_item_impl(ctx, cur),
        found => Err(
            ParseFailure {
                reason: "Expected 'fn' or 'mod', found "@ + found.spec_describe(),
                span: Some(cur.span(ctx)),
            },
        ),
    }
}

/// The items up to the end of the input or a closing brace, added to `items`.
#[verifier::opaque]
pub open spec fn p_items(ctx: Ctx, cur: Cur, items: Seq<ItemView>) -> Parsed<Seq<ItemView>>
    decreases ctx.remaining(cur.index),
{
    if ctx.kind(cur.index) is EOF || ctx.kind(cur.index) is RBrace {
        Ok((items, cur))
    } else {
        match p_item(ctx, cur) {
            Err(failure) => Err(failure),
            Ok((item, c1)) => if ctx.remaining(c1.index) < ctx.remaining(cur.index) {
                p_items(ctx, c1, items.push(item))
            } else {
                Err(no_progress())
            },
        }
    }
}

/// An entire file.
#[verifier::opaque]
pub open spec fn p_file(ctx: Ctx, cur: Cur) -> Parsed<FileView> {
    match p_items(ctx, cur.start(ctx), Seq::empty()) {
        Err(failure) => Err(failure),
        Ok((items, c1)) => Ok((FileView { items, span: c1.span(ctx) }, c1.end())),
    }
}

} // verus!
