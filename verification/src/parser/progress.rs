//! Parsing never goes back: every construct that is read leaves the parser at
//! or behind the token where it began, and every element of a list consumes
//! at least one token, so no list is read forever.

use vstd::prelude::*;

use super::grammar::{
    p_arg_list, p_args, p_block, p_expect, p_expr, p_expr_rest, p_factor, p_field_list,
    p_field_named, p_fields, p_fields_named, p_file, p_ident, p_impl_item, p_impl_item_fn,
    p_impl_items, p_impl_param_list, p_item, p_item_fn, p_item_impl, p_item_struct, p_items,
    p_call, p_local, p_named_arg, p_named_arg_list, p_named_args, p_param, p_param_list, p_params,
    p_receiver, p_return, p_separator, p_stmt, p_stmts, p_struct, p_term, p_term_rest, p_ty, Ctx,
    Cur, Parsed,
};
use crate::ast::view::{ExprView, ImplItemView, ItemView, NamedArgView, StmtView};
use crate::ast::{FieldNamed, Param};
use crate::lexer::token::TokenKind;

verus! {

/// Whether the parser, having been at `from`, can be at `to`: it has not
/// gone back, stands on a token, and no construct that was open was closed.
pub open spec fn moved(ctx: Ctx, from: Cur, to: Cur) -> bool {
    &&& from.index <= to.index < ctx.input.len()
    &&& from.starts.len() <= to.starts.len()
}

/// Whether the parser has passed at least one token on its way from `from` to `to`.
pub open spec fn consumed(ctx: Ctx, from: Cur, to: Cur) -> bool {
    &&& moved(ctx, from, to)
    &&& from.index < to.index
}

/// Whether the current token can begin an expression.
pub open spec fn begins_expr(ctx: Ctx, cur: Cur) -> bool {
    ctx.kind(cur.index) is LitNum || ctx.kind(cur.index) is Ident
}

/// What holds of every construct that is read: on success the parser has
/// not gone back, and a failure names the place where it occurred.
pub open spec fn sound<T>(ctx: Ctx, cur: Cur, parsed: Parsed<T>) -> bool {
    match parsed {
        Ok((_, to)) => moved(ctx, cur, to),
        Err(failure) => failure.span is Some,
    }
}

/// What holds of the rest of a construct that was begun before: on success
/// the parser has not gone back and has closed one construct at most.
pub open spec fn closes<T>(ctx: Ctx, cur: Cur, parsed: Parsed<T>) -> bool {
    match parsed {
        Ok((_, to)) => cur.index <= to.index < ctx.input.len() && cur.starts.len() <= to.starts.len()
            + 1,
        Err(failure) => failure.span is Some,
    }
}

/// What holds of a construct that keeps the open constructs as they were.
pub open spec fn balanced<T>(cur: Cur, parsed: Parsed<T>) -> bool {
    parsed is Ok ==> parsed->Ok_0.1.starts == cur.starts
}

/// What holds of a construct that cannot be empty.
pub open spec fn advances<T>(cur: Cur, parsed: Parsed<T>) -> bool {
    parsed is Ok ==> cur.index < parsed->Ok_0.1.index
}

/// A token that must come is read without going back, and only if it is of the kind asked for.
pub proof fn lemma_expect(ctx: Ctx, cur: Cur, kind: TokenKind)
    requires
        ctx.wf(),
        cur.index < ctx.input.len(),
    ensures
        sound(ctx, cur, p_expect(ctx, cur, kind)),
        balanced(cur, p_expect(ctx, cur, kind)),
        p_expect(ctx, cur, kind) is Ok ==> ctx.kind(cur.index).same(&kind),
{
}

/// An identifier is read without going back, and only from an identifier token.
pub proof fn lemma_ident(ctx: Ctx, cur: Cur)
    requires
        ctx.wf(),
        cur.index < ctx.input.len(),
    ensures
        sound(ctx, cur, p_ident(ctx, cur)),
        balanced(cur, p_ident(ctx, cur)),
        p_ident(ctx, cur) is Ok ==> ctx.kind(cur.index) is Ident,
{
}

/// A type is read without going back and closes the construct that it opens.
pub proof fn lemma_ty(ctx: Ctx, cur: Cur)
    requires
        ctx.wf(),
        cur.index < ctx.input.len(),
    ensures
        sound(ctx, cur, p_ty(ctx, cur)),
        balanced(cur, p_ty(ctx, cur)),
{
    reveal(p_ty);
    let begun = cur.start(ctx);
    assert(begun.starts.drop_last() =~= cur.starts);
}

/// A separator is read without going back, and only from a comma or before the closing token.
pub proof fn lemma_separator(ctx: Ctx, cur: Cur, close: TokenKind)
    requires
        ctx.wf(),
        cur.index < ctx.input.len(),
    ensures
        sound(ctx, cur, p_separator(ctx, cur, close)),
        balanced(cur, p_separator(ctx, cur, close)),
        p_separator(ctx, cur, close) is Ok ==> ctx.kind(cur.index).same(&close) || ctx.kind(
            cur.index,
        ) is Comma,
{
}

/// A parameter consumes a token at least.
pub proof fn lemma_param(ctx: Ctx, cur: Cur)
    requires
        ctx.wf(),
        cur.index < ctx.input.len(),
    ensures
        sound(ctx, cur, p_param(ctx, cur)),
        balanced(cur, p_param(ctx, cur)),
        advances(cur, p_param(ctx, cur)),
{
    reveal(p_param);
    if let Ok((_, c1)) = p_ident(ctx, cur) {
        if let Ok((_, c2)) = p_expect(ctx, c1, TokenKind::Colon) {
            lemma_ty(ctx, c2);
        }
    }
}

/// Parameters are read without going back.
pub proof fn lemma_params(ctx: Ctx, cur: Cur, params: Seq<Param>)
    requires
        ctx.wf(),
        cur.index < ctx.input.len(),
    ensures
        sound(ctx, cur, p_params(ctx, cur, params)),
        balanced(cur, p_params(ctx, cur, params)),
    decreases ctx.remaining(cur.index),
{
    reveal(p_param);
    reveal(p_params);
    if !(ctx.kind(cur.index) is RParen) {
        lemma_param(ctx, cur);
        if let Ok((param, c1)) = p_param(ctx, cur) {
            lemma_separator(ctx, c1, TokenKind::RParen);
            if let Ok((_, c2)) = p_separator(ctx, c1, TokenKind::RParen) {
                lemma_params(ctx, c2, params.push(param));
            }
        }
    }
}

/// A list of parameters is read without going back and closes the construct that it opens.
pub proof fn lemma_param_list(ctx: Ctx, cur: Cur)
    requires
        ctx.wf(),
        cur.index < ctx.input.len(),
    ensures
        sound(ctx, cur, p_param_list(ctx, cur)),
        balanced(cur, p_param_list(ctx, cur)),
{
    reveal(p_param_list);
    lemma_params(ctx, cur.start(ctx), Seq::empty());
    assert(cur.start(ctx).starts.drop_last() =~= cur.starts);
}

/// A receiver is read without going back.
pub proof fn lemma_receiver(ctx: Ctx, cur: Cur)
    requires
        ctx.wf(),
        cur.index < ctx.input.len(),
    ensures
        sound(ctx, cur, p_receiver(ctx, cur)),
        balanced(cur, p_receiver(ctx, cur)),
{
    reveal(p_receiver);
    if let Ok((_, c1)) = p_expect(ctx, cur, TokenKind::KwSelf) {
        lemma_separator(ctx, c1, TokenKind::RParen);
    }
}

/// A list of parameters of a function in an impl block is read without going back.
pub proof fn lemma_impl_param_list(ctx: Ctx, cur: Cur)
    requires
        ctx.wf(),
        cur.index < ctx.input.len(),
    ensures
        sound(ctx, cur, p_impl_param_list(ctx, cur)),
        balanced(cur, p_impl_param_list(ctx, cur)),
{
    reveal(p_receiver);
    reveal(p_impl_param_list);
    lemma_receiver(ctx, cur.start(ctx));
    if let Ok((_, c1)) = p_receiver(ctx, cur.start(ctx)) {
        lemma_params(ctx, c1, Seq::empty());
    }
    assert(cur.start(ctx).starts.drop_last() =~= cur.starts);
}

/// An expression is read without going back and begins with a literal number or an identifier.
pub proof fn lemma_expr(ctx: Ctx, cur: Cur)
    requires
        ctx.wf(),
        cur.index < ctx.input.len(),
    ensures
        sound(ctx, cur, p_expr(ctx, cur)),
        p_expr(ctx, cur) is Ok ==> begins_expr(ctx, cur),
    decreases ctx.remaining(cur.index), 5nat,
{
    reveal(p_expr);
    reveal(p_term);
    reveal(p_expr_rest);
    lemma_term(ctx, cur);
    if let Ok((expr, c1)) = p_term(ctx, cur) {
        lemma_expr_rest(ctx, c1, expr);
    }
}

/// The rest of an expression is read without going back.
pub proof fn lemma_expr_rest(ctx: Ctx, cur: Cur, lhs: ExprView)
    requires
        ctx.wf(),
        cur.index < ctx.input.len(),
    ensures
        sound(ctx, cur, p_expr_rest(ctx, cur, lhs)),
    decreases ctx.remaining(cur.index), 4nat,
{
    reveal(p_expr_rest);
    reveal(p_term);
    if ctx.kind(cur.index) is Plus {
        if let Ok((op, c1)) = p_expect(ctx, cur, TokenKind::Plus) {
            lemma_term(ctx, c1);
            if let Ok((rhs, c2)) = p_term(ctx, c1) {
                lemma_expr_rest(ctx, c2, super::grammar::binary(lhs, crate::ast::OpKind::Add, op, rhs));
            }
        }
    }
}

/// A term is read without going back and begins with a literal number or an identifier.
pub proof fn lemma_term(ctx: Ctx, cur: Cur)
    requires
        ctx.wf(),
        cur.index < ctx.input.len(),
    ensures
        sound(ctx, cur, p_term(ctx, cur)),
        p_term(ctx, cur) is Ok ==> begins_expr(ctx, cur),
    decreases ctx.remaining(cur.index), 3nat,
{
    reveal(p_term);
    reveal(p_factor);
    reveal(p_term_rest);
    lemma_factor(ctx, cur);
    if let Ok((expr, c1)) = p_factor(ctx, cur) {
        lemma_term_rest(ctx, c1, expr);
    }
}

/// The rest of a term is read without going back.
pub proof fn lemma_term_rest(ctx: Ctx, cur: Cur, lhs: ExprView)
    requires
        ctx.wf(),
        cur.index < ctx.input.len(),
    ensures
        sound(ctx, cur, p_term_rest(ctx, cur, lhs)),
    decreases ctx.remaining(cur.index), 2nat,
{
    reveal(p_term_rest);
    reveal(p_factor);
    if ctx.kind(cur.index) is Star {
        if let Ok((op, c1)) = p_expect(ctx, cur, TokenKind::Star) {
            lemma_factor(ctx, c1);
            if let Ok((rhs, c2)) = p_factor(ctx, c1) {
                lemma_term_rest(
                    ctx,
                    c2,
                    super::grammar::binary(lhs, crate::ast::OpKind::Multiply, op, rhs),
                );
            }
        }
    }
}

/// A factor is read without going back and begins with a literal number or an identifier.
pub proof fn lemma_factor(ctx: Ctx, cur: Cur)
    requires
        ctx.wf(),
        cur.index < ctx.input.len(),
    ensures
        sound(ctx, cur, p_factor(ctx, cur)),
        p_factor(ctx, cur) is Ok ==> begins_expr(ctx, cur),
    decreases ctx.remaining(cur.index), 1nat,
{
    reveal(p_factor);
    reveal(p_call);
    reveal(p_struct);
    let begun = cur.start(ctx);
    match ctx.kind(cur.index) {
        TokenKind::Ident(_) => {
            if let Ok((ident, c1)) = p_ident(ctx, begun) {
                match ctx.kind(c1.index) {
                    TokenKind::LParen => {
                        lemma_call(ctx, c1, ident);
                    },
                    TokenKind::LBrace => {
                        lemma_struct(ctx, c1, ident);
                    },
                    _ => {},
                }
            }
        },
        _ => {},
    }
}

/// The rest of a call is read without going back and begins with an opening parenthesis.
pub proof fn lemma_call(ctx: Ctx, cur: Cur, ident: crate::ast::Ident)
    requires
        ctx.wf(),
        cur.index < ctx.input.len(),
        cur.starts.len() > 0,
    ensures
        closes(ctx, cur, p_call(ctx, cur, ident)),
        p_call(ctx, cur, ident) is Ok ==> ctx.kind(cur.index) is LParen,
    decreases ctx.remaining(cur.index), 9nat,
{
    reveal(p_call);
    reveal(p_arg_list);
    if let Ok((lp, c1)) = p_expect(ctx, cur, TokenKind::LParen) {
        lemma_arg_list(ctx, c1);
    }
}

/// The rest of a struct literal is read without going back and begins with an opening brace.
pub proof fn lemma_struct(ctx: Ctx, cur: Cur, ident: crate::ast::Ident)
    requires
        ctx.wf(),
        cur.index < ctx.input.len(),
        cur.starts.len() > 0,
    ensures
        closes(ctx, cur, p_struct(ctx, cur, ident)),
        p_struct(ctx, cur, ident) is Ok ==> ctx.kind(cur.index) is LBrace,
    decreases ctx.remaining(cur.index), 9nat,
{
    reveal(p_struct);
    reveal(p_named_arg_list);
    if let Ok((lb, c1)) = p_expect(ctx, cur, TokenKind::LBrace) {
        lemma_named_arg_list(ctx, c1);
    }
}

/// Arguments are read without going back: each one that is followed by more consumes a token.
pub proof fn lemma_args(ctx: Ctx, cur: Cur, args: Seq<ExprView>)
    requires
        ctx.wf(),
        cur.index < ctx.input.len(),
    ensures
        sound(ctx, cur, p_args(ctx, cur, args)),
    decreases ctx.remaining(cur.index), 6nat,
{
    reveal(p_args);
    reveal(p_expr);
    if !(ctx.kind(cur.index) is RParen) {
        lemma_expr(ctx, cur);
        if let Ok((arg, c1)) = p_expr(ctx, cur) {
            lemma_separator(ctx, c1, TokenKind::RParen);
            if let Ok((_, c2)) = p_separator(ctx, c1, TokenKind::RParen) {
                if ctx.remaining(c2.index) < ctx.remaining(cur.index) {
                    lemma_args(ctx, c2, args.push(arg));
                }
            }
        }
    }
}

/// A list of arguments is read without going back.
pub proof fn lemma_arg_list(ctx: Ctx, cur: Cur)
    requires
        ctx.wf(),
        cur.index < ctx.input.len(),
    ensures
        sound(ctx, cur, p_arg_list(ctx, cur)),
    decreases ctx.remaining(cur.index), 7nat,
{
    reveal(p_arg_list);
    reveal(p_args);
    lemma_args(ctx, cur.start(ctx), Seq::empty());
}

/// A field initialiser consumes a token at least.
pub proof fn lemma_named_arg(ctx: Ctx, cur: Cur)
    requires
        ctx.wf(),
        cur.index < ctx.input.len(),
    ensures
        sound(ctx, cur, p_named_arg(ctx, cur)),
        advances(cur, p_named_arg(ctx, cur)),
    decreases ctx.remaining(cur.index), 6nat,
{
    reveal(p_named_arg);
    reveal(p_expr);
    if let Ok((_, c1)) = p_ident(ctx, cur.start(ctx)) {
        if let Ok((_, c2)) = p_expect(ctx, c1, TokenKind::Colon) {
            lemma_expr(ctx, c2);
        }
    }
}

/// Field initialisers are read without going back.
pub proof fn lemma_named_args(ctx: Ctx, cur: Cur, args: Seq<NamedArgView>)
    requires
        ctx.wf(),
        cur.index < ctx.input.len(),
    ensures
        sound(ctx, cur, p_named_args(ctx, cur, args)),
    decreases ctx.remaining(cur.index), 7nat,
{
    reveal(p_named_args);
    reveal(p_named_arg);
    if !(ctx.kind(cur.index) is RBrace) {
        lemma_named_arg(ctx, cur);
        if let Ok((arg, c1)) = p_named_arg(ctx, cur) {
            lemma_separator(ctx, c1, TokenKind::RBrace);
            if let Ok((_, c2)) = p_separator(ctx, c1, TokenKind::RBrace) {
                lemma_named_args(ctx, c2, args.push(arg));
            }
        }
    }
}

/// A list of field initialisers is read without going back.
pub proof fn lemma_named_arg_list(ctx: Ctx, cur: Cur)
    requires
        ctx.wf(),
        cur.index < ctx.input.len(),
    ensures
        sound(ctx, cur, p_named_arg_list(ctx, cur)),
    decreases ctx.remaining(cur.index), 8nat,
{
    reveal(p_named_arg_list);
    reveal(p_named_args);
    lemma_named_args(ctx, cur.start(ctx), Seq::empty());
}

/// A `return` statement consumes a token at least.
pub proof fn lemma_return(ctx: Ctx, cur: Cur)
    requires
        ctx.wf(),
        cur.index < ctx.input.len(),
    ensures
        sound(ctx, cur, p_return(ctx, cur)),
        advances(cur, p_return(ctx, cur)),
{
    reveal(p_return);
    if let Ok((_, c1)) = p_expect(ctx, cur.start(ctx), TokenKind::KwRet) {
        lemma_expr(ctx, c1);
    }
}

/// A `let` binding consumes a token at least.
pub proof fn lemma_local(ctx: Ctx, cur: Cur)
    requires
        ctx.wf(),
        cur.index < ctx.input.len(),
    ensures
        sound(ctx, cur, p_local(ctx, cur)),
        advances(cur, p_local(ctx, cur)),
{
    reveal(p_ty);
    reveal(p_local);
    if let Ok((_, c1)) = p_expect(ctx, cur.start(ctx), TokenKind::KwLet) {
        if let Ok((_, c2)) = p_ident(ctx, c1) {
            if let Ok((_, c3)) = p_expect(ctx, c2, TokenKind::Colon) {
                lemma_ty(ctx, c3);
                if let Ok((_, c4)) = p_ty(ctx, c3) {
                    if let Ok((_, c5)) = p_expect(ctx, c4, TokenKind::Equal) {
                        lemma_expr(ctx, c5);
                    }
                }
            }
        }
    }
}

/// A statement consumes a token at least.
pub proof fn lemma_stmt(ctx: Ctx, cur: Cur)
    requires
        ctx.wf(),
        cur.index < ctx.input.len(),
    ensures
        sound(ctx, cur, p_stmt(ctx, cur)),
        advances(cur, p_stmt(ctx, cur)),
{
    reveal(p_stmt);
    lemma_local(ctx, cur);
    lemma_return(ctx, cur);
}

/// Statements are read without going back.
pub proof fn lemma_stmts(ctx: Ctx, cur: Cur, stmts: Seq<StmtView>)
    requires
        ctx.wf(),
        cur.index < ctx.input.len(),
    ensures
        sound(ctx, cur, p_stmts(ctx, cur, stmts)),
    decreases ctx.remaining(cur.index),
{
    reveal(p_stmt);
    reveal(p_stmts);
    if !(ctx.kind(cur.index) is RBrace) {
        lemma_stmt(ctx, cur);
        if let Ok((stmt, c1)) = p_stmt(ctx, cur) {
            if let Ok((_, c2)) = p_expect(ctx, c1, TokenKind::Semicolon) {
                lemma_stmts(ctx, c2, stmts.push(stmt));
            }
        }
    }
}

/// A block is read without going back.
pub proof fn lemma_block(ctx: Ctx, cur: Cur)
    requires
        ctx.wf(),
        cur.index < ctx.input.len(),
    ensures
        sound(ctx, cur, p_block(ctx, cur)),
{
    reveal(p_block);
    if let Ok((_, c1)) = p_expect(ctx, cur.start(ctx), TokenKind::LBrace) {
        lemma_stmts(ctx, c1, Seq::empty());
    }
}

/// A function declaration consumes a token at least.
pub proof fn lemma_item_fn(ctx: Ctx, cur: Cur)
    requires
        ctx.wf(),
        cur.index < ctx.input.len(),
    ensures
        sound(ctx, cur, p_item_fn(ctx, cur)),
        advances(cur, p_item_fn(ctx, cur)),
{
    reveal(p_ty);
    reveal(p_param_list);
    reveal(p_item_fn);
    if let Ok((_, c1)) = p_expect(ctx, cur.start(ctx), TokenKind::KwFn) {
        if let Ok((_, c2)) = p_ident(ctx, c1) {
            if let Ok((_, c3)) = p_expect(ctx, c2, TokenKind::LParen) {
                lemma_param_list(ctx, c3);
                if let Ok((_, c4)) = p_param_list(ctx, c3) {
                    if let Ok((_, c5)) = p_expect(ctx, c4, TokenKind::RParen) {
                        if let Ok((_, c6)) = p_expect(ctx, c5, TokenKind::RArrow) {
                            lemma_ty(ctx, c6);
                            if let Ok((_, c7)) = p_ty(ctx, c6) {
                                lemma_block(ctx, c7);
                            }
                        }
                    }
                }
            }
        }
    }
}

/// A named field consumes a token at least.
pub proof fn lemma_field_named(ctx: Ctx, cur: Cur)
    requires
        ctx.wf(),
        cur.index < ctx.input.len(),
    ensures
        sound(ctx, cur, p_field_named(ctx, cur)),
        advances(cur, p_field_named(ctx, cur)),
{
    reveal(p_field_named);
    if let Ok((_, c1)) = p_ident(ctx, cur.start(ctx)) {
        if let Ok((_, c2)) = p_expect(ctx, c1, TokenKind::Colon) {
            lemma_ty(ctx, c2);
        }
    }
}

/// Named fields are read without going back.
pub proof fn lemma_field_list(ctx: Ctx, cur: Cur, fields: Seq<FieldNamed>)
    requires
        ctx.wf(),
        cur.index < ctx.input.len(),
    ensures
        sound(ctx, cur, p_field_list(ctx, cur, fields)),
    decreases ctx.remaining(cur.index),
{
    reveal(p_field_named);
    reveal(p_field_list);
    if !(ctx.kind(cur.index) is RBrace) {
        lemma_field_named(ctx, cur);
        if let Ok((field, c1)) = p_field_named(ctx, cur) {
            lemma_separator(ctx, c1, TokenKind::RBrace);
            if let Ok((_, c2)) = p_separator(ctx, c1, TokenKind::RBrace) {
                lemma_field_list(ctx, c2, fields.push(field));
            }
        }
    }
}

/// The fields of a struct are read without going back.
pub proof fn lemma_fields(ctx: Ctx, cur: Cur)
    requires
        ctx.wf(),
        cur.index < ctx.input.len(),
    ensures
        sound(ctx, cur, p_fields(ctx, cur)),
        sound(ctx, cur, p_fields_named(ctx, cur)),
{
    reveal(p_fields_named);
    reveal(p_fields);
    if let Ok((_, c1)) = p_expect(ctx, cur.start(ctx), TokenKind::LBrace) {
        lemma_field_list(ctx, c1, Seq::empty());
    }
}

/// A struct declaration consumes a token at least.
pub proof fn lemma_item_struct(ctx: Ctx, cur: Cur)
    requires
        ctx.wf(),
        cur.index < ctx.input.len(),
    ensures
        sound(ctx, cur, p_item_struct(ctx, cur)),
        advances(cur, p_item_struct(ctx, cur)),
{
    reveal(p_item_struct);
    if let Ok((_, c1)) = p_expect(ctx, cur.start(ctx), TokenKind::KwStruct) {
        if let Ok((_, c2)) = p_ident(ctx, c1) {
            lemma_fields(ctx, c2);
        }
    }
}

/// An item of an impl block consumes a token at least.
pub proof fn lemma_impl_item(ctx: Ctx, cur: Cur)
    requires
        ctx.wf(),
        cur.index < ctx.input.len(),
    ensures
        sound(ctx, cur, p_impl_item(ctx, cur)),
        advances(cur, p_impl_item(ctx, cur)),
        sound(ctx, cur, p_impl_item_fn(ctx, cur)),
        advances(cur, p_impl_item_fn(ctx, cur)),
{
    reveal(p_ty);
    reveal(p_impl_param_list);
    reveal(p_impl_item_fn);
    reveal(p_impl_item);
    if let Ok((_, c1)) = p_expect(ctx, cur.start(ctx), TokenKind::KwFn) {
        if let Ok((_, c2)) = p_ident(ctx, c1) {
            if let Ok((_, c3)) = p_expect(ctx, c2, TokenKind::LParen) {
                lemma_impl_param_list(ctx, c3);
                if let Ok((_, c4)) = p_impl_param_list(ctx, c3) {
                    if let Ok((_, c5)) = p_expect(ctx, c4, TokenKind::RParen) {
                        if let Ok((_, c6)) = p_expect(ctx, c5, TokenKind::RArrow) {
                            lemma_ty(ctx, c6);
                            if let Ok((_, c7)) = p_ty(ctx, c6) {
                                lemma_block(ctx, c7);
                            }
                        }
                    }
                }
            }
        }
    }
}

/// The items of an impl block are read without going back.
pub proof fn lemma_impl_items(ctx: Ctx, cur: Cur, items: Seq<ImplItemView>)
    requires
        ctx.wf(),
        cur.index < ctx.input.len(),
    ensures
        sound(ctx, cur, p_impl_items(ctx, cur, items)),
    decreases ctx.remaining(cur.index),
{
    reveal(p_impl_item);
    reveal(p_impl_items);
    if !(ctx.kind(cur.index) is RBrace) {
        lemma_impl_item(ctx, cur);
        if let Ok((item, c1)) = p_impl_item(ctx, cur) {
            lemma_impl_items(ctx, c1, items.push(item));
        }
    }
}

/// An impl block consumes a token at least.
pub proof fn lemma_item_impl(ctx: Ctx, cur: Cur)
    requires
        ctx.wf(),
        cur.index < ctx.input.len(),
    ensures
        sound(ctx, cur, p_item_impl(ctx, cur)),
        advances(cur, p_item_impl(ctx, cur)),
{
    reveal(p_item_impl);
    if let Ok((_, c1)) = p_expect(ctx, cur.start(ctx), TokenKind::KwImpl) {
        if let Ok((_, c2)) = p_ident(ctx, c1) {
            if let Ok((_, c3)) = p_expect(ctx, c2, TokenKind::LBrace) {
                lemma_impl_items(ctx, c3, Seq::empty());
            }
        }
    }
}

/// An item consumes a token at least.
pub proof fn lemma_item(ctx: Ctx, cur: Cur)
    requires
        ctx.wf(),
        cur.index < ctx.input.len(),
        cur.starts.len() > 0,
    ensures
        sound(ctx, cur, p_item(ctx, cur)),
        advances(cur, p_item(ctx, cur)),
{
    reveal(p_item);
    lemma_item_fn(ctx, cur);
    lemma_item_struct(ctx, cur);
    lemma_item_impl(ctx, cur);
}

/// Items are read without going back.
pub proof fn lemma_items(ctx: Ctx, cur: Cur, items: Seq<ItemView>)
    requires
        ctx.wf(),
        cur.index < ctx.input.len(),
        cur.starts.len() > 0,
    ensures
        sound(ctx, cur, p_items(ctx, cur, items)),
    decreases ctx.remaining(cur.index),
{
    reveal(p_item);
    reveal(p_items);
    if !(ctx.kind(cur.index) is EOF || ctx.kind(cur.index) is RBrace) {
        lemma_item(ctx, cur);
        if let Ok((item, c1)) = p_item(ctx, cur) {
            lemma_items(ctx, c1, items.push(item));
        }
    }
}

/// Parsing a file either gives its tree or fails at a place in the source:
/// no list in it is ever cut short for want of progress.
pub proof fn lemma_file(ctx: Ctx, cur: Cur)
    requires
        ctx.wf(),
        cur.index < ctx.input.len(),
    ensures
        match p_file(ctx, cur) {
            Ok((_, to)) => cur.index <= to.index < ctx.input.len(),
            Err(failure) => failure.span is Some,
        },
{
    reveal(p_file);
    lemma_items(ctx, cur.start(ctx), Seq::empty());
}

} // verus!
